//! The generic value resolver, the key cache and the encrypted-field fetch.
//!
//! Resolution policy: a raw value, if present, wins over a default; if
//! neither is present, a required field fails and an optional one resolves to
//! nothing. A present-but-unparsable value is always an error — optionality
//! only governs absence, never invalid content.
//!
//! Encrypted fields read their private key from a file named by another
//! environment variable. Reading files is the caller's business: when the key
//! for a field is not cached yet, the fetch step hands back the file path,
//! the caller reads it and loads it into the cache, and the next fetch is
//! served from the cache. The cache is append-only for the duration of one
//! resolution pass.

use crate::crypto;
use crate::crypto::decrypt_model;
use crate::env::{lookup, EnvMap};
use crate::error::Error;
use crate::secret::SecretString;
use crate::strutil::{trim_end_ws, trimmed_end};
use vstd::prelude::*;
use vstd::string::*;

verus! {

/// The raw string that resolution works on: the raw value if present, else
/// the default if present.
pub open spec fn chosen<'a>(env_value: Option<&'a str>, default: Option<&'a str>) -> Option<
    &'a str,
> {
    if env_value is Some {
        env_value
    } else {
        default
    }
}

/// Resolve a required field: pick the raw value over the default, parse the
/// pick, and fail if neither is present or the pick does not parse.
pub fn determine_value<RT, F: Fn(&str) -> Result<RT, String>>(
    var: &str,
    parser: F,
    env_value: Option<&str>,
    default: Option<&str>,
) -> (r: Result<RT, Error>)
    requires
        chosen(env_value, default) matches Some(s) ==> call_requires(parser, (s,)),
    ensures
        (chosen(env_value, default) is None) <==> (r matches Err(e) && e.is_missing(var@)),
        r matches Ok(v) ==> (chosen(env_value, default) matches Some(s) && call_ensures(
            parser,
            (s,),
            Ok(v),
        )),
        r matches Err(e) ==> (e matches Error::ConfigValueParse { var: v, cause: c } ==> ((v@
            == var@) && (chosen(env_value, default) matches Some(s) && call_ensures(
            parser,
            (s,),
            Err(c),
        )))),
        r matches Err(e) ==> (e.is_missing(var@) || e.is_parse_failure(var@)),
{
    let value_to_parse: &str = match (env_value, default) {
        (None, Some(default_value)) => default_value,
        (Some(value), _) => value,
        (None, None) => {
            return Err(Error::no_config_value(var));
        },
    };
    match parser(value_to_parse) {
        Ok(v) => Ok(v),
        Err(cause) => Err(Error::config_value_parse(var, cause)),
    }
}

/// Resolve an optional field: the same precedence as [`determine_value`],
/// except that when neither a raw value nor a default is present the result
/// is nothing rather than an error.
pub fn determine_optional_value<RT, F: Fn(&str) -> Result<RT, String>>(
    var: &str,
    parser: F,
    env_value: Option<&str>,
    default: Option<&str>,
) -> (r: Result<Option<RT>, Error>)
    requires
        chosen(env_value, default) matches Some(s) ==> call_requires(parser, (s,)),
    ensures
        (chosen(env_value, default) is None) <==> (r matches Ok(v) && v is None),
        r matches Ok(v) ==> (v matches Some(t) ==> (chosen(env_value, default) matches Some(s)
            && call_ensures(parser, (s,), Ok(t)))),
        r matches Err(e) ==> (e matches Error::ConfigValueParse { var: v, cause: c } ==> ((v@
            == var@) && (chosen(env_value, default) matches Some(s) && call_ensures(
            parser,
            (s,),
            Err(c),
        )))),
        r matches Err(e) ==> e.is_parse_failure(var@),
{
    let value_to_parse: &str = match (env_value, default) {
        (None, Some(default_value)) => default_value,
        (Some(value), _) => value,
        (None, None) => {
            return Ok(None);
        },
    };
    match parser(value_to_parse) {
        Ok(v) => Ok(Some(v)),
        Err(cause) => Err(Error::config_value_parse(var, cause)),
    }
}

/// `c` is a decimal digit.
pub open spec fn is_digit(c: char) -> bool {
    48 <= c as u32 <= 57
}

/// The value of the decimal digit `c`.
pub open spec fn digit_val(c: char) -> int {
    c as u32 - 48
}

/// Every character of `s` is a decimal digit.
pub open spec fn all_digits(s: Seq<char>) -> bool {
    forall|i: int| 0 <= i < s.len() ==> is_digit(#[trigger] s[i])
}

/// The numeric value of the decimal digit string `s`.
pub open spec fn dec_val(s: Seq<char>) -> int
    decreases s.len(),
{
    if s.len() == 0 {
        0
    } else {
        dec_val(s.drop_last()) * 10 + digit_val(s.last())
    }
}

/// `s` is a decimal rendering of a 64-bit unsigned value: nonempty, digits
/// only, and within range.
pub open spec fn is_u64_string(s: Seq<char>) -> bool {
    s.len() > 0 && all_digits(s) && dec_val(s) <= u64::MAX
}

/// A digit string's value is nonnegative.
proof fn lemma_dec_val_nonneg(s: Seq<char>)
    requires
        all_digits(s),
    ensures
        dec_val(s) >= 0,
    decreases s.len(),
{
    if s.len() > 0 {
        assert(all_digits(s.drop_last()));
        lemma_dec_val_nonneg(s.drop_last());
    }
}

/// Extending a digit string never shrinks its value.
proof fn lemma_dec_val_take_le(s: Seq<char>, k: int)
    requires
        all_digits(s),
        0 <= k <= s.len(),
    ensures
        dec_val(s.take(k)) <= dec_val(s),
    decreases s.len() - k,
{
    if k < s.len() {
        lemma_dec_val_take_le(s, k + 1);
        assert(all_digits(s.take(k)));
        lemma_dec_val_nonneg(s.take(k));
        assert(s.take(k + 1).drop_last() =~= s.take(k));
        assert(dec_val(s.take(k + 1)) == dec_val(s.take(k)) * 10 + digit_val(s.take(k + 1).last()));
        assert(s.take(k + 1).last() == s[k]);
    } else {
        assert(s.take(k) =~= s);
    }
}

/// Parse a string as itself. Never fails.
pub fn parse_text(s: &str) -> (r: Result<String, String>)
    ensures
        r matches Ok(t) && t@ == s@,
{
    Ok(s.to_owned())
}

/// Parse a string as a secret. Never fails.
pub fn parse_secret(s: &str) -> (r: Result<SecretString, String>)
    ensures
        r matches Ok(t) && t@ == s@,
{
    Ok(SecretString::new(s.to_owned()))
}

/// Parse a decimal string as a 64-bit unsigned value: it succeeds exactly on
/// nonempty all-digit strings whose value fits.
pub fn parse_u64(s: &str) -> (r: Result<u64, String>)
    ensures
        r matches Ok(v) ==> is_u64_string(s@) && v == dec_val(s@),
        r matches Err(_) ==> !is_u64_string(s@),
{
    let n = s.unicode_len();
    if n == 0 {
        return Err(String::from_str("empty string"));
    }
    let mut acc: u64 = 0;
    let mut i: usize = 0;
    proof {
        assert(s@.take(0) =~= Seq::<char>::empty());
    }
    while i < n
        invariant
            n == s@.len(),
            i <= n,
            all_digits(s@.take(i as int)),
            acc == dec_val(s@.take(i as int)),
        decreases n - i,
    {
        let c = s.get_char(i);
        let u = c as u32;
        proof {
            assert(s@.take(i + 1).drop_last() =~= s@.take(i as int));
            assert(s@.take(i + 1).last() == s@[i as int]);
        }
        if u < 48 || u > 57 {
            proof {
                assert(!is_digit(s@[i as int]));
            }
            return Err(String::from_str("invalid digit"));
        }
        let d: u64 = (u - 48) as u64;
        let stepped = match acc.checked_mul(10) {
            Some(m) => m.checked_add(d),
            None => None,
        };
        match stepped {
            Some(v) => {
                acc = v;
            },
            None => {
                proof {
                    if all_digits(s@) {
                        assert(dec_val(s@.take(i + 1)) > u64::MAX);
                        lemma_dec_val_take_le(s@, i + 1);
                    }
                }
                return Err(String::from_str("number too large"));
            },
        }
        i += 1;
    }
    proof {
        assert(s@.take(n as int) =~= s@);
    }
    Ok(acc)
}

/// How to obtain a decryption key. Used as a cache key.
#[derive(Debug)]
pub enum Key {
    /// Read the key from the file whose path is held by this environment
    /// variable.
    File(String),
}

impl Key {
    /// The environment variable that identifies this key spec.
    pub open spec fn spec_name(&self) -> Seq<char> {
        match self {
            Key::File(v) => v@,
        }
    }
}

impl Clone for Key {
    /// An identical key spec.
    fn clone(&self) -> (r: Key)
        ensures
            r.spec_name() == self.spec_name(),
    {
        match self {
            Key::File(v) => Key::File(v.clone()),
        }
    }
}

/// Loaded private-key tokens, memoized by key spec so that several fields
/// sharing one key cause one file read. Fresh per resolution pass and
/// append-only while the pass runs.
pub struct KeyCache {
    entries: Vec<(Key, SecretString)>,
}

impl View for KeyCache {
    type V = Seq<(Seq<char>, Seq<char>)>;

    closed spec fn view(&self) -> Seq<(Seq<char>, Seq<char>)> {
        self.entries@.map_values(|p: (Key, SecretString)| (p.0.spec_name(), p.1@))
    }
}

impl KeyCache {
    /// An empty cache, for the start of one resolution pass.
    pub fn new() -> (r: KeyCache)
        ensures
            r@ =~= Seq::<(Seq<char>, Seq<char>)>::empty(),
    {
        KeyCache { entries: Vec::new() }
    }

    /// The cached token for `key_spec`, if it was loaded before.
    pub fn get(&self, key_spec: &Key) -> (r: Option<&SecretString>)
        ensures
            match r {
                Some(tok) => lookup(self@, key_spec.spec_name()) == Some(tok@),
                None => lookup(self@, key_spec.spec_name()) is None,
            },
    {
        let n = self.entries.len();
        let mut i: usize = 0;
        proof {
            assert(self@.skip(0) =~= self@);
        }
        while i < n
            invariant
                n == self.entries.len(),
                i <= n,
                lookup(self@, key_spec.spec_name()) == lookup(
                    self@.skip(i as int),
                    key_spec.spec_name(),
                ),
            decreases n - i,
        {
            proof {
                assert(self@.skip(i as int)[0] == self@[i as int]);
            }
            let hit = match (&self.entries[i].0, key_spec) {
                (Key::File(a), Key::File(b)) => crate::strutil::str_eq(a.as_str(), b.as_str()),
            };
            if hit {
                return Some(&self.entries[i].1);
            }
            proof {
                assert(self@.skip(i as int).drop_first() =~= self@.skip(i + 1));
            }
            i += 1;
        }
        proof {
            assert(self@.skip(n as int) =~= Seq::<(Seq<char>, Seq<char>)>::empty());
        }
        None
    }

    /// Load the content of the key file read for `key_spec`: trailing
    /// whitespace is trimmed and the token cached. Existing entries stay.
    pub fn load(&mut self, key_spec: &Key, contents: &str)
        ensures
            final (self)@ == seq![(key_spec.spec_name(), trimmed_end(contents@))] + old(self)@,
            lookup(final (self)@, key_spec.spec_name()) == Some(trimmed_end(contents@)),
            forall|other: Seq<char>|
                other != key_spec.spec_name() ==> #[trigger] lookup(final (self)@, other) == lookup(
                    old(self)@,
                    other,
                ),
    {
        let token = SecretString::new(trim_end_ws(contents));
        self.entries.insert(0, (key_spec.clone(), token));
        proof {
            assert(final (self)@ =~= seq![(key_spec.spec_name(), trimmed_end(contents@))] + old(
                self,
            )@);
            assert(final (self)@.drop_first() =~= old(self)@);
        }
    }
}

/// The outcome of one fetch step for an encrypted field.
#[derive(Debug)]
pub enum Fetched {
    /// The field's variable is not set; optionality and defaults apply as
    /// they would for a plain field.
    Absent,
    /// The decrypted plaintext.
    Plaintext(String),
    /// The key is not cached yet: read this file and load it into the cache,
    /// then fetch again.
    NeedKeyFile { path: String },
}

/// One fetch step for the encrypted field held by `value_field_var`.
///
/// If the variable is absent, the field is absent. Otherwise the key is
/// looked up in the cache: a cached key decrypts the value at once, with the
/// variable's own name as the context; an uncached key yields the path of
/// the key file (from the environment variable named by the key spec), or a
/// missing-value failure when that variable is not set either.
pub fn fetch_encrypted_field(
    env: &EnvMap,
    key_cache: &KeyCache,
    value_field_var: &str,
    key_spec: &Key,
) -> (r: Result<Fetched, Error>)
    ensures
        lookup(env@, value_field_var@) is None ==> (r matches Ok(f) && f is Absent),
        (lookup(env@, value_field_var@) is Some && lookup(
            key_cache@,
            key_spec.spec_name(),
        ) is Some) ==> match r {
            Ok(f) => f matches Fetched::Plaintext(s) && decrypt_model(
                lookup(env@, value_field_var@).unwrap(),
                value_field_var@,
                lookup(key_cache@, key_spec.spec_name()).unwrap(),
            ) == Ok::<Seq<char>, crypto::ErrorKind>(s@),
            Err(e) => e matches Error::Cryptography { cause } && decrypt_model(
                lookup(env@, value_field_var@).unwrap(),
                value_field_var@,
                lookup(key_cache@, key_spec.spec_name()).unwrap(),
            ) == Err::<Seq<char>, crypto::ErrorKind>(cause.spec_kind()),
        },
        (lookup(env@, value_field_var@) is Some && lookup(key_cache@, key_spec.spec_name()) is None
            && lookup(env@, key_spec.spec_name()) is None) ==> (r matches Err(e) && e.is_missing(
            key_spec.spec_name(),
        )),
        (lookup(env@, value_field_var@) is Some && lookup(key_cache@, key_spec.spec_name()) is None
            && lookup(env@, key_spec.spec_name()) is Some) ==> (r matches Ok(f)
            && f matches Fetched::NeedKeyFile { path: p } && p@ == lookup(
            env@,
            key_spec.spec_name(),
        ).unwrap()),
{
    let value = match env.get(value_field_var) {
        None => {
            return Ok(Fetched::Absent);
        },
        Some(v) => v,
    };
    match key_cache.get(key_spec) {
        Some(token) => {
            match crypto::decrypt(value.as_str(), value_field_var, token) {
                Ok(s) => Ok(Fetched::Plaintext(s)),
                Err(cause) => Err(Error::Cryptography { cause }),
            }
        },
        None => {
            let file_env = match key_spec {
                Key::File(v) => v,
            };
            match env.get(file_env.as_str()) {
                None => Err(Error::no_config_value(file_env.as_str())),
                Some(path) => Ok(Fetched::NeedKeyFile { path: path.clone() }),
            }
        },
    }
}

/// Key cache reuse: once the key for a spec is loaded, it stays resolvable
/// from the cache no matter what is loaded after it — the cache is
/// append-only within a pass. Together with the contract of
/// [`fetch_encrypted_field`] (a fetch that finds the key cached never yields
/// `NeedKeyFile`), two fields sharing one key spec cause exactly one file
/// read: only the first fetch can ask for the file.
pub proof fn lemma_key_cache_reuse(
    cache: Seq<(Seq<char>, Seq<char>)>,
    key_name: Seq<char>,
    token: Seq<char>,
    later: Seq<(Seq<char>, Seq<char>)>,
)
    ensures
        lookup(later + (seq![(key_name, token)] + cache), key_name) is Some,
    decreases later.len(),
{
    if later.len() == 0 {
        assert(later + (seq![(key_name, token)] + cache) =~= seq![(key_name, token)] + cache);
        assert((seq![(key_name, token)] + cache)[0] == (key_name, token));
    } else {
        let whole = later + (seq![(key_name, token)] + cache);
        if whole[0].0 != key_name {
            lemma_key_cache_reuse(cache, key_name, token, later.drop_first());
            assert(whole.drop_first() =~= later.drop_first() + (seq![(key_name, token)] + cache));
        }
    }
}

} // verus!
