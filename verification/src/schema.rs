//! A declarative per-field schema and the assembly loop that resolves a
//! whole configuration in one pass.
//!
//! Environment variables are addressed as `{PREFIX}_{FIELD_NAME}`, both
//! halves rendered in upper-case, underscore-separated form. For each
//! declared field the pass picks the raw value (decrypting it first where
//! the field is encrypted), falls back to the default, parses, and stops at
//! the first failure. After all fields are built, the variables of fields
//! flagged sensitive are purged from the environment view; the caller
//! mirrors those purges onto the real process environment.
//!
//! Reading key files is the caller's business: when an encrypted field needs
//! a key that is not cached yet, the pass stops and hands back the file
//! path; the caller reads the file, loads it into the cache and runs the
//! pass again. A loaded key stays cached, so each key file is read once.

use crate::config::{
    dec_val, determine_optional_value, determine_value, fetch_encrypted_field, is_u64_string,
    parse_secret, parse_text, parse_u64, Fetched, Key, KeyCache,
};
use crate::crypto;
use crate::crypto::decrypt_model;
use crate::env::{lookup, without, EnvMap};
use crate::error::Error;
use crate::secret::SecretString;
use crate::strutil::{concat3, shouty_snake_case, shouty_snake_of, str_eq};
use vstd::prelude::*;
use vstd::string::*;

verus! {

/// The name of the environment variable addressing field `field` under
/// `prefix` (the prefix already rendered upper-case).
pub open spec fn var_of(prefix: Seq<char>, field: Seq<char>) -> Seq<char> {
    prefix + "_"@ + shouty_snake_of(field)
}

/// Build the environment variable name for `field` under `prefix_shouty`.
pub fn env_var_name(prefix_shouty: &str, field: &str) -> (r: String)
    ensures
        r@ == var_of(prefix_shouty@, field@),
{
    let sf = shouty_snake_case(field);
    concat3(prefix_shouty, "_", sf.as_str())
}

/// The type a field's chosen string is parsed into.
#[derive(Clone, Copy, PartialEq, Eq, Structural, Debug)]
pub enum FieldKind {
    /// The string itself.
    Text,
    /// A decimal 64-bit unsigned value.
    Unsigned,
    /// The string itself, wrapped so that it cannot be printed.
    SecretText,
}

/// One declared configuration field.
pub struct FieldSpec {
    /// The field's identifier, as written in its struct.
    pub field: String,
    /// How the chosen string is parsed.
    pub kind: FieldKind,
    /// Absence resolves to nothing instead of failing.
    pub optional: bool,
    /// The field's variable is purged from the environment after the pass.
    pub sensitive: bool,
    /// When present, the field's raw value is an encrypted token, and this
    /// names the field whose variable holds the key file's path.
    pub key_file_field: Option<String>,
    /// The fallback when the variable is not set.
    pub default_literal: Option<String>,
}

impl FieldSpec {
    /// A required, plain, non-sensitive field without a default.
    pub fn new(field: String, kind: FieldKind) -> (r: FieldSpec)
        ensures
            r.field@ == field@,
            r.kind == kind,
            !r.optional,
            !r.sensitive,
            r.key_file_field is None,
            r.default_literal is None,
    {
        FieldSpec {
            field,
            kind,
            optional: false,
            sensitive: false,
            key_file_field: None,
            default_literal: None,
        }
    }

    /// The same field, resolving to nothing when absent.
    pub fn mark_optional(self) -> (r: FieldSpec)
        ensures
            r == (FieldSpec { optional: true, ..self }),
    {
        FieldSpec { optional: true, ..self }
    }

    /// The same field, with its variable purged after the pass.
    pub fn mark_sensitive(self) -> (r: FieldSpec)
        ensures
            r == (FieldSpec { sensitive: true, ..self }),
    {
        FieldSpec { sensitive: true, ..self }
    }

    /// The same field, with a default.
    pub fn with_default(self, default: String) -> (r: FieldSpec)
        ensures
            r == (FieldSpec { default_literal: Some(default), ..self }),
    {
        FieldSpec { default_literal: Some(default), ..self }
    }

    /// The same field, encrypted, keyed by the file whose path is held by
    /// the variable of `key_file_field`.
    pub fn encrypted_with(self, key_file_field: String) -> (r: FieldSpec)
        ensures
            r == (FieldSpec { key_file_field: Some(key_file_field), ..self }),
    {
        FieldSpec { key_file_field: Some(key_file_field), ..self }
    }
}

/// A resolved field value. Deliberately unprintable as a whole, since a
/// variant holds a secret.
pub enum ConfigValue {
    /// A plain string field.
    Text(String),
    /// A decimal 64-bit unsigned field.
    Unsigned(u64),
    /// A secret field; unprintable by construction.
    SecretText(SecretString),
    /// An optional field that had neither a value nor a default.
    Absent,
}

/// The value of the first entry of `s` named `field`, if any.
pub open spec fn cfg_lookup(s: Seq<(Seq<char>, ConfigValue)>, field: Seq<char>) -> Option<
    ConfigValue,
>
    decreases s.len(),
{
    if s.len() == 0 {
        None
    } else if s[0].0 == field {
        Some(s[0].1)
    } else {
        cfg_lookup(s.drop_first(), field)
    }
}

/// Looking a field up by name finds its entry, as long as no earlier entry
/// shares the name. With a schema of distinct field names, the by-name
/// accessors of [`ResolvedConfig`] therefore return exactly what the pass
/// resolved at the field's position.
pub proof fn lemma_cfg_lookup_at(s: Seq<(Seq<char>, ConfigValue)>, i: int)
    requires
        0 <= i < s.len(),
        forall|j: int| 0 <= j < i ==> (#[trigger] s[j]).0 != s[i].0,
    ensures
        cfg_lookup(s, s[i].0) == Some(s[i].1),
    decreases i,
{
    if i > 0 {
        assert(s.drop_first()[i - 1] == s[i]);
        lemma_cfg_lookup_at(s.drop_first(), i - 1);
    }
}

/// The resolved configuration: one value per declared field, in schema
/// order, plus the variables that were purged.
pub struct ResolvedConfig {
    fields: Vec<(String, ConfigValue)>,
    purged: Vec<String>,
}

impl View for ResolvedConfig {
    type V = Seq<(Seq<char>, ConfigValue)>;

    closed spec fn view(&self) -> Seq<(Seq<char>, ConfigValue)> {
        self.fields@.map_values(|p: (String, ConfigValue)| (p.0@, p.1))
    }
}

impl ResolvedConfig {
    /// The names of the variables purged at the end of the pass.
    pub closed spec fn spec_purged(&self) -> Seq<Seq<char>> {
        self.purged@.map_values(|s: String| s@)
    }

    /// The variables purged at the end of the pass, for the caller to mirror
    /// onto the real process environment.
    pub fn purged_vars(&self) -> (r: &Vec<String>)
        ensures
            r@.len() == self.spec_purged().len(),
            forall|i: int| 0 <= i < r@.len() ==> #[trigger] r@[i]@ == self.spec_purged()[i],
    {
        &self.purged
    }

    /// The value resolved for `field`, if the schema declared it.
    pub fn value(&self, field: &str) -> (r: Option<&ConfigValue>)
        ensures
            match r {
                Some(v) => cfg_lookup(self@, field@) == Some(*v),
                None => cfg_lookup(self@, field@) is None,
            },
    {
        let n = self.fields.len();
        let mut i: usize = 0;
        proof {
            assert(self@.skip(0) =~= self@);
        }
        while i < n
            invariant
                n == self.fields.len(),
                i <= n,
                cfg_lookup(self@, field@) == cfg_lookup(self@.skip(i as int), field@),
            decreases n - i,
        {
            proof {
                assert(self@.skip(i as int)[0] == self@[i as int]);
            }
            if str_eq(self.fields[i].0.as_str(), field) {
                return Some(&self.fields[i].1);
            }
            proof {
                assert(self@.skip(i as int).drop_first() =~= self@.skip(i + 1));
            }
            i += 1;
        }
        proof {
            assert(self@.skip(n as int) =~= Seq::<(Seq<char>, ConfigValue)>::empty());
        }
        None
    }

    /// The text resolved for `field`, where it resolved to text.
    pub fn text_value(&self, field: &str) -> (r: Option<&String>)
        ensures
            r matches Some(t) ==> (cfg_lookup(self@, field@) matches Some(v) && v matches
                ConfigValue::Text(u) && u@ == t@),
            r is None ==> !(cfg_lookup(self@, field@) matches Some(v) && v is Text),
    {
        match self.value(field) {
            Some(ConfigValue::Text(t)) => Some(t),
            _ => None,
        }
    }

    /// The number resolved for `field`, where it resolved to one.
    pub fn unsigned_value(&self, field: &str) -> (r: Option<u64>)
        ensures
            r matches Some(u) ==> (cfg_lookup(self@, field@) matches Some(v) && v matches
                ConfigValue::Unsigned(w) && w == u),
            r is None ==> !(cfg_lookup(self@, field@) matches Some(v) && v is Unsigned),
    {
        match self.value(field) {
            Some(ConfigValue::Unsigned(u)) => Some(*u),
            _ => None,
        }
    }

    /// The secret resolved for `field`, where it resolved to one.
    pub fn secret_value(&self, field: &str) -> (r: Option<&SecretString>)
        ensures
            r matches Some(t) ==> (cfg_lookup(self@, field@) matches Some(v) && v matches
                ConfigValue::SecretText(u) && u@ == t@),
            r is None ==> !(cfg_lookup(self@, field@) matches Some(v) && v is SecretText),
    {
        match self.value(field) {
            Some(ConfigValue::SecretText(t)) => Some(t),
            _ => None,
        }
    }

    /// Did `field` resolve to nothing (optional, absent, no default)?
    pub fn is_absent(&self, field: &str) -> (r: bool)
        ensures
            r == (cfg_lookup(self@, field@) matches Some(v) && v is Absent),
    {
        match self.value(field) {
            Some(ConfigValue::Absent) => true,
            _ => false,
        }
    }
}

/// A small builder for a schema.
pub struct Builder {
    fields: Vec<FieldSpec>,
}

impl View for Builder {
    type V = Seq<FieldSpec>;

    closed spec fn view(&self) -> Seq<FieldSpec> {
        self.fields@
    }
}

/// Start an empty schema.
pub fn build() -> (r: Builder)
    ensures
        r@ =~= Seq::<FieldSpec>::empty(),
{
    Builder { fields: Vec::new() }
}

impl Builder {
    /// Declare one more field.
    pub fn field(self, spec: FieldSpec) -> (r: Builder)
        ensures
            r@ == self@.push(spec),
    {
        let mut fields = self.fields;
        fields.push(spec);
        Builder { fields }
    }

    /// The declared schema, in declaration order.
    pub fn finish(self) -> (r: Vec<FieldSpec>)
        ensures
            r@ == self@,
    {
        self.fields
    }
}

/// The variable addressing field `f` under `pfx`.
pub open spec fn field_var(pfx: Seq<char>, f: FieldSpec) -> Seq<char> {
    var_of(pfx, f.field@)
}

/// The variable holding the key-file path of the encrypted field `f`.
pub open spec fn key_var(pfx: Seq<char>, f: FieldSpec) -> Seq<char> {
    var_of(pfx, f.key_file_field->Some_0@)
}

/// Obtaining the raw string of `f` succeeds: the field is plain, or absent,
/// or its key is cached and decryption goes through.
pub open spec fn field_raw_ok(
    e: Seq<(Seq<char>, Seq<char>)>,
    c: Seq<(Seq<char>, Seq<char>)>,
    pfx: Seq<char>,
    f: FieldSpec,
) -> bool {
    match f.key_file_field {
        None => true,
        Some(_) => match lookup(e, field_var(pfx, f)) {
            None => true,
            Some(v) => match lookup(c, key_var(pfx, f)) {
                None => false,
                Some(tok) => decrypt_model(v, field_var(pfx, f), tok) is Ok,
            },
        },
    }
}

/// The raw string of `f`: the variable's value, decrypted first where the
/// field is encrypted. Meaningful where [`field_raw_ok`] holds.
pub open spec fn field_raw(
    e: Seq<(Seq<char>, Seq<char>)>,
    c: Seq<(Seq<char>, Seq<char>)>,
    pfx: Seq<char>,
    f: FieldSpec,
) -> Option<Seq<char>> {
    match f.key_file_field {
        None => lookup(e, field_var(pfx, f)),
        Some(_) => match lookup(e, field_var(pfx, f)) {
            None => None,
            Some(v) => match lookup(c, key_var(pfx, f)) {
                None => None,
                Some(tok) => match decrypt_model(v, field_var(pfx, f), tok) {
                    Ok(pt) => Some(pt),
                    Err(_) => None,
                },
            },
        },
    }
}

/// The string `f` is resolved from: the raw value where present, else the
/// default where present.
pub open spec fn field_chosen(
    e: Seq<(Seq<char>, Seq<char>)>,
    c: Seq<(Seq<char>, Seq<char>)>,
    pfx: Seq<char>,
    f: FieldSpec,
) -> Option<Seq<char>> {
    match field_raw(e, c, pfx, f) {
        Some(s) => Some(s),
        None => match f.default_literal {
            Some(d) => Some(d@),
            None => None,
        },
    }
}

/// The chosen string parses under `kind`.
pub open spec fn parse_ok(kind: FieldKind, s: Seq<char>) -> bool {
    match kind {
        FieldKind::Text => true,
        FieldKind::Unsigned => is_u64_string(s),
        FieldKind::SecretText => true,
    }
}

/// `v` is the value that `chosen` resolves to under `kind`.
pub open spec fn value_model(kind: FieldKind, chosen: Option<Seq<char>>, v: ConfigValue) -> bool {
    match chosen {
        None => v is Absent,
        Some(s) => match kind {
            FieldKind::Text => v matches ConfigValue::Text(t) && t@ == s,
            FieldKind::Unsigned => v matches ConfigValue::Unsigned(u) && u == dec_val(s),
            FieldKind::SecretText => v matches ConfigValue::SecretText(t) && t@ == s,
        },
    }
}

/// Field `f` is encrypted, present, its key is not cached, and the key-file
/// variable is set: the pass must stop and ask for the file.
pub open spec fn field_needs_file(
    e: Seq<(Seq<char>, Seq<char>)>,
    c: Seq<(Seq<char>, Seq<char>)>,
    pfx: Seq<char>,
    f: FieldSpec,
) -> bool {
    &&& f.key_file_field is Some
    &&& lookup(e, field_var(pfx, f)) is Some
    &&& lookup(c, key_var(pfx, f)) is None
    &&& lookup(e, key_var(pfx, f)) is Some
}

/// Field `f` is encrypted and present, but the variable naming its key file
/// is not set.
pub open spec fn field_missing_key_var(
    e: Seq<(Seq<char>, Seq<char>)>,
    c: Seq<(Seq<char>, Seq<char>)>,
    pfx: Seq<char>,
    f: FieldSpec,
) -> bool {
    &&& f.key_file_field is Some
    &&& lookup(e, field_var(pfx, f)) is Some
    &&& lookup(c, key_var(pfx, f)) is None
    &&& lookup(e, key_var(pfx, f)) is None
}

/// Field `f` is encrypted and present, its key is cached, and decryption
/// fails.
pub open spec fn field_decrypt_failed(
    e: Seq<(Seq<char>, Seq<char>)>,
    c: Seq<(Seq<char>, Seq<char>)>,
    pfx: Seq<char>,
    f: FieldSpec,
) -> bool {
    &&& f.key_file_field is Some
    &&& lookup(e, field_var(pfx, f)) is Some
    &&& lookup(c, key_var(pfx, f)) is Some
    &&& decrypt_model(
        lookup(e, field_var(pfx, f)).unwrap(),
        field_var(pfx, f),
        lookup(c, key_var(pfx, f)).unwrap(),
    ) is Err
}

/// The kind of the decryption failure of [`field_decrypt_failed`].
pub open spec fn field_decrypt_kind(
    e: Seq<(Seq<char>, Seq<char>)>,
    c: Seq<(Seq<char>, Seq<char>)>,
    pfx: Seq<char>,
    f: FieldSpec,
) -> crypto::ErrorKind {
    match decrypt_model(
        lookup(e, field_var(pfx, f)).unwrap(),
        field_var(pfx, f),
        lookup(c, key_var(pfx, f)).unwrap(),
    ) {
        Ok(_) => crypto::ErrorKind::Crypto,
        Err(k) => k,
    }
}

/// Field `f` resolves to a value: its raw string is obtainable, absence is
/// allowed where nothing was chosen, and what was chosen parses.
pub open spec fn field_ok(
    e: Seq<(Seq<char>, Seq<char>)>,
    c: Seq<(Seq<char>, Seq<char>)>,
    pfx: Seq<char>,
    f: FieldSpec,
) -> bool {
    &&& field_raw_ok(e, c, pfx, f)
    &&& match field_chosen(e, c, pfx, f) {
        None => f.optional,
        Some(s) => parse_ok(f.kind, s),
    }
}

/// Every field before `i` resolves to a value.
pub open spec fn earlier_fields_ok(
    e: Seq<(Seq<char>, Seq<char>)>,
    c: Seq<(Seq<char>, Seq<char>)>,
    pfx: Seq<char>,
    schema: Seq<FieldSpec>,
    i: int,
) -> bool {
    forall|j: int| 0 <= j < i ==> field_ok(e, c, pfx, #[trigger] schema[j])
}

/// The variables purged at the end of a pass over `s`, in schema order.
pub open spec fn purge_list(pfx: Seq<char>, s: Seq<FieldSpec>) -> Seq<Seq<char>>
    decreases s.len(),
{
    if s.len() == 0 {
        Seq::empty()
    } else {
        (if s[0].sensitive {
            seq![var_of(pfx, s[0].field@)]
        } else {
            Seq::empty()
        }) + purge_list(pfx, s.drop_first())
    }
}

/// The environment after the pass purged the sensitive fields of `s`.
pub open spec fn purged_env(
    e: Seq<(Seq<char>, Seq<char>)>,
    pfx: Seq<char>,
    s: Seq<FieldSpec>,
) -> Seq<(Seq<char>, Seq<char>)>
    decreases s.len(),
{
    if s.len() == 0 {
        e
    } else {
        purged_env(
            if s[0].sensitive {
                without(e, var_of(pfx, s[0].field@))
            } else {
                e
            },
            pfx,
            s.drop_first(),
        )
    }
}

/// Purging leaves exactly the sensitive fields' variables unreadable and
/// every other variable as it was.
pub proof fn lemma_purged_env_lookup(
    e: Seq<(Seq<char>, Seq<char>)>,
    pfx: Seq<char>,
    s: Seq<FieldSpec>,
    name: Seq<char>,
)
    ensures
        (exists|i: int|
            0 <= i < s.len() && (#[trigger] s[i]).sensitive && var_of(pfx, s[i].field@) == name)
            ==> lookup(purged_env(e, pfx, s), name) is None,
        !(exists|i: int|
            0 <= i < s.len() && (#[trigger] s[i]).sensitive && var_of(pfx, s[i].field@) == name)
            ==> lookup(purged_env(e, pfx, s), name) == lookup(e, name),
    decreases s.len(),
{
    if s.len() > 0 {
        let head_hits = s[0].sensitive && var_of(pfx, s[0].field@) == name;
        let e2 = if s[0].sensitive {
            without(e, var_of(pfx, s[0].field@))
        } else {
            e
        };
        lemma_purged_env_lookup(e2, pfx, s.drop_first(), name);
        let rest_hits = exists|i: int|
            0 <= i < s.drop_first().len() && (#[trigger] s.drop_first()[i]).sensitive && var_of(
                pfx,
                s.drop_first()[i].field@,
            ) == name;
        if exists|i: int|
            0 <= i < s.len() && (#[trigger] s[i]).sensitive && var_of(pfx, s[i].field@) == name {
            let i = choose|i: int|
                0 <= i < s.len() && (#[trigger] s[i]).sensitive && var_of(pfx, s[i].field@)
                    == name;
            if i > 0 {
                assert(s.drop_first()[i - 1] == s[i]);
                assert(rest_hits);
            } else {
                if !rest_hits {
                    crate::env::lemma_without_removes(e, name);
                }
            }
        } else {
            assert(!head_hits);
            if rest_hits {
                let i = choose|i: int|
                    0 <= i < s.drop_first().len() && (#[trigger] s.drop_first()[i]).sensitive
                        && var_of(pfx, s.drop_first()[i].field@) == name;
                assert(s[i + 1] == s.drop_first()[i]);
            }
            if s[0].sensitive {
                crate::env::lemma_without_keeps_others(e, var_of(pfx, s[0].field@), name);
            }
        }
    }
}

/// The outcome of one resolution pass.
pub enum PassOutcome {
    /// Every field resolved; sensitive variables were purged from the
    /// environment view, and the purged names are recorded for the caller to
    /// mirror.
    Finished(ResolvedConfig),
    /// An encrypted field needs a key that is not cached: read the file at
    /// `path`, load it into the cache under `key`, and run the pass again.
    NeedKeyFile { key: Key, path: String },
    /// The first failure, in schema order.
    Failed(Error),
}

/// Resolve the whole schema against `env` in one pass.
///
/// Fields are resolved independently, in schema order, and the pass stops at
/// the first failure. The environment view is only changed on success, and
/// then only by the purge of sensitive fields' variables.
#[verifier::rlimit(50)]
pub fn resolve_pass(
    prefix: &str,
    schema: &Vec<FieldSpec>,
    env: &mut EnvMap,
    cache: &KeyCache,
) -> (r: PassOutcome)
    ensures
        r matches PassOutcome::NeedKeyFile { key, path } ==> (final (env)@ == old(env)@ && exists|
            i: int,
        |
            {
                &&& 0 <= i < schema@.len()
                &&& #[trigger] earlier_fields_ok(
                    old(env)@,
                    cache@,
                    shouty_snake_of(prefix@),
                    schema@,
                    i,
                )
                &&& field_needs_file(old(env)@, cache@, shouty_snake_of(prefix@), schema@[i])
                &&& key.spec_name() == key_var(shouty_snake_of(prefix@), schema@[i])
                &&& lookup(old(env)@, key.spec_name()) == Some(path@)
            }),
        r matches PassOutcome::Failed(e) ==> (final (env)@ == old(env)@ && exists|i: int|
            {
                &&& 0 <= i < schema@.len()
                &&& #[trigger] earlier_fields_ok(
                    old(env)@,
                    cache@,
                    shouty_snake_of(prefix@),
                    schema@,
                    i,
                )
                &&& {
                    ||| (field_missing_key_var(old(env)@, cache@, shouty_snake_of(prefix@), schema@[i])
                        && e.is_missing(key_var(shouty_snake_of(prefix@), schema@[i])))
                    ||| (field_decrypt_failed(old(env)@, cache@, shouty_snake_of(prefix@), schema@[i])
                        && e.is_crypto(
                        field_decrypt_kind(
                            old(env)@,
                            cache@,
                            shouty_snake_of(prefix@),
                            schema@[i],
                        ),
                    ))
                    ||| (field_raw_ok(old(env)@, cache@, shouty_snake_of(prefix@), schema@[i])
                        && field_chosen(
                        old(env)@,
                        cache@,
                        shouty_snake_of(prefix@),
                        schema@[i],
                    ) is None && !schema@[i].optional && e.is_missing(
                        field_var(shouty_snake_of(prefix@), schema@[i]),
                    ))
                    ||| (field_raw_ok(old(env)@, cache@, shouty_snake_of(prefix@), schema@[i]) && (
                    field_chosen(
                        old(env)@,
                        cache@,
                        shouty_snake_of(prefix@),
                        schema@[i],
                    ) matches Some(s) && !parse_ok(schema@[i].kind, s) && e.is_parse_failure(
                        field_var(shouty_snake_of(prefix@), schema@[i]),
                    )))
                }
            }),
        r matches PassOutcome::Finished(cfg) ==> {
            &&& cfg@.len() == schema@.len()
            &&& forall|i: int|
                0 <= i < schema@.len() ==> field_ok(
                    old(env)@,
                    cache@,
                    shouty_snake_of(prefix@),
                    #[trigger] schema@[i],
                )
            &&& forall|i: int| 0 <= i < schema@.len() ==> (#[trigger] cfg@[i]).0 == schema@[i].field@
            &&& forall|i: int|
                0 <= i < schema@.len() ==> value_model(
                    schema@[i].kind,
                    field_chosen(old(env)@, cache@, shouty_snake_of(prefix@), #[trigger] schema@[i]),
                    cfg@[i].1,
                )
            &&& final (env)@ == purged_env(old(env)@, shouty_snake_of(prefix@), schema@)
            &&& forall|j: int|
                0 <= j < schema@.len() && (#[trigger] schema@[j]).sensitive ==> lookup(
                    final (env)@,
                    field_var(shouty_snake_of(prefix@), schema@[j]),
                ) is None
            &&& cfg.spec_purged() == purge_list(shouty_snake_of(prefix@), schema@)
        },
{
    let pfx = shouty_snake_case(prefix);
    let n = schema.len();
    let mut built: Vec<(String, ConfigValue)> = Vec::new();
    let mut i: usize = 0;
    while i < n
        invariant
            n == schema@.len(),
            i <= n,
            env@ == old(env)@,
            pfx@ == shouty_snake_of(prefix@),
            built@.len() == i,
            forall|j: int| 0 <= j < i ==> field_ok(env@, cache@, pfx@, #[trigger] schema@[j]),
            forall|j: int| 0 <= j < i ==> (#[trigger] built@[j]).0@ == schema@[j].field@,
            forall|j: int|
                0 <= j < i ==> value_model(
                    schema@[j].kind,
                    field_chosen(env@, cache@, pfx@, #[trigger] schema@[j]),
                    built@[j].1,
                ),
        decreases n - i,
    {
        let f = &schema[i];
        let var = env_var_name(pfx.as_str(), f.field.as_str());
        let raw_owned: Option<String>;
        match &f.key_file_field {
            None => {
                raw_owned = match env.get(var.as_str()) {
                    Some(v) => Some(v.clone()),
                    None => None,
                };
            },
            Some(kff) => {
                let kv = env_var_name(pfx.as_str(), kff.as_str());
                let key_spec = Key::File(kv);
                match fetch_encrypted_field(env, cache, var.as_str(), &key_spec) {
                    Ok(Fetched::Absent) => {
                        raw_owned = None;
                    },
                    Ok(Fetched::Plaintext(s)) => {
                        raw_owned = Some(s);
                    },
                    Ok(Fetched::NeedKeyFile { path }) => {
                        proof {
                            assert(earlier_fields_ok(old(env)@, cache@, pfx@, schema@, i as int));
                            assert(field_needs_file(old(env)@, cache@, pfx@, schema@[i as int]));
                        }
                        return PassOutcome::NeedKeyFile { key: key_spec, path };
                    },
                    Err(e) => {
                        proof {
                            assert(earlier_fields_ok(old(env)@, cache@, pfx@, schema@, i as int));
                        }
                        return PassOutcome::Failed(e);
                    },
                }
            },
        }
        proof {
            assert(field_raw_ok(env@, cache@, pfx@, schema@[i as int]));
            assert(match raw_owned {
                Some(s) => field_raw(env@, cache@, pfx@, schema@[i as int]) == Some(s@),
                None => field_raw(env@, cache@, pfx@, schema@[i as int]) is None,
            });
        }
        let raw_ref: Option<&str> = match &raw_owned {
            Some(s) => Some(s.as_str()),
            None => None,
        };
        let default_ref: Option<&str> = match &f.default_literal {
            Some(d) => Some(d.as_str()),
            None => None,
        };
        proof {
            assert(match crate::config::chosen(raw_ref, default_ref) {
                Some(s) => field_chosen(env@, cache@, pfx@, schema@[i as int]) == Some(s@),
                None => field_chosen(env@, cache@, pfx@, schema@[i as int]) is None,
            });
        }
        let cv: ConfigValue = match f.kind {
            FieldKind::Text => {
                if f.optional {
                    match determine_optional_value(var.as_str(), parse_text, raw_ref, default_ref) {
                        Ok(None) => ConfigValue::Absent,
                        Ok(Some(t)) => ConfigValue::Text(t),
                        Err(e) => {
                            // A text parser never fails, so this arm is unreachable.
                            proof {
                                assert(false);
                            }
                            return PassOutcome::Failed(e);
                        },
                    }
                } else {
                    match determine_value(var.as_str(), parse_text, raw_ref, default_ref) {
                        Ok(t) => ConfigValue::Text(t),
                        Err(e) => {
                            proof {
                                assert(earlier_fields_ok(
                                    old(env)@,
                                    cache@,
                                    pfx@,
                                    schema@,
                                    i as int,
                                ));
                            }
                            return PassOutcome::Failed(e);
                        },
                    }
                }
            },
            FieldKind::Unsigned => {
                if f.optional {
                    match determine_optional_value(var.as_str(), parse_u64, raw_ref, default_ref) {
                        Ok(None) => ConfigValue::Absent,
                        Ok(Some(u)) => ConfigValue::Unsigned(u),
                        Err(e) => {
                            proof {
                                assert(earlier_fields_ok(
                                    old(env)@,
                                    cache@,
                                    pfx@,
                                    schema@,
                                    i as int,
                                ));
                            }
                            return PassOutcome::Failed(e);
                        },
                    }
                } else {
                    match determine_value(var.as_str(), parse_u64, raw_ref, default_ref) {
                        Ok(u) => ConfigValue::Unsigned(u),
                        Err(e) => {
                            proof {
                                assert(earlier_fields_ok(
                                    old(env)@,
                                    cache@,
                                    pfx@,
                                    schema@,
                                    i as int,
                                ));
                            }
                            return PassOutcome::Failed(e);
                        },
                    }
                }
            },
            FieldKind::SecretText => {
                if f.optional {
                    match determine_optional_value(
                        var.as_str(),
                        parse_secret,
                        raw_ref,
                        default_ref,
                    ) {
                        Ok(None) => ConfigValue::Absent,
                        Ok(Some(t)) => ConfigValue::SecretText(t),
                        Err(e) => {
                            // A secret parser never fails, so this arm is unreachable.
                            proof {
                                assert(false);
                            }
                            return PassOutcome::Failed(e);
                        },
                    }
                } else {
                    match determine_value(var.as_str(), parse_secret, raw_ref, default_ref) {
                        Ok(t) => ConfigValue::SecretText(t),
                        Err(e) => {
                            proof {
                                assert(earlier_fields_ok(
                                    old(env)@,
                                    cache@,
                                    pfx@,
                                    schema@,
                                    i as int,
                                ));
                            }
                            return PassOutcome::Failed(e);
                        },
                    }
                }
            },
        };
        let name = f.field.clone();
        built.push((name, cv));
        i += 1;
    }
    // Every field resolved: purge the sensitive fields' variables.
    let ghost resolved_env = env@;
    let mut purged: Vec<String> = Vec::new();
    let mut k: usize = 0;
    proof {
        assert(schema@.skip(0) =~= schema@);
        assert(purged@.map_values(|s: String| s@) =~= Seq::<Seq<char>>::empty());
    }
    while k < n
        invariant
            n == schema@.len(),
            k <= n,
            pfx@ == shouty_snake_of(prefix@),
            purged_env(resolved_env, pfx@, schema@) == purged_env(env@, pfx@, schema@.skip(k as int)),
            purge_list(pfx@, schema@) == purged@.map_values(|s: String| s@) + purge_list(
                pfx@,
                schema@.skip(k as int),
            ),
        decreases n - k,
    {
        proof {
            assert(schema@.skip(k as int)[0] == schema@[k as int]);
            assert(schema@.skip(k as int).drop_first() =~= schema@.skip(k + 1));
        }
        let ghost purged_pre = purged@;
        if schema[k].sensitive {
            let var = env_var_name(pfx.as_str(), schema[k].field.as_str());
            env.remove(var.as_str());
            purged.push(var);
            proof {
                assert(purged@.map_values(|s: String| s@) =~= purged_pre.map_values(
                    |s: String| s@,
                ).push(var_of(pfx@, schema@[k as int].field@)));
                assert(purged_pre.map_values(|s: String| s@) + (seq![
                    var_of(pfx@, schema@[k as int].field@),
                ] + purge_list(pfx@, schema@.skip(k + 1))) =~= purged@.map_values(|s: String| s@)
                    + purge_list(pfx@, schema@.skip(k + 1)));
            }
        } else {
            proof {
                assert(Seq::<Seq<char>>::empty() + purge_list(pfx@, schema@.skip(k + 1))
                    =~= purge_list(pfx@, schema@.skip(k + 1)));
            }
        }
        k += 1;
    }
    proof {
        assert(schema@.skip(n as int) =~= Seq::<FieldSpec>::empty());
        assert(purge_list(pfx@, schema@) =~= purged@.map_values(|s: String| s@));
        assert forall|j: int|
            0 <= j < schema@.len() && (#[trigger] schema@[j]).sensitive implies lookup(
            env@,
            field_var(pfx@, schema@[j]),
        ) is None by {
            lemma_purged_env_lookup(resolved_env, pfx@, schema@, field_var(pfx@, schema@[j]));
        }
    }
    PassOutcome::Finished(ResolvedConfig { fields: built, purged })
}

} // verus!
