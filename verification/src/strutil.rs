//! Small verified string helpers shared by the other modules.

use vstd::prelude::*;
use vstd::string::*;
use vstd::utf8::*;

verus! {

/// The whitespace characters that are trimmed from the end of a key file.
pub open spec fn is_config_ws(c: char) -> bool {
    c == ' ' || c == '\t' || c == '\n' || c == '\r'
}

/// `s` with every trailing whitespace character removed.
pub open spec fn trimmed_end(s: Seq<char>) -> Seq<char>
    decreases s.len(),
{
    if s.len() == 0 {
        s
    } else if is_config_ws(s.last()) {
        trimmed_end(s.drop_last())
    } else {
        s
    }
}

/// Character-exact string equality.
pub fn str_eq(a: &str, b: &str) -> (r: bool)
    ensures
        r == (a@ == b@),
{
    let av = a.as_bytes_vec();
    let bv = b.as_bytes_vec();
    proof {
        encode_utf8_decode_utf8(a@);
        encode_utf8_decode_utf8(b@);
    }
    if av.len() != bv.len() {
        return false;
    }
    let mut i: usize = 0;
    while i < av.len()
        invariant
            av@ == encode_utf8(a@),
            bv@ == encode_utf8(b@),
            av@.len() == bv@.len(),
            i <= av@.len(),
            forall|j: int| 0 <= j < i ==> av@[j] == bv@[j],
        decreases av@.len() - i,
    {
        if av[i] != bv[i] {
            return false;
        }
        i += 1;
    }
    proof {
        assert(av@ =~= bv@);
    }
    true
}

/// Does `s` start with `prefix`, character for character?
pub fn str_starts_with(s: &str, prefix: &str) -> (r: bool)
    ensures
        r == (s@.len() >= prefix@.len() && s@.take(prefix@.len() as int) == prefix@),
{
    let n = s.unicode_len();
    let p = prefix.unicode_len();
    if n < p {
        return false;
    }
    let head = s.substring_char(0, p);
    str_eq(head, prefix)
}

/// The substring of `s` that follows its first `from` characters.
pub fn str_skip(s: &str, from: usize) -> (r: String)
    requires
        from <= s@.len(),
    ensures
        r@ == s@.skip(from as int),
{
    let n = s.unicode_len();
    let tail = s.substring_char(from, n);
    assert(tail@ =~= s@.skip(from as int));
    tail.to_owned()
}

/// `s` with trailing spaces, tabs and line ends removed, as an owned string.
pub fn trim_end_ws(s: &str) -> (r: String)
    ensures
        r@ == trimmed_end(s@),
{
    let n = s.unicode_len();
    let mut end: usize = n;
    proof {
        assert(s@.take(n as int) =~= s@);
    }
    loop
        invariant
            end <= n,
            n == s@.len(),
            trimmed_end(s@) == trimmed_end(s@.take(end as int)),
        ensures
            end <= s@.len(),
            trimmed_end(s@) == s@.take(end as int),
        decreases end,
    {
        proof {
            assert(s@.take(end as int).len() == end);
        }
        if end == 0 {
            proof {
                assert(trimmed_end(s@.take(0)) =~= s@.take(0));
            }
            break;
        }
        let c = s.get_char(end - 1);
        proof {
            assert(s@.take(end as int).last() == s@[end - 1]);
        }
        if c == ' ' || c == '\t' || c == '\n' || c == '\r' {
            proof {
                assert(s@.take(end as int).drop_last() =~= s@.take(end - 1));
            }
            end = end - 1;
        } else {
            break;
        }
    }
    let t = s.substring_char(0, end);
    assert(t@ =~= s@.take(end as int));
    t.to_owned()
}

/// Relies on std's `String::from_utf8`: it succeeds exactly on valid UTF-8
/// and decodes those bytes.
#[verifier::external_body]
pub(crate) fn string_from_utf8(v: Vec<u8>) -> (r: Result<String, String>)
    ensures
        match r {
            Ok(s) => valid_utf8(v@) && s@ == decode_utf8(v@),
            Err(_) => !valid_utf8(v@),
        },
{
    String::from_utf8(v).map_err(|e| e.to_string())
}

/// The upper-case, underscore-separated rendering of an identifier.
pub uninterp spec fn shouty_snake_of(s: Seq<char>) -> Seq<char>;

/// Relies on heck's `to_shouty_snake_case`: the rendering depends on the
/// input characters alone.
#[verifier::external_body]
pub(crate) fn shouty_snake_case(s: &str) -> (r: String)
    ensures
        r@ == shouty_snake_of(s@),
{
    heck::ToShoutySnakeCase::to_shouty_snake_case(s)
}

/// `a`, `b` and `c` joined into one owned string.
pub fn concat3(a: &str, b: &str, c: &str) -> (r: String)
    ensures
        r@ == a@ + b@ + c@,
{
    let mut out = a.to_owned();
    out.append(b);
    out.append(c);
    assert(out@ =~= a@ + b@ + c@);
    out
}

} // verus!
