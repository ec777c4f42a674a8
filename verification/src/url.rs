//! Query-string encoding of search terms.

use vstd::prelude::*;
use vstd::utf8::encode_utf8;
use crate::text::{push_char, push_str, range_starts_with, starts_with, to_chars};

verus! {

/// Bytes that percent-encoding leaves as they are: ASCII letters, digits and `-._~`.
pub open spec fn is_unreserved(b: u8) -> bool {
    ||| (48 <= b <= 57)
    ||| (65 <= b <= 90)
    ||| (97 <= b <= 122)
    ||| b == 45
    ||| b == 46
    ||| b == 95
    ||| b == 126
}

/// Upper-case hexadecimal digit for `d < 16`.
pub open spec fn hex_digit(d: u8) -> char {
    if d < 10 {
        (48 + d) as char
    } else {
        (55 + d) as char
    }
}

/// Percent-encoding of a byte string: unreserved bytes stay, every other
/// byte `b` becomes `%` and two upper-case hex digits.
pub open spec fn percent_encode(bytes: Seq<u8>) -> Seq<char>
    decreases bytes.len(),
{
    if bytes.len() == 0 {
        seq![]
    } else {
        let b = bytes[0];
        (if is_unreserved(b) {
            seq![b as char]
        } else {
            seq!['%', hex_digit(b / 16), hex_digit(b % 16)]
        }) + percent_encode(bytes.drop_first())
    }
}

/// `urlencoding::encode`: percent-encodes the UTF-8 bytes of `data`; every
/// byte except ASCII letters, digits and `-`, `.`, `_`, `~` becomes `%XX`
/// with upper-case hex digits.
#[verifier::external_body]
fn percent_encoded(data: &str) -> (r: String)
    ensures
        r@ == percent_encode(encode_utf8(data@)),
{
    urlencoding::encode(data).into_owned()
}

/// `s` with every non-overlapping occurrence of `pat`, left to right,
/// replaced by `with` (`str::replace`).
pub open spec fn replace_all(s: Seq<char>, pat: Seq<char>, with: Seq<char>) -> Seq<char>
    decreases s.len(),
{
    if s.len() == 0 {
        seq![]
    } else if pat.len() > 0 && starts_with(s, pat) {
        with + replace_all(s.skip(pat.len() as int), pat, with)
    } else {
        seq![s[0]] + replace_all(s.drop_first(), pat, with)
    }
}

/// Replaces every `pat` in `s` by `with`.
pub fn replace(s: &str, pat: &str, with: &str) -> (r: String)
    ensures
        r@ == replace_all(s@, pat@, with@),
{
    let v = to_chars(s);
    let p = to_chars(pat);
    let n = v.len();
    let mut out = String::new();
    let mut i: usize = 0;
    assert(v@.subrange(0, n as int) =~= v@);
    while i < n
        invariant
            i <= n == v@.len(),
            v@ == s@,
            p@ == pat@,
            out@ + replace_all(v@.subrange(i as int, n as int), p@, with@) == replace_all(
                v@,
                p@,
                with@,
            ),
        decreases n - i,
    {
        let ghost sub = v@.subrange(i as int, n as int);
        if p.len() > 0 && range_starts_with(&v, i, n, &p) {
            push_str(&mut out, with);
            assert(sub.skip(p@.len() as int) =~= v@.subrange(i + p@.len(), n as int));
            i = i + p.len();
            assert(out@ + replace_all(v@.subrange(i as int, n as int), p@, with@) =~= replace_all(
                v@,
                p@,
                with@,
            ));
        } else {
            push_char(&mut out, v[i]);
            assert(sub.drop_first() =~= v@.subrange(i + 1, n as int));
            assert(seq![sub[0]] =~= seq![v@[i as int]]);
            i = i + 1;
            assert(out@ + replace_all(v@.subrange(i as int, n as int), p@, with@) =~= replace_all(
                v@,
                p@,
                with@,
            ));
        }
    }
    assert(replace_all(v@.subrange(n as int, n as int), p@, with@) =~= Seq::<char>::empty());
    assert(out@ =~= replace_all(v@, p@, with@));
    out
}

/// Search terms as they go into a query string: percent-encoded, with
/// encoded spaces (`%20`) written as `+`.
pub open spec fn query_encode(terms: Seq<char>) -> Seq<char> {
    replace_all(percent_encode(encode_utf8(terms)), "%20"@, "+"@)
}

/// Encodes search terms for a query string.
pub fn url_encode(input: &str) -> (r: String)
    ensures
        r@ == query_encode(input@),
{
    let e = percent_encoded(input);
    replace(e.as_str(), "%20", "+")
}

} // verus!
