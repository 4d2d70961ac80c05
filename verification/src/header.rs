//! Header names and values as the HTTP client accepts them: which default
//! headers reach the client, and which response header values read as
//! text.

use vstd::prelude::*;
use vstd::utf8::*;
use crate::strmap::pair_views;
use crate::text::push_char;

verus! {

/// A byte of an HTTP token (RFC 9110 `tchar`): a letter, a digit, or one
/// of ``!#$%&'*+-.^_`|~``.
pub open spec fn token_byte(b: u8) -> bool {
    ||| (0x61 <= b <= 0x7a)
    ||| (0x41 <= b <= 0x5a)
    ||| (0x30 <= b <= 0x39)
    ||| b == 0x21 || b == 0x23 || b == 0x24 || b == 0x25 || b == 0x26 || b == 0x27
    ||| b == 0x2a || b == 0x2b || b == 0x2d || b == 0x2e
    ||| b == 0x5e || b == 0x5f || b == 0x60 || b == 0x7c || b == 0x7e
}

/// The bytes of an accepted header name: one to 65535 token bytes.
pub open spec fn header_name_ok(bs: Seq<u8>) -> bool {
    &&& 1 <= bs.len() <= 65535
    &&& forall|i: int| 0 <= i < bs.len() ==> token_byte(#[trigger] bs[i])
}

/// A byte allowed in a header value: a tab, or anything from space up
/// except DEL.
pub open spec fn header_value_byte(b: u8) -> bool {
    (b >= 32 && b != 127) || b == 9
}

/// The bytes of an accepted header value.
pub open spec fn header_value_ok(bs: Seq<u8>) -> bool {
    forall|i: int| 0 <= i < bs.len() ==> header_value_byte(#[trigger] bs[i])
}

/// A (name, value) pair the client accepts as a header.
pub open spec fn header_pair_ok(p: (Seq<char>, Seq<char>)) -> bool {
    header_name_ok(encode_utf8(p.0)) && header_value_ok(encode_utf8(p.1))
}

/// The pairs of `ps` the client accepts, in order.
pub open spec fn accepted_pairs(ps: Seq<(Seq<char>, Seq<char>)>) -> Seq<(Seq<char>, Seq<char>)>
    decreases ps.len(),
{
    if ps.len() == 0 {
        Seq::empty()
    } else if header_pair_ok(ps.last()) {
        accepted_pairs(ps.drop_last()).push(ps.last())
    } else {
        accepted_pairs(ps.drop_last())
    }
}

/// Whether `HeaderName::from_bytes` accepts the bytes of `name`. Per the
/// source of `http` (which `reqwest::header` re-exports), it does exactly
/// when they are one to 65535 token bytes (upper-case letters are
/// accepted and lowered).
#[verifier::external_body]
fn header_name_accepted(name: &str) -> (ok: bool)
    ensures
        ok == header_name_ok(encode_utf8(name@)),
{
    reqwest::header::HeaderName::from_bytes(name.as_bytes()).is_ok()
}

/// Whether `HeaderValue::from_str` accepts `value`. Per the source of
/// `http`, it does exactly when every byte is a tab or at least a space
/// and not DEL.
#[verifier::external_body]
fn header_value_accepted(value: &str) -> (ok: bool)
    ensures
        ok == header_value_ok(encode_utf8(value@)),
{
    reqwest::header::HeaderValue::from_str(value).is_ok()
}

/// The pairs of `pairs` whose name and value the client accepts as a
/// header, in order; the others are skipped.
pub fn accepted_headers(pairs: &Vec<(String, String)>) -> (out: Vec<(String, String)>)
    ensures
        pair_views(out@) == accepted_pairs(pair_views(pairs@)),
{
    let mut out: Vec<(String, String)> = Vec::new();
    let mut i: usize = 0;
    while i < pairs.len()
        invariant
            i <= pairs.len(),
            pair_views(out@) == accepted_pairs(pair_views(pairs@).take(i as int)),
        decreases pairs.len() - i,
    {
        let name = &pairs[i].0;
        let value = &pairs[i].1;
        let keep = header_name_accepted(name.as_str()) && header_value_accepted(value.as_str());
        let ghost before = pair_views(pairs@).take(i as int);
        let ghost after = pair_views(pairs@).take(i + 1);
        proof {
            assert(after.drop_last() =~= before);
            assert(after.last() == (name@, value@));
        }
        if keep {
            out.push((name.clone(), value.clone()));
            assert(pair_views(out@) =~= accepted_pairs(after));
        }
        i = i + 1;
    }
    assert(pair_views(pairs@).take(pairs.len() as int) =~= pair_views(pairs@));
    out
}

/// A byte of header text: visible ASCII or a tab.
pub open spec fn visible_ascii(b: u8) -> bool {
    (32 <= b < 127) || b == 9
}

/// The characters of ASCII bytes.
pub open spec fn ascii_chars(bs: Seq<u8>) -> Seq<char> {
    bs.map_values(|b: u8| b as char)
}

/// A header value as text: the value itself when every byte is visible
/// ASCII or a tab, else none (as `HeaderValue::to_str` reads it).
pub fn header_text(bytes: &[u8]) -> (r: Option<String>)
    ensures
        r is Some <==> (forall|i: int| 0 <= i < bytes@.len() ==> visible_ascii(#[trigger] bytes@[i])),
        r matches Some(s) ==> s@ == ascii_chars(bytes@),
{
    let mut s = String::new();
    let mut i: usize = 0;
    while i < bytes.len()
        invariant
            i <= bytes@.len(),
            forall|j: int| 0 <= j < i ==> visible_ascii(#[trigger] bytes@[j]),
            s@ == ascii_chars(bytes@.take(i as int)),
        decreases bytes.len() - i,
    {
        let b = bytes[i];
        if !((32 <= b && b < 127) || b == 9) {
            return None;
        }
        push_char(&mut s, b as char);
        assert(ascii_chars(bytes@.take(i + 1)) =~= ascii_chars(bytes@.take(i as int)).push(b as char));
        i = i + 1;
    }
    assert(bytes@.take(bytes@.len() as int) =~= bytes@);
    Some(s)
}

} // verus!
