//! Percent-decoding of topic components.
//!
//! A component of a topic address arrives percent-encoded: a `%` followed by
//! two hexadecimal digits stands for one byte, and every other byte stands for
//! itself (a `%` not followed by two hexadecimal digits is kept literally).
//! Decoding works on the component's UTF-8 bytes; the decoded bytes must form
//! valid UTF-8 again or the component is rejected.

use vstd::prelude::*;
use vstd::string::StrSliceExecFns;
use vstd::string::StringSliceAdditionalSpecFns;
use vstd::utf8::{decode_utf8, encode_utf8, valid_utf8};

verus! {

pub open spec fn is_hex_digit(b: u8) -> bool {
    (48 <= b && b <= 57) || (65 <= b && b <= 70) || (97 <= b && b <= 102)
}

/// The numeric value of a hexadecimal digit byte.
pub open spec fn hex_val(b: u8) -> int {
    if 48 <= b && b <= 57 {
        b - 48
    } else if 65 <= b && b <= 70 {
        b - 55
    } else {
        b - 87
    }
}

/// The percent-decoding of a byte sequence: `%` followed by two hexadecimal
/// digits yields the byte they denote; any other byte yields itself.
pub open spec fn percent_decode(s: Seq<u8>) -> Seq<u8>
    decreases s.len(),
{
    if s.len() == 0 {
        Seq::<u8>::empty()
    } else if s[0] == 37 && s.len() >= 3 && is_hex_digit(s[1]) && is_hex_digit(s[2]) {
        seq![(hex_val(s[1]) * 16 + hex_val(s[2])) as u8] + percent_decode(s.skip(3))
    } else {
        seq![s[0]] + percent_decode(s.drop_first())
    }
}

fn hex_digit_val(b: u8) -> (r: Option<u8>)
    ensures
        r is Some <==> is_hex_digit(b),
        r is Some ==> r->0 == hex_val(b),
{
    if 48 <= b && b <= 57 {
        Some(b - 48)
    } else if 65 <= b && b <= 70 {
        Some(b - 55)
    } else if 97 <= b && b <= 102 {
        Some(b - 87)
    } else {
        None
    }
}

/// Percent-decodes a byte sequence.
pub fn percent_decode_bytes(s: &Vec<u8>) -> (r: Vec<u8>)
    ensures
        r@ == percent_decode(s@),
{
    let len = s.len();
    let mut out: Vec<u8> = Vec::new();
    let mut i: usize = 0;
    assert(s@.skip(0) =~= s@);
    while i < len
        invariant
            len == s@.len(),
            i <= len,
            percent_decode(s@) == out@ + percent_decode(s@.skip(i as int)),
        decreases len - i,
    {
        let ghost pre = s@.skip(i as int);
        assert(pre[0] == s@[i as int]);
        if s[i] == 37 && len - i > 2 {
            assert(pre[1] == s@[i as int + 1]);
            assert(pre[2] == s@[i as int + 2]);
            let d1 = hex_digit_val(s[i + 1]);
            let d2 = hex_digit_val(s[i + 2]);
            match (d1, d2) {
                (Some(h1), Some(h2)) => {
                    out.push(h1 * 16 + h2);
                    assert(pre.skip(3) =~= s@.skip(i as int + 3));
                    i += 3;
                },
                _ => {
                    out.push(s[i]);
                    assert(pre.drop_first() =~= s@.skip(i as int + 1));
                    i += 1;
                },
            }
        } else {
            out.push(s[i]);
            assert(pre.drop_first() =~= s@.skip(i as int + 1));
            i += 1;
        }
    }
    assert(s@.skip(len as int) =~= Seq::<u8>::empty());
    assert(out@ =~= out@ + Seq::<u8>::empty());
    out
}

/// Relies on `String::from_utf8`: it succeeds exactly on valid UTF-8 and
/// returns the string those bytes encode.
#[verifier::external_body]
fn utf8_to_string(bytes: Vec<u8>) -> (r: Option<String>)
    ensures
        r is Some <==> valid_utf8(bytes@),
        r is Some ==> r->0@ == decode_utf8(bytes@),
{
    String::from_utf8(bytes).ok()
}

/// The percent-decoding of a component, read back as characters; `None` when
/// the decoded bytes are not valid UTF-8.
pub open spec fn decode_component(c: Seq<char>) -> Option<Seq<char>> {
    let b = percent_decode(encode_utf8(c));
    if valid_utf8(b) {
        Some(decode_utf8(b))
    } else {
        None
    }
}

/// Percent-decodes one topic component.
pub fn decode_component_str(s: &str) -> (r: Option<String>)
    ensures
        r is Some <==> decode_component(s@) is Some,
        r is Some ==> Some(r->0@) == decode_component(s@),
{
    let bytes = s.as_bytes_vec();
    assert(bytes@ == encode_utf8(s@));
    let decoded = percent_decode_bytes(&bytes);
    utf8_to_string(decoded)
}

} // verus!
