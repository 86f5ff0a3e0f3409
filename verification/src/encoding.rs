//! Base64 encoding (RFC 4648) as a specification: the standard alphabet with
//! `=` padding, and the URL-safe alphabet without padding.
use vstd::prelude::*;

verus! {

/// The Base64 digit for a six-bit value `v < 64`; the URL-safe alphabet uses
/// `-` and `_` for the last two digits.
pub open spec fn base64_digit(v: nat, url_safe: bool) -> char {
    if v < 26 {
        ((65 + v) as u8) as char
    } else if v < 52 {
        ((97 + (v - 26)) as u8) as char
    } else if v < 62 {
        ((48 + (v - 52)) as u8) as char
    } else if v == 62 {
        if url_safe {
            '-'
        } else {
            '+'
        }
    } else if url_safe {
        '_'
    } else {
        '/'
    }
}

/// The Base64 encoding of `bytes`: each group of three bytes as four digits;
/// a final group of one or two bytes as two or three digits, followed by `=`
/// up to four characters when `pad` is set.
pub open spec fn base64_encode(bytes: Seq<u8>, url_safe: bool, pad: bool) -> Seq<char>
    decreases bytes.len(),
{
    if bytes.len() == 0 {
        Seq::empty()
    } else if bytes.len() == 1 {
        let b0 = bytes[0] as nat;
        seq![base64_digit(b0 / 4, url_safe), base64_digit((b0 % 4) * 16, url_safe)] + if pad {
            seq!['=', '=']
        } else {
            Seq::empty()
        }
    } else if bytes.len() == 2 {
        let b0 = bytes[0] as nat;
        let b1 = bytes[1] as nat;
        seq![
            base64_digit(b0 / 4, url_safe),
            base64_digit((b0 % 4) * 16 + b1 / 16, url_safe),
            base64_digit((b1 % 16) * 4, url_safe),
        ] + if pad {
            seq!['=']
        } else {
            Seq::empty()
        }
    } else {
        let b0 = bytes[0] as nat;
        let b1 = bytes[1] as nat;
        let b2 = bytes[2] as nat;
        seq![
            base64_digit(b0 / 4, url_safe),
            base64_digit((b0 % 4) * 16 + b1 / 16, url_safe),
            base64_digit((b1 % 16) * 4 + b2 / 64, url_safe),
            base64_digit(b2 % 64, url_safe),
        ] + base64_encode(bytes.subrange(3, bytes.len() as int), url_safe, pad)
    }
}

/// A character of the standard Base64 alphabet or its padding.
pub open spec fn base64_char(c: char) -> bool {
    ('A' <= c && c <= 'Z') || ('a' <= c && c <= 'z') || ('0' <= c && c <= '9') || c == '+' || c
        == '/' || c == '='
}

/// Standard Base64 text is made of the Base64 alphabet and padding only.
pub proof fn lemma_base64_standard_chars(bytes: Seq<u8>)
    ensures
        forall|i: int|
            0 <= i < base64_encode(bytes, false, true).len() ==> base64_char(
                #[trigger] base64_encode(bytes, false, true)[i],
            ),
    decreases bytes.len(),
{
    let e = base64_encode(bytes, false, true);
    if bytes.len() >= 3 {
        let rest = bytes.subrange(3, bytes.len() as int);
        lemma_base64_standard_chars(rest);
        let r = base64_encode(rest, false, true);
        assert forall|i: int| 0 <= i < e.len() implies base64_char(#[trigger] e[i]) by {
            if i >= 4 {
                assert(e[i] == r[i - 4]);
            }
        }
    }
}

} // verus!
