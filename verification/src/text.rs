//! Text utilities: building `String` values from decoded bytes.
//!
//! SPIR-V embeds names as NUL-terminated UTF-8 byte runs; the decoder hands
//! the collected bytes to [`string_from_utf8`], the one place where the crate
//! relies on the standard library's UTF-8 decoding. Everything else here is
//! verified against vstd's UTF-8 model.

use vstd::prelude::*;
use vstd::utf8::{
    decode_utf8, encode_utf8, encode_utf8_decode_utf8, encode_utf8_valid_utf8, is_ascii_chars,
    is_ascii_chars_encode_utf8, valid_utf8,
};

verus! {

broadcast use {vstd::std_specs::vec::group_vec_axioms, vstd::seq::group_seq_axioms};

/// Relies on String::from_utf8: it returns the decoded string exactly when
/// the bytes are valid UTF-8, and an error otherwise.
#[verifier::external_body]
pub fn string_from_utf8(bytes: Vec<u8>) -> (r: Option<String>)
    ensures
        r is Some <==> valid_utf8(bytes@),
        r matches Some(s) ==> s@ == decode_utf8(bytes@),
{
    String::from_utf8(bytes).ok()
}

/// The character a byte below 128 stands for.
pub open spec fn ascii_char(b: u8) -> char {
    b as char
}

/// A run of bytes below 128 is valid UTF-8 and decodes to itself,
/// byte for character.
pub proof fn lemma_ascii_bytes_utf8(bytes: Seq<u8>)
    requires
        forall|i: int| 0 <= i < bytes.len() ==> bytes[i] < 128,
    ensures
        valid_utf8(bytes),
        decode_utf8(bytes) =~= bytes.map_values(|b: u8| ascii_char(b)),
{
    let chars = bytes.map_values(|b: u8| ascii_char(b));
    assert forall|i: int| 0 <= i < chars.len() implies '\0' <= #[trigger] chars[i] <= '\u{7f}' by {
        let b = bytes[i];
        assert(b < 128);
        assert(chars[i] == ascii_char(b));
        assert('\0' <= (b as char) <= '\u{7f}');
    }
    assert(is_ascii_chars(chars));
    is_ascii_chars_encode_utf8(chars);
    assert forall|i: int| 0 <= i < chars.len() implies encode_utf8(chars)[i] == bytes[i] by {
        let b = bytes[i];
        assert(chars[i] as u8 == encode_utf8(chars)[i]);
        assert((b as char) as u8 == b);
    }
    assert(encode_utf8(chars) =~= bytes);
    encode_utf8_valid_utf8(chars);
    encode_utf8_decode_utf8(chars);
}

/// The ASCII digits of `n` in base ten, most significant first.
pub open spec fn decimal_bytes(n: nat) -> Seq<u8>
    decreases n,
{
    if n < 10 {
        seq![(0x30 + n) as u8]
    } else {
        decimal_bytes(n / 10) + seq![(0x30 + n % 10) as u8]
    }
}

/// The decimal rendering of `n`, as characters.
pub open spec fn decimal_chars(n: nat) -> Seq<char> {
    decimal_bytes(n).map_values(|b: u8| ascii_char(b))
}

/// Builds the string whose characters are the given bytes, each below 128.
pub fn ascii_string(bytes: Vec<u8>) -> (r: String)
    requires
        forall|i: int| 0 <= i < bytes@.len() ==> bytes@[i] < 128,
    ensures
        r@ == bytes@.map_values(|b: u8| ascii_char(b)),
{
    proof {
        lemma_ascii_bytes_utf8(bytes@);
    }
    match string_from_utf8(bytes) {
        Some(s) => s,
        None => {
            proof {
                assert(false);
            }
            String::new()
        },
    }
}

/// Renders `n` in decimal.
pub fn u64_to_string(n: u64) -> (r: String)
    ensures
        r@ == decimal_chars(n as nat),
{
    let mut rev_digits: Vec<u8> = Vec::new();
    rev_digits.push((n % 10) as u8 + 0x30);
    let mut m: u64 = n / 10;
    while m != 0
        invariant
            rev_digits@.len() >= 1,
            forall|i: int| 0 <= i < rev_digits@.len() ==> rev_digits@[i] < 128,
            decimal_bytes(n as nat) =~= (if m == 0 {
                Seq::<u8>::empty()
            } else {
                decimal_bytes(m as nat)
            }) + rev_digits@.reverse(),
        decreases m,
    {
        let ghost old_digits = rev_digits@;
        let ghost old_m = m as nat;
        rev_digits.push((m % 10) as u8 + 0x30);
        m = m / 10;
        proof {
            assert(rev_digits@.reverse() =~= seq![(0x30 + old_m % 10) as u8]
                + old_digits.reverse());
            if m == 0 {
                assert(decimal_bytes(old_m) == seq![(0x30 + old_m) as u8]);
            }
        }
    }
    let mut bytes: Vec<u8> = Vec::new();
    let mut i: usize = rev_digits.len();
    while i > 0
        invariant
            i <= rev_digits@.len(),
            bytes@.len() + i == rev_digits@.len(),
            forall|j: int| 0 <= j < bytes@.len()
                ==> bytes@[j] == rev_digits@[rev_digits@.len() - 1 - j],
        decreases i,
    {
        i = i - 1;
        bytes.push(rev_digits[i]);
    }
    proof {
        assert(bytes@ =~= rev_digits@.reverse());
        assert(decimal_bytes(n as nat) =~= bytes@);
    }
    ascii_string(bytes)
}

/// The upper-case letter of an ASCII lower-case letter.
pub open spec fn upper_ascii(c: char) -> char {
    (((c as u8) - 32) as u8) as char
}

/// What capitalizing a string yields: for an ASCII string whose first
/// character is a lower-case letter, that character upper-cased; any other
/// string is kept as it is.
pub open spec fn spec_capitalize(s: Seq<char>) -> Seq<char> {
    if is_ascii_chars(s) && s.len() > 0 && 'a' <= s[0] && s[0] <= 'z' {
        s.update(0, upper_ascii(s[0]))
    } else {
        s
    }
}

/// Capitalizes the first character of an ASCII string.
pub fn capitalize(s: &str) -> (r: String)
    ensures
        r@ == spec_capitalize(s@),
{
    if !s.is_ascii() {
        return s.to_owned();
    }
    let bytes = s.as_bytes();
    if bytes.len() == 0 {
        proof {
            is_ascii_chars_encode_utf8(s@);
        }
        return s.to_owned();
    }
    proof {
        is_ascii_chars_encode_utf8(s@);
    }
    let b0 = bytes[0];
    if b0 < 0x61 || b0 > 0x7A {
        proof {
            assert(bytes@[0] == s@[0] as u8);
            assert(!('a' <= s@[0] && s@[0] <= 'z'));
        }
        return s.to_owned();
    }
    let mut out: Vec<u8> = Vec::new();
    out.push(b0 - 32);
    let mut i: usize = 1;
    while i < bytes.len()
        invariant
            1 <= i <= bytes@.len(),
            out@.len() == i,
            out@[0] == bytes@[0] - 32,
            forall|j: int| 1 <= j < i ==> out@[j] == bytes@[j],
        decreases bytes@.len() - i,
    {
        out.push(bytes[i]);
        i = i + 1;
    }
    proof {
        assert forall|j: int| 0 <= j < out@.len() implies out@[j] < 128 by {
            assert(bytes@[j] == s@[j] as u8);
        }
    }
    let r = ascii_string(out);
    proof {
        assert(s@[0] as u8 == bytes@[0]);
        assert forall|j: int| 0 <= j < r@.len() implies r@[j] == spec_capitalize(s@)[j] by {
            if j == 0 {
                assert(r@[0] == ascii_char((bytes@[0] - 32) as u8));
            } else {
                assert(r@[j] == ascii_char(bytes@[j]));
                assert(bytes@[j] == s@[j] as u8);
                assert((s@[j] as u8) as char == s@[j]);
            }
        }
        assert(r@ =~= spec_capitalize(s@));
    }
    r
}

} // verus!
