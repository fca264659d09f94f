//! The SHA-256 checksum of a handed-over document.
use sha2::{Digest, Sha256};

use vstd::prelude::*;
use vstd::string::*;

use crate::text;

verus! {

/// The SHA-256 digest of a byte sequence.
pub uninterp spec fn sha256(bytes: Seq<u8>) -> Seq<u8>;

/// `Sha256::digest` of the crate `sha2`: its result is a function of the bytes
/// alone, named `sha256`, and has the 32 bytes of `Sha256`'s output size. The
/// bound keeps the length in bits within the 64-bit counter of the padding.
#[verifier::external_body]
fn digest(bytes: &[u8]) -> (result: Vec<u8>)
    requires
        bytes@.len() < 0x2000_0000_0000_0000,
    ensures
        result@ == sha256(bytes@),
        result@.len() == 32,
{
    Sha256::digest(bytes).to_vec()
}

/// The checksum of a byte sequence: its SHA-256 digest in lower-case
/// hexadecimal.
pub open spec fn checksum(bytes: Seq<u8>) -> Seq<char> {
    text::lower_hex(sha256(bytes))
}

/// Whether a text has the form of a checksum.
pub open spec fn checksum_form(value: Seq<char>) -> bool {
    value.len() == 64 && forall|i: int| 0 <= i < value.len() ==> text::hex_digit(#[trigger] value[i])
}

fn is_hex_digit(c: char) -> (result: bool)
    ensures
        result == text::hex_digit(c),
{
    ('0' <= c && c <= '9') || ('a' <= c && c <= 'f') || ('A' <= c && c <= 'F')
}

/// Accepts texts of 64 hexadecimal digits, in either case.
pub fn validate_sha256(value: &str) -> (result: Result<(), String>)
    ensures
        checksum_form(value@) ==> result is Ok,
        !checksum_form(value@) ==> (result matches Err(e) && e@
            == "Geo config handoff checksum must be 64 hexadecimal characters"@),
{
    let list = text::char_list(value);
    let mut valid: bool = list.len() == 64;
    let mut i: usize = 0;
    while i < list.len()
        invariant
            i <= list.len(),
            valid == (list@.len() == 64 && forall|k: int|
                0 <= k < i ==> text::hex_digit(#[trigger] list@[k])),
        decreases list.len() - i,
    {
        valid = valid && is_hex_digit(list[i]);
        i += 1;
    }
    if !valid {
        return Err("Geo config handoff checksum must be 64 hexadecimal characters".to_owned());
    }
    Ok(())
}

/// Whether bytes have the expected checksum, apart from the case of its
/// digits.
pub fn matches_checksum(bytes: &[u8], expected: &str) -> (result: bool)
    requires
        bytes@.len() < 0x2000_0000_0000_0000,
    ensures
        result == text::same_ignoring_case(checksum(bytes@), expected@),
        result ==> checksum_form(expected@),
{
    let actual = text::to_lower_hex(digest(bytes).as_slice());
    let result = text::eq_ignoring_case(actual.as_str(), expected);
    proof {
        text::lemma_lower_hex_digits(sha256(bytes@));
        if result {
            assert(text::lowercase(expected@).len() == expected@.len());
            assert forall|i: int| 0 <= i < expected@.len() implies text::hex_digit(
                #[trigger] expected@[i],
            ) by {
                assert(text::lowercase(expected@)[i] == text::lower(expected@[i]));
                assert(checksum(bytes@)[i] == text::lowercase(checksum(bytes@))[i]);
            }
        }
    }
    result
}

} // verus!
