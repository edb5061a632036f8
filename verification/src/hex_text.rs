//! Lower-case hexadecimal text of byte strings.

use crate::prefix::nibble_at;
use vstd::prelude::*;
use vstd::string::*;

verus! {

/// The lower-case hexadecimal digit of a nibble.
pub open spec fn hex_digit(nibble: int) -> char {
    if nibble == 0 {
        '0'
    } else if nibble == 1 {
        '1'
    } else if nibble == 2 {
        '2'
    } else if nibble == 3 {
        '3'
    } else if nibble == 4 {
        '4'
    } else if nibble == 5 {
        '5'
    } else if nibble == 6 {
        '6'
    } else if nibble == 7 {
        '7'
    } else if nibble == 8 {
        '8'
    } else if nibble == 9 {
        '9'
    } else if nibble == 10 {
        'a'
    } else if nibble == 11 {
        'b'
    } else if nibble == 12 {
        'c'
    } else if nibble == 13 {
        'd'
    } else if nibble == 14 {
        'e'
    } else {
        'f'
    }
}

/// `data` as text: two digits per byte, the high nibble first.
pub open spec fn hex_text(data: Seq<u8>) -> Seq<char> {
    Seq::new(2 * data.len(), |i: int| hex_digit(nibble_at(data, i)))
}

/// Distinct nibbles have distinct digits.
pub proof fn lemma_hex_digit_injective(first: int, second: int)
    requires
        0 <= first < 16,
        0 <= second < 16,
    ensures
        hex_digit(first) == hex_digit(second) <==> first == second,
{
}

/// Encodes `data` with `hex::encode`.
///
/// Trusted: the text has two lower-case hexadecimal digits for each byte, in
/// the order of the bytes, the high nibble before the low one.
#[verifier::external_body]
pub(crate) fn hex_encode(data: &[u8]) -> (text: String)
    ensures
        text@ == hex_text(data@),
{
    hex::encode(data)
}

/// `data` as text with the marker `0x` in front.
pub open spec fn prefixed_hex_text(data: Seq<u8>) -> Seq<char> {
    seq!['0', 'x'] + hex_text(data)
}

/// Hexadecimal text of `data` behind the marker `0x`.
pub fn prefixed_hex(data: &[u8]) -> (text: String)
    ensures
        text@ == prefixed_hex_text(data@),
{
    let digits = hex_encode(data);
    proof {
        reveal_strlit("0x");
        assert("0x"@ =~= seq!['0', 'x']);
    }
    String::from_str("0x").concat(digits.as_str())
}

} // verus!
