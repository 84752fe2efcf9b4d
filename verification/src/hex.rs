//! Two-digit upper-case hexadecimal text for bytes.

use vstd::prelude::*;

verus! {

/// The sixteen digits, each at the index of its value.
pub open spec fn hex_alphabet() -> Seq<char> {
    seq!['0', '1', '2', '3', '4', '5', '6', '7', '8', '9', 'A', 'B', 'C', 'D', 'E', 'F']
}

/// Whether `c` is one of `0`-`9` or `A`-`F`.
pub open spec fn is_hex_digit(c: char) -> bool {
    '0' <= c <= '9' || 'A' <= c <= 'F'
}

/// The value of a hex digit.
pub open spec fn hex_digit_value(c: char) -> int
    recommends
        is_hex_digit(c),
{
    if c <= '9' {
        c as int - '0' as int
    } else {
        c as int - 'A' as int + 10
    }
}

/// A byte as two digits, high nibble first, zero-padded.
pub open spec fn byte_hex(byte: u8) -> Seq<char> {
    seq![hex_alphabet()[byte as int / 16], hex_alphabet()[byte as int % 16]]
}

/// The byte that two digits denote, if both are hex digits.
pub open spec fn hex_byte(high: char, low: char) -> Option<u8> {
    if is_hex_digit(high) && is_hex_digit(low) {
        Some((16 * hex_digit_value(high) + hex_digit_value(low)) as u8)
    } else {
        None
    }
}

/// Every entry of the alphabet is a hex digit whose value is its index.
pub proof fn lemma_alphabet_values(v: int)
    requires
        0 <= v < 16,
    ensures
        is_hex_digit(hex_alphabet()[v]),
        hex_digit_value(hex_alphabet()[v]) == v,
{
}

/// A hex digit stands in the alphabet at the index of its value.
pub proof fn lemma_digit_in_alphabet(c: char)
    requires
        is_hex_digit(c),
    ensures
        0 <= hex_digit_value(c) < 16,
        hex_alphabet()[hex_digit_value(c)] == c,
{
}

/// Reading back the two digits of a byte gives the byte.
pub proof fn lemma_byte_hex_round_trip(byte: u8)
    ensures
        byte_hex(byte).len() == 2,
        hex_byte(byte_hex(byte)[0], byte_hex(byte)[1]) == Some(byte),
{
    lemma_alphabet_values(byte as int / 16);
    lemma_alphabet_values(byte as int % 16);
}

/// Two hex digits are the text of the byte they denote, and of no other.
pub proof fn lemma_hex_byte_inverse(high: char, low: char)
    requires
        is_hex_digit(high),
        is_hex_digit(low),
    ensures
        hex_byte(high, low) matches Some(byte) && byte_hex(byte) == seq![high, low],
{
    lemma_digit_in_alphabet(high);
    lemma_digit_in_alphabet(low);
}

/// Appends the two digits of `byte` to `out`.
pub fn push_byte_hex(out: &mut String, byte: u8)
    ensures
        final(out)@ == old(out)@ + byte_hex(byte),
{
    let digits = "0123456789ABCDEF";
    proof {
        reveal_strlit("0123456789ABCDEF");
    }
    let high: usize = (byte / 16) as usize;
    let low: usize = (byte % 16) as usize;
    out.append(digits.substring_ascii(high, high + 1));
    out.append(digits.substring_ascii(low, low + 1));
}

/// Reads one hex digit.
pub fn digit_value(c: char) -> (value: Option<u8>)
    ensures
        value.is_some() == is_hex_digit(c),
        value matches Some(v) ==> v as int == hex_digit_value(c) && v < 16,
{
    if '0' <= c && c <= '9' {
        Some((c as u8) - ('0' as u8))
    } else if 'A' <= c && c <= 'F' {
        Some((c as u8) - ('A' as u8) + 10)
    } else {
        None
    }
}

/// Reads the byte that two digits denote.
pub fn parse_byte_hex(high: char, low: char) -> (byte: Option<u8>)
    ensures
        byte == hex_byte(high, low),
{
    match (digit_value(high), digit_value(low)) {
        (Some(h), Some(l)) => Some(16 * h + l),
        _ => None,
    }
}

} // verus!
