//! Conversions between bytes and text that the codec relies on.
use vstd::prelude::*;
use vstd::utf8::*;

verus! {

#[verifier::external_type_specification]
#[verifier::external_body]
pub struct ExUtf8Error(core::str::Utf8Error);

/// The characters of a byte string in which every byte is ASCII.
pub open spec fn ascii_chars(bytes: Seq<u8>) -> Seq<char> {
    bytes.map_values(|b: u8| b as char)
}

/// Relies on `core::str::from_utf8`: it succeeds exactly on well-formed UTF-8
/// and then views the same bytes as text.
#[verifier::external_body]
pub(crate) fn str_from_utf8(bytes: &[u8]) -> (r: Result<&str, core::str::Utf8Error>)
    ensures
        r is Ok <==> valid_utf8(bytes@),
        r matches Ok(s) ==> s@ == decode_utf8(bytes@),
{
    core::str::from_utf8(bytes)
}

/// The character of a digit below 16: `0`-`9`, then `A`-`F`.
pub open spec fn digit_char(d: nat) -> char
    recommends
        d < 16,
{
    if d < 10 {
        ((48 + d) as u8) as char
    } else {
        ((55 + d) as u8) as char
    }
}

/// The decimal digits of `n`, without leading zeros.
pub open spec fn decimal_digits(n: nat) -> Seq<char>
    decreases n,
{
    if n < 10 {
        seq![digit_char(n)]
    } else {
        decimal_digits(n / 10).push(digit_char(n % 10))
    }
}

/// The uppercase hexadecimal digits of `n`, without leading zeros.
pub open spec fn hex_digits(n: nat) -> Seq<char>
    decreases n,
{
    if n < 16 {
        seq![digit_char(n)]
    } else {
        hex_digits(n / 16).push(digit_char(n % 16))
    }
}

/// Relies on `ToString` for `u64`, which writes the number in decimal.
#[verifier::external_body]
pub(crate) fn decimal(n: u64) -> (r: String)
    ensures
        r@ == decimal_digits(n as nat),
{
    n.to_string()
}

/// Relies on `format!` with `{:X}`, which writes a byte in uppercase
/// hexadecimal.
#[verifier::external_body]
pub(crate) fn upper_hex(b: u8) -> (r: String)
    ensures
        r@ == hex_digits(b as nat),
{
    format!("{:X}", b)
}

/// Relies on `ToString` for `char`: the one character `b` stands for.
#[verifier::external_body]
pub(crate) fn byte_char(b: u8) -> (r: String)
    ensures
        r@ == seq![b as char],
{
    (b as char).to_string()
}

/// ASCII bytes are well-formed UTF-8 and decode one character per byte.
pub proof fn lemma_ascii_utf8(bytes: Seq<u8>)
    requires
        forall|i: int| 0 <= i < bytes.len() ==> #[trigger] bytes[i] < 128,
    ensures
        valid_utf8(bytes),
        decode_utf8(bytes) == ascii_chars(bytes),
    decreases bytes.len(),
{
    if bytes.len() > 0 {
        let rest = bytes.drop_first();
        assert(pop_first_scalar(bytes) =~= rest);
        lemma_ascii_utf8(rest);
        let b = bytes[0];
        assert(codepoint_width_1(b) == b as u32) by (bit_vector)
            requires
                b < 128,
        ;
        assert(decode_utf8(bytes) =~= ascii_chars(bytes));
    }
}

} // verus!
