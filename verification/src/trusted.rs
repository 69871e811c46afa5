//! The calls this library makes into std functions that vstd leaves
//! unspecified and into outside crates. Each wrapper's contract is believed,
//! not proved; the doc comment of each says what it claims.
use vstd::prelude::*;
use vstd::utf8::is_ascii_chars;

use crate::number::{limbs_value, u256_value_from_str};
use crate::text::{ascii_lowercase, ascii_uppercase, trim_white_space};

verus! {

/// `hex::FromHexError` of `const-hex` (re-exported by alloy), why a hex text
/// did not decode.
#[verifier::external_type_specification]
#[verifier::external_body]
pub struct ExFromHexError(alloy::primitives::hex::FromHexError);

pub open spec fn is_hex_digit(c: char) -> bool {
    ('0' <= c && c <= '9') || ('a' <= c && c <= 'f') || ('A' <= c && c <= 'F')
}

pub open spec fn hex_value(c: char) -> int {
    if '0' <= c && c <= '9' {
        (c as int) - ('0' as int)
    } else if 'a' <= c && c <= 'f' {
        (c as int) - ('a' as int) + 10
    } else {
        (c as int) - ('A' as int) + 10
    }
}

/// `s` without a leading `0x` or `0X`.
pub open spec fn strip_hex_prefix(s: Seq<char>) -> Seq<char> {
    if s.len() >= 2 && s[0] == '0' && (s[1] == 'x' || s[1] == 'X') {
        s.skip(2)
    } else {
        s
    }
}

/// The 20 bytes that a 40-digit hex text (after an optional `0x`) denotes,
/// upper and lower case digits alike, two digits per byte, high digit first.
pub open spec fn address_from_hex(s: Seq<char>) -> Option<Seq<u8>> {
    let h = strip_hex_prefix(s);
    if h.len() == 40 && forall|i: int| 0 <= i < 40 ==> #[trigger] is_hex_digit(h[i]) {
        Some(Seq::new(20, |i: int| (hex_value(h[2 * i]) * 16 + hex_value(h[2 * i + 1])) as u8))
    } else {
        None
    }
}

/// Calls `alloy::primitives::Address::from_str`, which decodes with
/// `const_hex::decode_to_array::<_, 20>`: an optional `0x`/`0X` prefix is
/// stripped, then exactly 40 hex digits of either case must remain. Claims
/// that the call succeeds exactly when `address_from_hex` gives bytes, and
/// that it then returns those bytes. Which `FromHexError` comes on failure is
/// not stated.
#[verifier::external_body]
pub(crate) fn address_from_str(s: &str) -> (r: Result<[u8; 20], alloy::primitives::hex::FromHexError>)
    ensures
        r is Ok <==> address_from_hex(s@) is Some,
        r matches Ok(b) ==> address_from_hex(s@) == Some(b@),
{
    s.parse::<alloy::primitives::Address>().map(|a| a.0.0)
}

/// Calls `str::trim`. Claims what its documentation says: the result is
/// `s` with its leading and trailing characters of the Unicode White_Space
/// property removed.
#[verifier::external_body]
pub(crate) fn trim(s: &str) -> (r: &str)
    ensures
        r@ == trim_white_space(s@),
{
    s.trim()
}

/// The Unicode lowercase mapping of a string, as `str::to_lowercase` computes it.
pub uninterp spec fn lowercase_of(s: Seq<char>) -> Seq<char>;

/// The Unicode uppercase mapping of a string, as `str::to_uppercase` computes it.
pub uninterp spec fn uppercase_of(s: Seq<char>) -> Seq<char>;

/// Calls `str::to_lowercase`. Claims that the result is the lowercase
/// mapping of `s`, a function of `s` alone (`lowercase_of`), and that on
/// ASCII text it turns A–Z into a–z and keeps every other character; what it
/// does to other characters is not stated.
#[verifier::external_body]
pub(crate) fn to_lowercase(s: &str) -> (r: String)
    ensures
        r@ == lowercase_of(s@),
        is_ascii_chars(s@) ==> r@ == ascii_lowercase(s@),
{
    s.to_lowercase()
}

/// Calls `str::to_uppercase`. Claims that the result is the uppercase
/// mapping of `s`, a function of `s` alone (`uppercase_of`), and that on
/// ASCII text it turns a–z into A–Z and keeps every other character; what it
/// does to other characters is not stated.
#[verifier::external_body]
pub(crate) fn to_uppercase(s: &str) -> (r: String)
    ensures
        r@ == uppercase_of(s@),
        is_ascii_chars(s@) ==> r@ == ascii_uppercase(s@),
{
    s.to_uppercase()
}

/// `ruint::ParseError`, why a text is not a 256-bit unsigned integer.
#[verifier::external_type_specification]
#[verifier::external_body]
pub struct ExUintParseError(alloy::primitives::ruint::ParseError);

/// Calls `alloy::primitives::U256::from_str` (ruint): a `0x`, `0o` or `0b`
/// prefix (either case) selects radix 16, 8 or 2, decimal otherwise; digits
/// are case-insensitive and `_` is skipped. Claims, as its source does, that
/// the call succeeds exactly when `u256_value_from_str` gives a value (every
/// character a digit of the radix or `_`, and the value below 2^256), and that
/// it then returns that value as four little-endian limbs.
#[verifier::external_body]
pub(crate) fn token_id_from_str(s: &str) -> (r: Result<[u64; 4], alloy::primitives::ruint::ParseError>)
    ensures
        r is Ok <==> u256_value_from_str(s@) is Some,
        r matches Ok(limbs) ==> u256_value_from_str(s@) == Some(limbs_value(limbs@)),
{
    let value = s.parse::<alloy::primitives::U256>()?;
    Ok(value.into_limbs())
}

/// `rust_decimal::Error`, why a text is not a decimal.
#[verifier::external_type_specification]
#[verifier::external_body]
pub struct ExDecimalError(rust_decimal::Error);

/// The mantissa, scale and sign bit of the `Decimal` that `Decimal::from_str`
/// reads from a text (its value is `mantissa / 10^scale`; the sign bit also
/// tells a negative zero), `None` where it reports an error.
pub uninterp spec fn decimal_from_str(s: Seq<char>) -> Option<(i128, u32, bool)>;

/// Calls `rust_decimal::Decimal::from_str`. Claims that the call succeeds
/// exactly when `decimal_from_str` has a value, that it then returns that
/// mantissa, scale and sign bit, and that the result depends on `s` alone;
/// the grammar and the rounding of long fractions are not stated.
#[verifier::external_body]
pub(crate) fn decimal_parts_from_str(s: &str) -> (r: Result<(i128, u32, bool), rust_decimal::Error>)
    ensures
        r is Ok <==> decimal_from_str(s@) is Some,
        r matches Ok(parts) ==> decimal_from_str(s@) == Some(parts),
{
    let value = s.parse::<rust_decimal::Decimal>()?;
    Ok((value.mantissa(), value.scale(), value.is_sign_negative()))
}

} // verus!
