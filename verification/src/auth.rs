//! Signature-type and funder-address decisions made before authenticating
//! with the CLOB.
use vstd::prelude::*;

use crate::text::str_equal;
use crate::text::trim_white_space;
use crate::trusted::{address_from_hex, address_from_str, trim};

verus! {

/// How orders are signed.
#[derive(Clone, Copy, Debug, PartialEq, Eq, Structural)]
pub enum SignatureType {
    Eoa,
    Proxy,
    GnosisSafe,
}

/// The signature type a resolved name selects: `proxy` and `gnosis-safe`
/// select theirs; every other name selects `Eoa`.
pub open spec fn signature_type_named(s: Seq<char>) -> SignatureType {
    if s == "proxy"@ {
        SignatureType::Proxy
    } else if s == "gnosis-safe"@ {
        SignatureType::GnosisSafe
    } else {
        SignatureType::Eoa
    }
}

/// Maps a signature-type name to its [`SignatureType`]; unknown names mean `Eoa`.
pub fn parse_signature_type(s: &str) -> (r: SignatureType)
    ensures
        r == signature_type_named(s@),
{
    if str_equal(s, "proxy") {
        SignatureType::Proxy
    } else if str_equal(s, "gnosis-safe") {
        SignatureType::GnosisSafe
    } else {
        SignatureType::Eoa
    }
}

/// Why no signature type could be chosen.
#[derive(Clone, Copy, Debug, PartialEq, Eq, Structural)]
pub enum SignatureTypeError {
    /// A funder (Safe/proxy maker) was set together with an explicit `eoa`.
    EoaWithFunder,
}

/// Whether a funder forces `gnosis-safe`: it does when the user chose no
/// signature type explicitly.
pub open spec fn spec_promotes_to_gnosis_safe(explicitly_set: bool, has_funder: bool) -> bool {
    has_funder && !explicitly_set
}

/// Whether the configured signature type is overridden to `gnosis-safe`
/// (so that it need not be resolved at all).
pub fn promotes_to_gnosis_safe(explicitly_set: bool, has_funder: bool) -> (r: bool)
    ensures
        r == spec_promotes_to_gnosis_safe(explicitly_set, has_funder),
{
    has_funder && !explicitly_set
}

/// The signature type to authenticate with.
pub open spec fn effective_signature_type_outcome(
    explicitly_set: bool,
    resolved: Seq<char>,
    has_funder: bool,
) -> Result<SignatureType, SignatureTypeError> {
    if spec_promotes_to_gnosis_safe(explicitly_set, has_funder) {
        Ok(SignatureType::GnosisSafe)
    } else if has_funder && signature_type_named(resolved) == SignatureType::Eoa {
        Err(SignatureTypeError::EoaWithFunder)
    } else {
        Ok(signature_type_named(resolved))
    }
}

/// Decides the effective signature type from whether the user picked one
/// explicitly (flag or environment), the resolved signature-type name, and
/// whether a funder is present. With a funder and no explicit choice it is
/// `gnosis-safe`; an explicit choice is honoured, except that `eoa` together
/// with a funder is refused. `resolved` is not read when the type is promoted.
pub fn effective_signature_type(explicitly_set: bool, resolved: &str, has_funder: bool) -> (r: Result<
    SignatureType,
    SignatureTypeError,
>)
    ensures
        r == effective_signature_type_outcome(explicitly_set, resolved@, has_funder),
        has_funder ==> !(r matches Ok(SignatureType::Eoa)),
        !has_funder ==> r == Ok::<SignatureType, SignatureTypeError>(
            signature_type_named(resolved@),
        ),
{
    if promotes_to_gnosis_safe(explicitly_set, has_funder) {
        return Ok(SignatureType::GnosisSafe);
    }
    let sig = parse_signature_type(resolved);
    if has_funder && sig == SignatureType::Eoa {
        return Err(SignatureTypeError::EoaWithFunder);
    }
    Ok(sig)
}

/// A 20-byte account address.
#[derive(Clone, Copy, Debug, PartialEq, Eq)]
pub struct Address {
    pub bytes: [u8; 20],
}

pub open spec fn is_zero_address(b: Seq<u8>) -> bool {
    forall|i: int| 0 <= i < b.len() ==> b[i] == 0
}

/// Why a funder address was refused.
#[derive(Debug)]
pub enum FunderError {
    /// The value is not `0x` followed by 40 hex digits.
    InvalidAddress { input: String, cause: alloy::primitives::hex::FromHexError },
    /// The value is the zero address.
    ZeroAddress,
}

/// Checks the optional funder (order `maker`) address, already resolved
/// from flag, environment or config (in that priority). An empty value
/// counts as unset.
pub fn resolve_funder_address(funder: Option<&str>) -> (r: Result<Option<Address>, FunderError>)
    ensures
        match funder {
            None => r matches Ok(None),
            Some(s) => if s@.len() == 0 {
                r matches Ok(None)
            } else {
                match address_from_hex(trim_white_space(s@)) {
                    None => r matches Err(FunderError::InvalidAddress { input, .. }) && input@ == s@,
                    Some(b) => if is_zero_address(b) {
                        r matches Err(FunderError::ZeroAddress)
                    } else {
                        r matches Ok(Some(a)) && a.bytes@ == b
                    },
                }
            },
        },
{
    let s = match funder {
        None => return Ok(None),
        Some(s) => s,
    };
    if s.unicode_len() == 0 {
        return Ok(None);
    }
    let bytes = match address_from_str(trim(s)) {
        Ok(b) => b,
        Err(cause) => return Err(FunderError::InvalidAddress { input: s.to_owned(), cause }),
    };
    let mut i: usize = 0;
    let mut zero = true;
    while i < 20
        invariant
            i <= 20,
            bytes@.len() == 20,
            zero == (forall|j: int| 0 <= j < i ==> bytes@[j] == 0),
        decreases 20 - i,
    {
        if bytes[i] != 0 {
            zero = false;
        }
        i = i + 1;
    }
    if zero {
        return Err(FunderError::ZeroAddress);
    }
    Ok(Some(Address { bytes }))
}

} // verus!
