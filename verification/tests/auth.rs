use polymarket_cli::auth::{
    effective_signature_type, parse_signature_type, promotes_to_gnosis_safe,
    resolve_funder_address, FunderError, SignatureType, SignatureTypeError,
};

#[test]
fn parse_signature_type_proxy() {
    assert_eq!(parse_signature_type("proxy"), SignatureType::Proxy);
}

#[test]
fn parse_signature_type_gnosis_safe() {
    assert_eq!(
        parse_signature_type("gnosis-safe"),
        SignatureType::GnosisSafe
    );
}

#[test]
fn parse_signature_type_eoa() {
    assert_eq!(parse_signature_type("eoa"), SignatureType::Eoa);
}

#[test]
fn parse_signature_type_unknown_defaults_to_eoa() {
    assert_eq!(parse_signature_type("unknown"), SignatureType::Eoa);
}

// `Some(flag)` is an explicit choice that resolves to the flag itself.
#[test]
fn funder_with_explicit_gnosis_safe_flag_is_gnosis_safe() {
    assert_eq!(
        effective_signature_type(true, "gnosis-safe", true).unwrap(),
        SignatureType::GnosisSafe
    );
}

#[test]
fn funder_with_no_explicit_flag_promotes_to_gnosis_safe() {
    // No --signature-type flag, funder present → promote to gnosis-safe even though
    // the config default would otherwise resolve to "proxy".
    assert_eq!(
        effective_signature_type(false, "proxy", true).unwrap(),
        SignatureType::GnosisSafe
    );
}

#[test]
fn funder_with_explicit_eoa_flag_is_rejected() {
    assert!(effective_signature_type(true, "eoa", true).is_err());
}

#[test]
fn funder_with_explicit_proxy_flag_is_proxy() {
    assert_eq!(
        effective_signature_type(true, "proxy", true).unwrap(),
        SignatureType::Proxy
    );
}

#[test]
fn no_funder_honors_explicit_eoa() {
    assert_eq!(
        effective_signature_type(true, "eoa", false).unwrap(),
        SignatureType::Eoa
    );
}

#[test]
fn resolve_funder_address_rejects_garbage() {
    assert!(resolve_funder_address(Some("not-an-address")).is_err());
}

#[test]
fn resolve_funder_address_rejects_zero() {
    assert!(
        resolve_funder_address(Some("0x0000000000000000000000000000000000000000")).is_err()
    );
}

#[test]
fn resolve_funder_address_parses_valid() {
    let a = resolve_funder_address(Some("0xF6F687D9c728a4fc5590D71e2e53b9D418E20E74"))
        .unwrap()
        .unwrap();
    let a = alloy::primitives::Address::from(a.bytes);
    assert_eq!(
        format!("{a:#x}"),
        "0xf6f687d9c728a4fc5590d71e2e53b9d418e20e74"
    );
}

#[test]
fn resolve_funder_address_none_when_unset() {
    assert!(resolve_funder_address(Some("")).unwrap().is_none());
}

#[test]
fn resolve_funder_address_none_when_absent() {
    assert!(resolve_funder_address(None).unwrap().is_none());
}

#[test]
fn resolve_funder_address_decodes_bytes() {
    let a = resolve_funder_address(Some("0xF6F687D9c728a4fc5590D71e2e53b9D418E20E74"))
        .unwrap()
        .unwrap();
    assert_eq!(a.bytes[0], 0xf6);
    assert_eq!(a.bytes[1], 0xf6);
    assert_eq!(a.bytes[19], 0x74);
}

#[test]
fn resolve_funder_address_trims_whitespace() {
    let a = resolve_funder_address(Some("  0xF6F687D9c728a4fc5590D71e2e53b9D418E20E74\n"))
        .unwrap()
        .unwrap();
    assert_eq!(a.bytes[0], 0xf6);
}

#[test]
fn resolve_funder_address_accepts_no_prefix_and_upper_x() {
    let a = resolve_funder_address(Some("F6F687D9c728a4fc5590D71e2e53b9D418E20E74"))
        .unwrap()
        .unwrap();
    let b = resolve_funder_address(Some("0XF6F687D9c728a4fc5590D71e2e53b9D418E20E74"))
        .unwrap()
        .unwrap();
    assert_eq!(a, b);
}

#[test]
fn resolve_funder_address_error_kinds() {
    match resolve_funder_address(Some("0x1234")) {
        Err(FunderError::InvalidAddress { input, .. }) => assert_eq!(input, "0x1234"),
        other => panic!("unexpected {other:?}"),
    }
    assert!(matches!(
        resolve_funder_address(Some("0x0000000000000000000000000000000000000000")),
        Err(FunderError::ZeroAddress)
    ));
}

#[test]
fn eoa_with_funder_error_kind() {
    assert_eq!(
        effective_signature_type(true, "eoa", true),
        Err(SignatureTypeError::EoaWithFunder)
    );
    // An unknown explicit name means EOA, which a funder forbids too.
    assert_eq!(
        effective_signature_type(true, "weird", true),
        Err(SignatureTypeError::EoaWithFunder)
    );
}

#[test]
fn promotion_only_with_funder_and_no_explicit_choice() {
    assert!(promotes_to_gnosis_safe(false, true));
    assert!(!promotes_to_gnosis_safe(true, true));
    assert!(!promotes_to_gnosis_safe(false, false));
    assert!(!promotes_to_gnosis_safe(true, false));
}

#[test]
fn no_funder_never_promotes() {
    assert_eq!(
        effective_signature_type(false, "proxy", false).unwrap(),
        SignatureType::Proxy
    );
    assert_eq!(
        effective_signature_type(false, "eoa", false).unwrap(),
        SignatureType::Eoa
    );
}

#[test]
fn signature_type_names_are_case_sensitive() {
    assert_eq!(parse_signature_type("Proxy"), SignatureType::Eoa);
}

#[test]
fn resolve_funder_address_trims_unicode_white_space() {
    let a = resolve_funder_address(Some(
        "\u{3000}\u{a0}\t0xF6F687D9c728a4fc5590D71e2e53b9D418E20E74\u{2028}\u{85} ",
    ))
    .unwrap()
    .unwrap();
    assert_eq!(a.bytes[19], 0x74);
    // A zero-width space is not White_Space, so it is not trimmed.
    assert!(resolve_funder_address(Some("\u{200b}0xF6F687D9c728a4fc5590D71e2e53b9D418E20E74")).is_err());
}
