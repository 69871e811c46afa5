use polymarket_cli::number::parse_u64;
use polymarket_cli::text::split_fields;
use polymarket_cli::race::{
    is_signature_type_label, order_type_from_uppercase, parse_order_spec, parse_signer_spec,
    parse_step_spec, side_from_lowercase, CliOrderType, CliSide, OrderSpecError, SignerSpecError,
    StepSpec, StepSpecError, DEFAULT_SIGNER_LABEL,
};

#[test]
fn parse_order_spec_full() {
    let s = "m1=0xabc:buy:0.30:5:FAK";
    let o = parse_order_spec(s).unwrap();
    assert_eq!(o.label, "m1");
    assert_eq!(o.token, "0xabc");
    assert_eq!(o.price, "0.30");
    assert_eq!(o.size, "5");
    assert!(o.signer.is_none());
    assert_eq!(format!("{:?}", o.side), "Buy");
    assert_eq!(format!("{:?}", o.order_type), "Fak");
}

#[test]
fn parse_order_spec_default_type_is_gtc() {
    let s = "m1=0xabc:sell:0.30:5";
    let o = parse_order_spec(s).unwrap();
    assert_eq!(format!("{:?}", o.order_type), "Gtc");
    assert_eq!(format!("{:?}", o.side), "Sell");
}

#[test]
fn parse_order_spec_with_signer_no_type() {
    let s = "maker=0xabc:buy:0.30:5@alice";
    let o = parse_order_spec(s).unwrap();
    assert_eq!(o.signer.as_deref(), Some("alice"));
    assert_eq!(o.token, "0xabc");
    assert_eq!(format!("{:?}", o.order_type), "Gtc");
}

#[test]
fn parse_order_spec_with_signer_and_type() {
    let s = "fak=0xabc:sell:0.30:5:FAK@bob";
    let o = parse_order_spec(s).unwrap();
    assert_eq!(o.signer.as_deref(), Some("bob"));
    assert_eq!(format!("{:?}", o.order_type), "Fak");
}

#[test]
fn parse_order_spec_rejects_bad_side() {
    assert!(parse_order_spec("m1=0xabc:long:0.30:5").is_err());
}

#[test]
fn parse_order_spec_rejects_too_few_fields() {
    assert!(parse_order_spec("m1=0xabc:buy:0.30").is_err());
}

#[test]
fn parse_signer_spec_basic() {
    let s = parse_signer_spec("alice=0xabc123").unwrap();
    assert_eq!(s.label, "alice");
    assert_eq!(s.private_key, "0xabc123");
    assert!(s.signature_type.is_none());
}

#[test]
fn parse_signer_spec_with_sig_type() {
    let s = parse_signer_spec("bob=0xdef456:eoa").unwrap();
    assert_eq!(s.label, "bob");
    assert_eq!(s.private_key, "0xdef456");
    assert_eq!(s.signature_type.as_deref(), Some("eoa"));
}

#[test]
fn parse_signer_spec_with_proxy_type() {
    let s = parse_signer_spec("alice=0xKEY:proxy").unwrap();
    assert_eq!(s.signature_type.as_deref(), Some("proxy"));
}

#[test]
fn parse_signer_spec_with_gnosis_safe() {
    let s = parse_signer_spec("safe=0xKEY:gnosis-safe").unwrap();
    assert_eq!(s.signature_type.as_deref(), Some("gnosis-safe"));
}

#[test]
fn parse_signer_spec_unknown_suffix_is_part_of_key() {
    // If the trailing field after `:` isn't a known sig type, it's NOT a sig type
    // (and the user probably has a mangled key — but we don't second-guess).
    let s = parse_signer_spec("a=0xKEY:notatype").unwrap();
    assert_eq!(s.private_key, "0xKEY:notatype");
    assert!(s.signature_type.is_none());
}

#[test]
fn parse_signer_spec_rejects_empty_label() {
    assert!(parse_signer_spec("=0xKEY").is_err());
}

#[test]
fn parse_signer_spec_rejects_default_label_collision() {
    assert!(parse_signer_spec(&format!("{DEFAULT_SIGNER_LABEL}=0xKEY")).is_err());
}

#[test]
fn parse_step_spec_works() {
    assert!(matches!(parse_step_spec("submit:m1"), Ok(StepSpec::Submit(s)) if s == "m1"));
    assert!(matches!(parse_step_spec("cancel:t1"), Ok(StepSpec::Cancel(s)) if s == "t1"));
    assert!(matches!(parse_step_spec("wait:10"), Ok(StepSpec::Wait(10))));
}

#[test]
fn parse_step_spec_rejects_unknown() {
    assert!(parse_step_spec("submitt:m1").is_err());
    assert!(parse_step_spec("wait:notanumber").is_err());
}

// ----- further cases -----

#[test]
fn order_spec_case_is_folded_for_side_and_type() {
    let o = parse_order_spec("M1=0XABC:BUY:0.30:5:fak").unwrap();
    assert_eq!(o.side, CliSide::Buy);
    assert_eq!(o.order_type, CliOrderType::Fak);
    // Label and token keep their case.
    assert_eq!(o.label, "M1");
    assert_eq!(o.token, "0XABC");
}

#[test]
fn order_spec_other_types() {
    assert_eq!(
        parse_order_spec("a=1:sell:0.5:1:fok").unwrap().order_type,
        CliOrderType::Fok
    );
    assert_eq!(
        parse_order_spec("a=1:sell:0.5:1:Gtd").unwrap().order_type,
        CliOrderType::Gtd
    );
    assert_eq!(
        parse_order_spec("a=1:sell:0.5:1:GTC").unwrap().order_type,
        CliOrderType::Gtc
    );
}

#[test]
fn order_spec_error_kinds() {
    assert!(matches!(
        parse_order_spec("no-equals"),
        Err(OrderSpecError::MissingEquals)
    ));
    assert!(matches!(
        parse_order_spec("m1=a:buy:1:2:GTC:extra"),
        Err(OrderSpecError::FieldCount)
    ));
    match parse_order_spec("m1=0xabc:LONG:0.30:5") {
        Err(OrderSpecError::UnknownSide(s)) => assert_eq!(s, "long"),
        other => panic!("unexpected {other:?}"),
    }
    match parse_order_spec("m1=0xabc:buy:0.30:5:ioc") {
        Err(OrderSpecError::UnknownOrderType(s)) => assert_eq!(s, "IOC"),
        other => panic!("unexpected {other:?}"),
    }
}

#[test]
fn order_spec_signer_is_after_last_at() {
    // The body before the last `@` is `0xabc:buy:0.30:5@x`, whose size field
    // is `5@x`; that still parses as four fields.
    let o = parse_order_spec("m@1=0xabc:buy:0.30:5@x@bob");
    assert!(o.is_ok());
    let o = o.unwrap();
    assert_eq!(o.label, "m@1");
    assert_eq!(o.signer.as_deref(), Some("bob"));
    assert_eq!(o.size, "5@x");
}

#[test]
fn order_spec_empty_signer_is_kept_in_body() {
    // A trailing `@` with nothing after it names no signer.
    let o = parse_order_spec("m=0xabc:buy:0.30:5@").unwrap();
    assert!(o.signer.is_none());
    assert_eq!(o.size, "5@");
}

#[test]
fn order_label_is_before_first_equals() {
    let o = parse_order_spec("a=b=0xabc:buy:0.30:5").unwrap();
    assert_eq!(o.label, "a");
    assert_eq!(o.token, "b=0xabc");
}

#[test]
fn signer_spec_error_kinds() {
    assert_eq!(
        parse_signer_spec("alice").unwrap_err(),
        SignerSpecError::MissingEquals
    );
    assert_eq!(
        parse_signer_spec("=0xKEY").unwrap_err(),
        SignerSpecError::EmptyLabel
    );
    assert_eq!(
        parse_signer_spec("<default>=0xKEY").unwrap_err(),
        SignerSpecError::ReservedLabel
    );
}

#[test]
fn signer_spec_type_suffix_case_insensitive_kept_as_written() {
    let s = parse_signer_spec("bob=0xdef456:EOA").unwrap();
    assert_eq!(s.private_key, "0xdef456");
    assert_eq!(s.signature_type.as_deref(), Some("EOA"));
}

#[test]
fn signer_spec_round_trip() {
    for text in ["alice=0xabc123", "bob=0xdef456:eoa", "a=0xKEY:notatype", "x=y=z:proxy"] {
        let s = parse_signer_spec(text).unwrap();
        let mut back = format!("{}={}", s.label, s.private_key);
        if let Some(t) = &s.signature_type {
            back.push(':');
            back.push_str(t);
        }
        assert_eq!(back, text);
    }
}

#[test]
fn step_spec_error_kinds() {
    assert!(matches!(
        parse_step_spec("submit"),
        Err(StepSpecError::MissingColon)
    ));
    match parse_step_spec("Submitt:m1") {
        Err(StepSpecError::UnknownKind(k)) => assert_eq!(k, "submitt"),
        other => panic!("unexpected {other:?}"),
    }
    match parse_step_spec("wait:-1") {
        Err(StepSpecError::InvalidWait(a)) => assert_eq!(a, "-1"),
        other => panic!("unexpected {other:?}"),
    }
}

#[test]
fn step_spec_kind_is_case_insensitive_and_arg_keeps_colons() {
    assert!(matches!(parse_step_spec("CANCEL:a:b"), Ok(StepSpec::Cancel(s)) if s == "a:b"));
    assert!(matches!(parse_step_spec("Wait:+7"), Ok(StepSpec::Wait(7))));
}

#[test]
fn u64_parsing_matches_std() {
    for text in [
        "0", "10", "+10", "007", "18446744073709551615", "18446744073709551616", "", "+", "-1",
        "1_0", " 1", "1.0", "abc",
    ] {
        assert_eq!(parse_u64(text), text.parse::<u64>().ok(), "input {text:?}");
    }
}

#[test]
fn classifiers_take_folded_text() {
    assert!(is_signature_type_label("gnosis-safe"));
    assert!(!is_signature_type_label("Proxy"));
    assert_eq!(side_from_lowercase("sell"), Some(CliSide::Sell));
    assert_eq!(side_from_lowercase("SELL"), None);
    assert_eq!(order_type_from_uppercase("GTD"), Some(CliOrderType::Gtd));
    assert_eq!(order_type_from_uppercase("gtd"), None);
}

#[test]
fn split_fields_then_join_gives_text_back() {
    for text in ["0xabc:buy:0.30:5", "", ":", "a::b:", "no-colon"] {
        let parts = split_fields(text, ':');
        assert_eq!(parts.join(":"), text);
        assert_eq!(parts, text.split(':').map(str::to_string).collect::<Vec<_>>());
    }
}
