use polymarket_cli::order_id::{order_domain, DomainError, ExchangeConfig, PayloadVersion};
use polymarket_cli::plan::{validate_race_plan, PlanError, RaceArgs};
use polymarket_cli::race::{
    parse_order_spec, parse_signer_spec, parse_step_spec, OrderSpec, SignerSpec, StepSpec,
    DEFAULT_SIGNER_LABEL,
};
use polymarket_cli::run::{
    order_signer_label, prepare_order, signer_setups, PrepareError, RaceAction, RunError,
    RunLedger,
};

fn orders(specs: &[&str]) -> Vec<OrderSpec> {
    specs.iter().map(|s| parse_order_spec(s).unwrap()).collect()
}

fn steps(specs: &[&str]) -> Vec<StepSpec> {
    specs.iter().map(|s| parse_step_spec(s).unwrap()).collect()
}

fn signers(specs: &[&str]) -> Vec<SignerSpec> {
    specs.iter().map(|s| parse_signer_spec(s).unwrap()).collect()
}

fn args(s: &[&str], o: &[&str], st: &[&str]) -> RaceArgs {
    RaceArgs {
        signers: signers(s),
        orders: orders(o),
        steps: steps(st),
        repeat: 1,
        warmup: false,
        dry_run: false,
    }
}

#[test]
fn single_signer_plan_is_accepted() {
    let a = args(&[], &["m1=0xabc:buy:0.30:5"], &["submit:m1", "wait:10", "cancel:m1"]);
    assert!(matches!(validate_race_plan(&a), Ok(false)));
}

#[test]
fn multi_signer_plan_is_accepted() {
    let a = args(
        &["alice=0x1", "bob=0x2:eoa"],
        &["maker=0xabc:buy:0.30:5@alice", "fak=0xdef:buy:0.70:5:FAK@bob"],
        &["submit:maker", "wait:10", "submit:fak", "cancel:maker"],
    );
    assert!(matches!(validate_race_plan(&a), Ok(true)));
}

#[test]
fn plan_errors_come_in_order() {
    let a = args(&[], &[], &["wait:1"]);
    assert!(matches!(validate_race_plan(&a), Err(PlanError::NoOrders)));
    let a = args(&[], &["m1=1:buy:1:1"], &[]);
    assert!(matches!(validate_race_plan(&a), Err(PlanError::NoSteps)));
    let a = args(&[], &["m1=1:buy:1:1", "m2=1:buy:1:1", "m1=2:sell:1:1"], &["submit:zz"]);
    assert!(matches!(validate_race_plan(&a), Err(PlanError::DuplicateOrder(l)) if l == "m1"));
    let a = args(&["a=1", "a=2"], &["m1=1:buy:1:1@a"], &["wait:1", "cancel:m9"]);
    assert!(matches!(validate_race_plan(&a), Err(PlanError::UnknownOrderLabel(l)) if l == "m9"));
    let a = args(&["a=1", "b=2", "a=3"], &["m1=1:buy:1:1"], &["submit:m1"]);
    assert!(matches!(validate_race_plan(&a), Err(PlanError::DuplicateSigner(l)) if l == "a"));
    let a = args(&["a=1"], &["m1=1:buy:1:1@a", "m2=1:buy:1:1"], &["submit:m1"]);
    assert!(matches!(validate_race_plan(&a), Err(PlanError::MissingSigner(l)) if l == "m2"));
    let a = args(&["a=1"], &["m1=1:buy:1:1@b"], &["submit:m1"]);
    assert!(matches!(
        validate_race_plan(&a),
        Err(PlanError::UnknownSigner { order, signer }) if order == "m1" && signer == "b"
    ));
    let a = args(&[], &["m1=1:buy:1:1@a"], &["submit:m1"]);
    assert!(matches!(validate_race_plan(&a), Err(PlanError::UnexpectedSigner(l)) if l == "m1"));
}

#[test]
fn setups_follow_signer_mode() {
    let a = args(&["alice=0x1", "bob=0x2:eoa"], &["m=1:buy:1:1@bob"], &["submit:m"]);
    let s = signer_setups(&a, Some("proxy"));
    assert_eq!(s.len(), 2);
    assert_eq!(s[1].label, "bob");
    assert_eq!(s[1].private_key.as_deref(), Some("0x2"));
    assert_eq!(s[1].signature_type.as_deref(), Some("eoa"));
    assert_eq!(s[0].signature_type, None);

    let a = args(&[], &["m=1:buy:1:1"], &["submit:m"]);
    let s = signer_setups(&a, Some("gnosis-safe"));
    assert_eq!(s.len(), 1);
    assert_eq!(s[0].label, DEFAULT_SIGNER_LABEL);
    assert!(s[0].private_key.is_none());
    assert_eq!(s[0].signature_type.as_deref(), Some("gnosis-safe"));
}

#[test]
fn order_signer_label_by_mode() {
    let o = parse_order_spec("m=1:buy:1:1@bob").unwrap();
    assert_eq!(order_signer_label(&o, true), "bob");
    assert_eq!(order_signer_label(&o, false), DEFAULT_SIGNER_LABEL);
}

#[test]
fn prepare_order_reads_numbers() {
    let a = args(&[], &["m=0xabc:buy:0.30:5"], &["submit:m"]);
    let setups = signer_setups(&a, None);
    let p = prepare_order(&a.orders[0], false, &setups).unwrap();
    assert_eq!(p.signer_label, DEFAULT_SIGNER_LABEL);
    assert_eq!(p.token_id, [0xabc, 0, 0, 0]);
    assert_eq!((p.price.mantissa, p.price.scale, p.price.negative), (30, 2, false));
    assert_eq!((p.size.mantissa, p.size.scale, p.size.negative), (5, 0, false));
}

#[test]
fn prepare_order_reads_large_decimal_token() {
    let a = args(&[], &["m=18446744073709551616:sell:0.5:10.25"], &["submit:m"]);
    let setups = signer_setups(&a, None);
    let p = prepare_order(&a.orders[0], false, &setups).unwrap();
    assert_eq!(p.token_id, [0, 1, 0, 0]);
    assert_eq!((p.size.mantissa, p.size.scale), (1025, 2));
}

#[test]
fn prepare_order_error_kinds() {
    let a = args(&["alice=0x1"], &["m=0xabc:buy:0.30:5@alice"], &["submit:m"]);
    let setups = signer_setups(&a, None);
    let other = parse_order_spec("m=0xabc:buy:0.30:5@carol").unwrap();
    assert!(matches!(prepare_order(&other, true, &setups), Err(PrepareError::NoBundle(l)) if l == "carol"));
    let bad = parse_order_spec("m=0xzz:buy:0.30:5@alice").unwrap();
    assert!(matches!(prepare_order(&bad, true, &setups), Err(PrepareError::BadToken(_))));
    let bad = parse_order_spec("m=0xabc:buy:cheap:5@alice").unwrap();
    assert!(matches!(prepare_order(&bad, true, &setups), Err(PrepareError::BadPrice(_))));
    let bad = parse_order_spec("m=0xabc:buy:0.3:five@alice").unwrap();
    assert!(matches!(prepare_order(&bad, true, &setups), Err(PrepareError::BadSize(_))));
}

fn ledger_for(a: &RaceArgs, multi: bool) -> RunLedger {
    let mut ledger = RunLedger::new();
    for o in &a.orders {
        ledger.record_order(o.label.clone(), order_signer_label(o, multi));
    }
    ledger
}

#[test]
fn steps_dispatch_to_the_orders_signer() {
    let a = args(
        &["alice=0x1", "bob=0x2"],
        &["maker=0xabc:buy:0.30:5@alice", "taker=0xdef:buy:0.70:5@bob"],
        &["submit:maker", "wait:10", "submit:taker", "cancel:maker", "wait:10", "cancel:taker"],
    );
    let setups = signer_setups(&a, None);
    let mut ledger = ledger_for(&a, true);
    let mut actions = Vec::new();
    for s in &a.steps {
        actions.push(ledger.next_action(s, &setups).unwrap());
    }
    assert!(matches!(&actions[0], RaceAction::Submit { label, signer_label } if label == "maker" && signer_label == "alice"));
    assert!(matches!(&actions[1], RaceAction::Wait(10)));
    assert!(matches!(&actions[2], RaceAction::Submit { label, signer_label } if label == "taker" && signer_label == "bob"));
    assert!(matches!(&actions[3], RaceAction::Cancel { label, signer_label } if label == "maker" && signer_label == "alice"));
    assert!(matches!(&actions[5], RaceAction::Cancel { label, signer_label } if label == "taker" && signer_label == "bob"));
}

#[test]
fn cancel_before_submit_is_allowed() {
    let a = args(&[], &["m1=1:buy:1:1"], &["cancel:m1", "submit:m1", "cancel:m1"]);
    let setups = signer_setups(&a, None);
    let mut ledger = ledger_for(&a, false);
    for s in &a.steps {
        assert!(ledger.next_action(s, &setups).is_ok());
    }
}

#[test]
fn second_submit_is_refused() {
    let a = args(&[], &["m1=1:buy:1:1"], &["submit:m1", "submit:m1"]);
    let setups = signer_setups(&a, None);
    let mut ledger = ledger_for(&a, false);
    assert!(ledger.next_action(&a.steps[0], &setups).is_ok());
    assert!(matches!(
        ledger.next_action(&a.steps[1], &setups),
        Err(RunError::AlreadySubmitted(l)) if l == "m1"
    ));
}

#[test]
fn unprepared_orders_and_wallets_are_reported() {
    let mut ledger = RunLedger::new();
    let setups = Vec::new();
    assert!(matches!(
        ledger.next_action(&StepSpec::Cancel("x".to_string()), &setups),
        Err(RunError::MissingOrderId(l)) if l == "x"
    ));
    assert!(matches!(
        ledger.next_action(&StepSpec::Submit("x".to_string()), &setups),
        Err(RunError::AlreadySubmitted(l)) if l == "x"
    ));
    ledger.record_order("x".to_string(), "nobody".to_string());
    assert!(matches!(
        ledger.next_action(&StepSpec::Cancel("x".to_string()), &setups),
        Err(RunError::MissingBundle(l)) if l == "nobody"
    ));
}

#[test]
fn recording_again_makes_the_order_sendable() {
    let a = args(&[], &["m1=1:buy:1:1"], &["submit:m1"]);
    let setups = signer_setups(&a, None);
    let mut ledger = ledger_for(&a, false);
    assert!(ledger.next_action(&a.steps[0], &setups).is_ok());
    ledger.record_order("m1".to_string(), DEFAULT_SIGNER_LABEL.to_string());
    assert_eq!(ledger.entries().len(), 1);
    assert!(ledger.next_action(&a.steps[0], &setups).is_ok());
}

#[test]
fn order_domain_by_payload_version() {
    let both = ExchangeConfig { exchange: [1; 20], exchange_v2: Some([2; 20]) };
    let v1_only = ExchangeConfig { exchange: [1; 20], exchange_v2: None };
    let d = order_domain(PayloadVersion::V2, Some(both)).unwrap();
    assert_eq!((d.version, d.verifying_contract), (2, [2; 20]));
    assert_eq!((d.name, d.chain_id), ("Polymarket CTF Exchange", 137));
    let d = order_domain(PayloadVersion::V1, Some(both)).unwrap();
    assert_eq!((d.version, d.verifying_contract), (1, [1; 20]));
    assert_eq!(order_domain(PayloadVersion::V2, Some(v1_only)), Err(DomainError::NoV2Exchange));
    assert_eq!(order_domain(PayloadVersion::Other, Some(both)), Err(DomainError::UnsupportedPayload));
    assert_eq!(order_domain(PayloadVersion::V1, None), Err(DomainError::NoContractConfig));
}

#[test]
fn ledger_keeps_one_entry_per_label() {
    let mut ledger = RunLedger::new();
    ledger.record_order("a".to_string(), "s1".to_string());
    ledger.record_order("b".to_string(), "s1".to_string());
    ledger.record_order("a".to_string(), "s2".to_string());
    assert_eq!(ledger.entries().len(), 2);
    assert_eq!(ledger.entries()[0].signer_label, "s2");
}

#[test]
fn prepare_order_decimals_rebuild_exactly() {
    for text in ["-0", "-0.00", "0.30", "-1.5", "5", "0.000000000000000000000000001"] {
        let a = args(&[], &[&format!("m=1:buy:{text}:1")], &["submit:m"]);
        let setups = signer_setups(&a, None);
        let p = prepare_order(&a.orders[0], false, &setups).unwrap();
        let mut rebuilt = rust_decimal::Decimal::from_i128_with_scale(p.price.mantissa, p.price.scale);
        rebuilt.set_sign_negative(p.price.negative);
        let parsed: rust_decimal::Decimal = text.parse().unwrap();
        assert_eq!(rebuilt.serialize(), parsed.serialize(), "input {text:?}");
    }
    let a = args(&[], &["m=1:buy:1:-0.50"], &["submit:m"]);
    let setups = signer_setups(&a, None);
    let p = prepare_order(&a.orders[0], false, &setups).unwrap();
    assert_eq!((p.size.mantissa, p.size.scale, p.size.negative), (-50, 2, true));
}

#[test]
fn prepare_order_token_grammar() {
    let a = args(
        &[],
        &["a=0b101:buy:1:1", "b=0o17:buy:1:1", "c=1_000:buy:1:1", "d=0x:buy:1:1", "e=0XFF:buy:1:1"],
        &["submit:a"],
    );
    let setups = signer_setups(&a, None);
    let ids: Vec<[u64; 4]> =
        a.orders.iter().map(|o| prepare_order(o, false, &setups).unwrap().token_id).collect();
    assert_eq!(ids, vec![[5, 0, 0, 0], [15, 0, 0, 0], [1000, 0, 0, 0], [0, 0, 0, 0], [255, 0, 0, 0]]);
    let max = format!("m=0x{}:buy:1:1", "f".repeat(64));
    let too_big = format!("m=0x1{}:buy:1:1", "0".repeat(64));
    let ok = parse_order_spec(&max).unwrap();
    assert_eq!(prepare_order(&ok, false, &setups).unwrap().token_id, [u64::MAX; 4]);
    let bad = parse_order_spec(&too_big).unwrap();
    assert!(matches!(prepare_order(&bad, false, &setups), Err(PrepareError::BadToken(_))));
    let bad = parse_order_spec("m=12a:buy:1:1").unwrap();
    assert!(matches!(prepare_order(&bad, false, &setups), Err(PrepareError::BadToken(_))));
}
