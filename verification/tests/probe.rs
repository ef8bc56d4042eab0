use evm_bloomer::{
    check_opcode, classify_error, classify_outcome, plan_probe, CallOutcome, Classification,
    ErrorPatterns, ProbeStep,
};

#[test]
fn stack_underflow_is_supported() {
    let patterns = ErrorPatterns::standard();
    assert_eq!(
        classify_error("execution reverted: stack underflow (0 <=> 2)", &patterns),
        Classification::Supported
    );
    assert_eq!(classify_error("stack underflow", &patterns), Classification::Supported);
    assert_eq!(
        classify_error("EVM error: StackUnderflow", &patterns),
        Classification::Supported
    );
}

#[test]
fn invalid_opcode_is_unsupported() {
    let patterns = ErrorPatterns::standard();
    assert_eq!(
        classify_error("invalid opcode: opcode 0x5f not defined", &patterns),
        Classification::Unsupported
    );
    assert_eq!(
        classify_error("server returned an error response: not supported", &patterns),
        Classification::Unsupported
    );
}

#[test]
fn other_errors_are_unclassified() {
    let patterns = ErrorPatterns::standard();
    assert_eq!(classify_error("connection refused", &patterns), Classification::Unclassified);
    assert_eq!(classify_error("", &patterns), Classification::Unclassified);
    assert_eq!(classify_error("Stack Underflow", &patterns), Classification::Unclassified);
    assert_eq!(classify_error("stackunderflow", &patterns), Classification::Unclassified);
    assert_eq!(classify_error("Invalid Opcode", &patterns), Classification::Unclassified);
}

#[test]
fn a_supported_marker_wins_over_an_unsupported_one() {
    let patterns = ErrorPatterns::standard();
    assert_eq!(
        classify_error("invalid opcode after stack underflow", &patterns),
        Classification::Supported
    );
}

#[test]
fn only_supported_goes_into_the_bloom() {
    assert!(Classification::Supported.is_supported());
    assert!(!Classification::Unsupported.is_supported());
    assert!(!Classification::Unclassified.is_supported());
}

#[test]
fn only_unclassified_needs_attention() {
    assert!(!Classification::Supported.needs_attention());
    assert!(!Classification::Unsupported.needs_attention());
    assert!(Classification::Unclassified.needs_attention());
}

#[test]
fn successful_call_is_supported() {
    let patterns = ErrorPatterns::standard();
    assert_eq!(classify_outcome(&CallOutcome::Success, &patterns), Classification::Supported);
}

#[test]
fn failed_call_goes_by_its_text() {
    let patterns = ErrorPatterns::standard();
    let underflow = CallOutcome::Failure(String::from("stack underflow"));
    let invalid = CallOutcome::Failure(String::from("invalid opcode"));
    let other = CallOutcome::Failure(String::from("timeout"));
    assert_eq!(classify_outcome(&underflow, &patterns), Classification::Supported);
    assert_eq!(classify_outcome(&invalid, &patterns), Classification::Unsupported);
    assert_eq!(classify_outcome(&other, &patterns), Classification::Unclassified);
}

#[test]
fn standard_patterns_are_the_documented_ones() {
    let patterns = ErrorPatterns::standard();
    assert_eq!(patterns.supported, vec!["stack underflow", "StackUnderflow"]);
    assert_eq!(patterns.unsupported, vec!["invalid opcode", "not supported"]);
}

#[test]
fn patterns_can_be_replaced() {
    let patterns = ErrorPatterns {
        supported: vec![String::from("out of gas")],
        unsupported: vec![String::from("bad instruction")],
    };
    assert_eq!(classify_error("out of gas", &patterns), Classification::Supported);
    assert_eq!(classify_error("bad instruction 0x0c", &patterns), Classification::Unsupported);
    assert_eq!(classify_error("stack underflow", &patterns), Classification::Unclassified);
    let none = ErrorPatterns { supported: Vec::new(), unsupported: Vec::new() };
    assert_eq!(classify_error("stack underflow", &none), Classification::Unclassified);
}

#[test]
fn empty_pattern_is_found_in_every_text() {
    let patterns = ErrorPatterns { supported: vec![String::new()], unsupported: Vec::new() };
    assert_eq!(classify_error("anything", &patterns), Classification::Supported);
    assert_eq!(classify_error("", &patterns), Classification::Supported);
}

#[test]
fn stop_and_invalid_need_no_call() {
    for factor in [1u32, 500, 999] {
        assert!(matches!(plan_probe(0x00, factor), ProbeStep::Resolved(true)));
        assert!(matches!(plan_probe(0xFE, factor), ProbeStep::Resolved(true)));
    }
    for _ in 0..50 {
        assert!(matches!(check_opcode(0x00), ProbeStep::Resolved(true)));
        assert!(matches!(check_opcode(0xFE), ProbeStep::Resolved(true)));
    }
}

#[test]
fn every_other_opcode_is_simulated() {
    for opcode in 0u8..=255 {
        let simulated = matches!(plan_probe(opcode, 1), ProbeStep::Simulate(_));
        assert_eq!(simulated, opcode != 0x00 && opcode != 0xFE);
    }
}

#[test]
fn request_deploys_the_single_opcode_from_the_zero_address() {
    match plan_probe(0x5F, 7) {
        ProbeStep::Simulate(request) => {
            assert_eq!(request.data, vec![0x5F]);
            assert_eq!(request.from, vec![0u8; 20]);
            assert_eq!(request.to, None);
            assert_eq!(request.delay_millis, 7 * 0x5F);
        }
        ProbeStep::Resolved(_) => panic!("PUSH0 is probed"),
    }
}

#[test]
fn delay_is_factor_times_opcode() {
    let delay = |opcode: u8, factor: u32| match plan_probe(opcode, factor) {
        ProbeStep::Simulate(request) => request.delay_millis,
        ProbeStep::Resolved(_) => panic!("opcode {} is probed", opcode),
    };
    assert_eq!(delay(0x01, 1), 1);
    assert_eq!(delay(0x01, 999), 999);
    assert_eq!(delay(0xFF, 999), 254_745);
    assert_eq!(delay(0x60, 250), 24_000);
    assert_eq!(delay(0xFF, u32::MAX), 255 * 4_294_967_295u64);
    assert_eq!(delay(0x10, 0), 0);
}

#[test]
fn drawn_delay_stays_within_its_bounds() {
    let mut seen = std::collections::BTreeSet::new();
    for _ in 0..400 {
        match check_opcode(0x01) {
            ProbeStep::Simulate(request) => {
                assert!(request.delay_millis >= 1);
                assert!(request.delay_millis < 1000);
                assert_eq!(request.data, vec![0x01]);
                seen.insert(request.delay_millis);
            }
            ProbeStep::Resolved(_) => panic!("ADD is probed"),
        }
    }
    assert!(seen.len() > 1);
}

#[test]
fn drawn_delay_is_a_multiple_of_the_opcode() {
    for _ in 0..100 {
        match check_opcode(0xFF) {
            ProbeStep::Simulate(request) => {
                assert_eq!(request.delay_millis % 255, 0);
                assert!(request.delay_millis >= 255);
                assert!(request.delay_millis <= 999 * 255);
                assert_eq!(request.from, vec![0u8; 20]);
                assert_eq!(request.to, None);
            }
            ProbeStep::Resolved(_) => panic!("SELFDESTRUCT is probed"),
        }
    }
}
