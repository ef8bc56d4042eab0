use evm_bloomer::{evm_versions, Bloom, EVMBloom};

fn cancun_results() -> Vec<bool> {
    let versions = evm_versions();
    let cancun = &versions[11].bloom;
    (0u8..=255).map(|opcode| cancun.get(opcode)).collect()
}

#[test]
fn report_of_a_cancun_chain() {
    let mut results = cancun_results();
    results[0xFE] = true;
    let report = EVMBloom::new(1, &results, &evm_versions()).unwrap();
    assert_eq!(report.chain_id, 1);
    assert_eq!(
        report.bloom,
        "0xfff0fffc8000ffffffe0fffffffffffffffffffff8000000000000000000fc27"
    );
    assert_eq!(report.version, "cancun");
    assert_eq!(report.unknown_opcodes, vec![0xFE]);
}

#[test]
fn report_of_an_exact_cancun_bitmap() {
    let report = EVMBloom::new(10, &cancun_results(), &evm_versions()).unwrap();
    assert_eq!(report.chain_id, 10);
    assert_eq!(
        report.bloom,
        "0xfff0fffc8000ffffffe0fffffffffffffffffffff8000000000000000000fc25"
    );
    assert_eq!(report.version, "cancun");
    assert_eq!(report.unknown_opcodes, Vec::<u8>::new());
}

#[test]
fn report_of_a_chain_that_supports_nothing_but_the_fixed_two() {
    let mut results = vec![false; 256];
    results[0x00] = true;
    results[0xFE] = true;
    let report = EVMBloom::new(u64::MAX, &results, &evm_versions()).unwrap();
    assert_eq!(report.chain_id, u64::MAX);
    assert_eq!(
        report.bloom,
        "0x8000000000000000000000000000000000000000000000000000000000000002"
    );
    assert_eq!(report.version, "unknown");
    assert_eq!(report.unknown_opcodes, vec![0x00, 0xFE]);
}

#[test]
fn no_report_without_all_results() {
    let versions = evm_versions();
    assert!(EVMBloom::new(1, &Vec::new(), &versions).is_none());
    assert!(EVMBloom::new(1, &vec![true; 255], &versions).is_none());
    assert!(EVMBloom::new(1, &vec![true; 257], &versions).is_none());
}

#[test]
fn report_from_a_bloom() {
    let mut bloom = Bloom::new();
    bloom.set(0x01, true);
    let report = EVMBloom::from_bloom(42, &bloom, &evm_versions());
    assert_eq!(report.chain_id, 42);
    assert_eq!(
        report.bloom,
        "0x4000000000000000000000000000000000000000000000000000000000000000"
    );
    assert_eq!(report.version, "unknown");
    assert_eq!(report.unknown_opcodes, vec![0x01]);
    assert!(Bloom::from_hex(&report.bloom).unwrap() == bloom);
}
