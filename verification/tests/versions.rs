use evm_bloomer::{evm_versions, find_latest, Bloom, EVMVersion, VersionCatalog};

const CANCUN_REFERENCE: [u8; 32] = [
    0xFF, 0xF0, 0xFF, 0xFC, 0x80, 0x00, 0xFF, 0xFF, 0xFF, 0xE0, 0xFF, 0xFF, 0xFF, 0xFF, 0xFF, 0xFF,
    0xFF, 0xFF, 0xFF, 0xFF, 0xF8, 0x00, 0x00, 0x00, 0x00, 0x00, 0x00, 0x00, 0x00, 0x00, 0xFC, 0x25,
];

const LINEAGE: [(&str, &str); 12] = [
    ("frontier", "0xfff0ffe08000fff8fc00fff0fffffffffffffffff8000000000000000000f001"),
    ("homestead", "0xfff0ffe08000fff8fc00fff0fffffffffffffffff8000000000000000000f801"),
    ("tangerine_whistle", "0xfff0ffe08000fff8fc00fff0fffffffffffffffff8000000000000000000f801"),
    ("spurious_dragon", "0xfff0ffe08000fff8fc00fff0fffffffffffffffff8000000000000000000f801"),
    ("byzantium", "0xfff0ffe08000fffefc00fff0fffffffffffffffff8000000000000000000f825"),
    ("constantinople", "0xfff0fffc8000fffffc00fff0fffffffffffffffff8000000000000000000fc25"),
    ("instanbul", "0xfff0fffc8000ffffff00fff0fffffffffffffffff8000000000000000000fc25"),
    ("berlin", "0xfff0fffc8000ffffff00fff0fffffffffffffffff8000000000000000000fc25"),
    ("london", "0xfff0fffc8000ffffff80fff0fffffffffffffffff8000000000000000000fc25"),
    ("merge", "0xfff0fffc8000ffffff80fff0fffffffffffffffff8000000000000000000fc25"),
    ("shanghai", "0xfff0fffc8000ffffff80fff1fffffffffffffffff8000000000000000000fc25"),
    ("cancun", "0xfff0fffc8000ffffffe0fffffffffffffffffffff8000000000000000000fc25"),
];

fn version_bloom(name: &str) -> Bloom {
    let versions = evm_versions();
    let version = versions.iter().find(|version| version.name == name).unwrap();
    version.bloom.clone()
}

fn bloom_of(opcodes: &[u8]) -> Bloom {
    let mut bloom = Bloom::new();
    for opcode in opcodes {
        bloom.set(*opcode, true);
    }
    bloom
}

#[test]
fn lineage_has_twelve_versions_in_order() {
    let versions = evm_versions();
    assert_eq!(versions.len(), 12);
    for (version, (name, _)) in versions.iter().zip(LINEAGE.iter()) {
        assert_eq!(version.name, *name);
    }
}

#[test]
fn lineage_has_the_expected_bitmaps() {
    let versions = evm_versions();
    for (version, (name, hex)) in versions.iter().zip(LINEAGE.iter()) {
        assert_eq!(version.bloom.to_hex(), *hex, "bitmap of {}", name);
    }
}

#[test]
fn frontier_knows_the_first_opcodes_only() {
    let frontier = version_bloom("frontier");
    assert!(frontier.get(0x00));
    assert!(frontier.get(0x0B));
    assert!(!frontier.get(0x0C));
    assert!(frontier.get(0x1A));
    assert!(!frontier.get(0x1B));
    assert!(frontier.get(0xA4));
    assert!(!frontier.get(0xA5));
    assert!(frontier.get(0xF3));
    assert!(!frontier.get(0xF4));
    assert!(!frontier.get(0xFE));
    assert!(frontier.get(0xFF));
    assert_eq!(frontier.opcodes().len(), 129);
}

#[test]
fn each_version_adds_its_own_opcodes() {
    let versions = evm_versions();
    let added: [&[u8]; 12] = [
        &[],
        &[0xF4],
        &[],
        &[],
        &[0x3D, 0x3E, 0xFA, 0xFD],
        &[0x1B, 0x1C, 0x1D, 0x3F, 0xF5],
        &[0x46, 0x47],
        &[],
        &[0x48],
        &[],
        &[0x5F],
        &[0x49, 0x4A, 0x5C, 0x5D, 0x5E],
    ];
    for n in 1..versions.len() {
        let mut delta = versions[n].bloom.clone();
        delta.xor(&versions[n - 1].bloom);
        assert_eq!(delta.opcodes(), added[n].to_vec(), "added by {}", versions[n].name);
    }
}

#[test]
fn each_version_is_a_superset_of_the_one_before() {
    let versions = evm_versions();
    for n in 0..versions.len() - 1 {
        let mut combined = versions[n + 1].bloom.clone();
        combined.or(&versions[n].bloom);
        assert!(combined == versions[n + 1].bloom);
        assert!(versions[n + 1].bloom.is_superset_of(&versions[n].bloom));
    }
}

#[test]
fn cancun_reference_bitmap_is_cancun_with_nothing_extra() {
    let bloom = Bloom::from_bytes(&CANCUN_REFERENCE.to_vec()).unwrap();
    let (version, extra) = find_latest(&bloom, &evm_versions());
    assert_eq!(version, "cancun");
    assert_eq!(extra, Vec::<u8>::new());
}

#[test]
fn cancun_reference_bitmap_is_the_last_version() {
    let bloom = Bloom::from_bytes(&CANCUN_REFERENCE.to_vec()).unwrap();
    assert!(bloom == version_bloom("cancun"));
    assert_eq!(version_bloom("cancun").to_bytes(), CANCUN_REFERENCE.to_vec());
}

#[test]
fn empty_bloom_matches_no_version() {
    let (version, extra) = find_latest(&Bloom::new(), &evm_versions());
    assert_eq!(version, "unknown");
    assert_eq!(extra, Vec::<u8>::new());
}

#[test]
fn unknown_chain_reports_every_set_bit() {
    let bloom = bloom_of(&[0x00, 0x01, 0x60, 0xFE]);
    let (version, extra) = find_latest(&bloom, &evm_versions());
    assert_eq!(version, "unknown");
    assert_eq!(extra, vec![0x00, 0x01, 0x60, 0xFE]);
}

#[test]
fn frontier_minus_one_opcode_is_unknown() {
    let mut bloom = version_bloom("frontier");
    bloom.set(0x01, false);
    let (version, extra) = find_latest(&bloom, &evm_versions());
    assert_eq!(version, "unknown");
    assert_eq!(extra.len(), 128);
    assert!(!extra.contains(&0x01));
}

#[test]
fn exact_frontier_is_frontier() {
    let (version, extra) = find_latest(&version_bloom("frontier"), &evm_versions());
    assert_eq!(version, "frontier");
    assert_eq!(extra, Vec::<u8>::new());
}

#[test]
fn latest_of_equal_versions_wins() {
    let (version, extra) = find_latest(&version_bloom("homestead"), &evm_versions());
    assert_eq!(version, "spurious_dragon");
    assert_eq!(extra, Vec::<u8>::new());
    let (version, _) = find_latest(&version_bloom("london"), &evm_versions());
    assert_eq!(version, "merge");
    let (version, _) = find_latest(&version_bloom("instanbul"), &evm_versions());
    assert_eq!(version, "berlin");
}

#[test]
fn opcodes_beyond_the_match_are_reported_in_order() {
    let mut bloom = version_bloom("cancun");
    bloom.set(0xFE, true);
    bloom.set(0x0C, true);
    bloom.set(0xB0, true);
    let (version, extra) = find_latest(&bloom, &evm_versions());
    assert_eq!(version, "cancun");
    assert_eq!(extra, vec![0x0C, 0xB0, 0xFE]);
}

#[test]
fn partial_upgrade_is_reported_beyond_the_older_version() {
    let mut bloom = version_bloom("shanghai");
    bloom.set(0x5C, true);
    bloom.set(0x5D, true);
    let (version, extra) = find_latest(&bloom, &evm_versions());
    assert_eq!(version, "shanghai");
    assert_eq!(extra, vec![0x5C, 0x5D]);
}

#[test]
fn every_opcode_supported_is_cancun_plus_the_rest() {
    let bloom = Bloom::from_results(&vec![true; 256]).unwrap();
    let (version, extra) = find_latest(&bloom, &evm_versions());
    assert_eq!(version, "cancun");
    assert_eq!(extra.len(), 256 - 148);
    assert!(extra.contains(&0xFE));
    assert!(!extra.contains(&0x00));
}

#[test]
fn no_versions_means_unknown() {
    let bloom = bloom_of(&[1, 2]);
    let (version, extra) = find_latest(&bloom, &Vec::new());
    assert_eq!(version, "unknown");
    assert_eq!(extra, vec![1, 2]);
}

#[test]
fn last_match_wins_in_any_list() {
    let versions = vec![
        EVMVersion { name: String::from("a"), bloom: bloom_of(&[1]) },
        EVMVersion { name: String::from("b"), bloom: bloom_of(&[1, 2, 3]) },
        EVMVersion { name: String::from("c"), bloom: bloom_of(&[2]) },
        EVMVersion { name: String::from("d"), bloom: bloom_of(&[9]) },
    ];
    let (version, extra) = find_latest(&bloom_of(&[1, 2]), &versions);
    assert_eq!(version, "c");
    assert_eq!(extra, vec![1]);
    let (version, extra) = find_latest(&bloom_of(&[1, 2, 3, 4]), &versions);
    assert_eq!(version, "c");
    assert_eq!(extra, vec![1, 3, 4]);
    let (version, extra) = find_latest(&bloom_of(&[1, 9]), &versions);
    assert_eq!(version, "d");
    assert_eq!(extra, vec![1]);
}

#[test]
fn evm_catalog_holds_the_lineage() {
    let catalog = VersionCatalog::evm();
    let versions = catalog.versions();
    assert_eq!(versions.len(), 12);
    for (version, (name, hex)) in versions.iter().zip(LINEAGE.iter()) {
        assert_eq!(version.name, *name);
        assert_eq!(version.bloom.to_hex(), *hex);
    }
}

#[test]
fn catalog_finds_what_the_list_finds() {
    let catalog = VersionCatalog::evm();
    let bloom = Bloom::from_bytes(&CANCUN_REFERENCE.to_vec()).unwrap();
    let (version, extra) = catalog.find_latest(&bloom);
    assert_eq!(version, "cancun");
    assert_eq!(extra, Vec::<u8>::new());
    let mut bloom = version_bloom("byzantium");
    bloom.set(0x0F, true);
    let (version, extra) = catalog.find_latest(&bloom);
    assert_eq!(version, "byzantium");
    assert_eq!(extra, vec![0x0F]);
    let (version, extra) = catalog.find_latest(&bloom_of(&[0x0F]));
    assert_eq!(version, "unknown");
    assert_eq!(extra, vec![0x0F]);
}

#[test]
fn catalog_takes_versions_that_only_add_opcodes() {
    let versions = vec![
        EVMVersion { name: String::from("one"), bloom: bloom_of(&[1]) },
        EVMVersion { name: String::from("two"), bloom: bloom_of(&[1, 2]) },
        EVMVersion { name: String::from("two again"), bloom: bloom_of(&[1, 2]) },
        EVMVersion { name: String::from("three"), bloom: bloom_of(&[1, 2, 3]) },
    ];
    let catalog = VersionCatalog::from_versions(versions).unwrap();
    assert_eq!(catalog.versions().len(), 4);
    let (version, extra) = catalog.find_latest(&bloom_of(&[1, 2, 200]));
    assert_eq!(version, "two again");
    assert_eq!(extra, vec![200]);
    assert!(VersionCatalog::from_versions(Vec::new()).is_some());
    assert!(VersionCatalog::from_versions(evm_versions()).is_some());
}

#[test]
fn catalog_refuses_a_version_that_drops_an_opcode() {
    let versions = vec![
        EVMVersion { name: String::from("one"), bloom: bloom_of(&[1, 2]) },
        EVMVersion { name: String::from("two"), bloom: bloom_of(&[2, 3]) },
    ];
    assert!(VersionCatalog::from_versions(versions).is_none());
    let mut versions = evm_versions();
    versions[5].bloom.set(0x00, false);
    assert!(VersionCatalog::from_versions(versions).is_none());
    let mut versions = evm_versions();
    versions[11].bloom.set(0x5F, false);
    assert!(VersionCatalog::from_versions(versions).is_none());
}
