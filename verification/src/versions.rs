//! The lineage of EVM protocol versions and the search for the latest
//! version that a bitmap is compatible with.

use crate::bits::{or_bits, xor_bits};
use crate::bloom::{all_opcodes, bit_set_in, covers, set_opcodes, Bloom, OPCODE_COUNT};
use crate::packing::{lemma_unpack_pack, pack};
use vstd::prelude::*;

verus! {

/// How many versions the lineage has.
pub const VERSION_COUNT: usize = 12;

/// A named protocol version and the opcodes it defines.
#[derive(Debug, Clone)]
pub struct EVMVersion {
    /// The name of the version.
    pub name: String,
    /// The opcodes that the version defines.
    pub bloom: Bloom,
}

/// Whether the first version of the lineage defines `opcode`.
///
/// `INVALID` (`0xFE`) is absent on purpose: it is the instruction that no
/// version assigns, so no version of the lineage lists it.
pub open spec fn in_frontier(opcode: u8) -> bool {
    ||| opcode <= 0x0B
    ||| 0x10 <= opcode <= 0x1A
    ||| opcode == 0x20
    ||| 0x30 <= opcode <= 0x3C
    ||| 0x40 <= opcode <= 0x45
    ||| 0x50 <= opcode <= 0x5B
    ||| 0x60 <= opcode <= 0xA4
    ||| 0xF0 <= opcode <= 0xF3
    ||| opcode == 0xFF
}

/// The position in the lineage of the version that introduced `opcode`, or
/// `None` for an opcode that no version defines.
pub open spec fn introduced_in(opcode: u8) -> Option<int> {
    if in_frontier(opcode) {
        Some(0)
    } else if opcode == 0xF4 {
        Some(1)
    } else if opcode == 0x3D || opcode == 0x3E || opcode == 0xFA || opcode == 0xFD {
        Some(4)
    } else if 0x1B <= opcode <= 0x1D || opcode == 0x3F || opcode == 0xF5 {
        Some(5)
    } else if opcode == 0x46 || opcode == 0x47 {
        Some(6)
    } else if opcode == 0x48 {
        Some(8)
    } else if opcode == 0x5F {
        Some(10)
    } else if opcode == 0x49 || opcode == 0x4A || 0x5C <= opcode <= 0x5E {
        Some(11)
    } else {
        None
    }
}

/// Whether the version at position `k` of the lineage defines `opcode`:
/// a version defines what was introduced by it or before it.
pub open spec fn version_defines(k: int, opcode: u8) -> bool {
    introduced_in(opcode) matches Some(first) && first <= k
}

/// The bits of the version at position `k` of the lineage.
pub open spec fn version_bits(k: int) -> Seq<bool> {
    Seq::new(OPCODE_COUNT as nat, |i: int| version_defines(k, i as u8))
}

/// The name of the version at position `k` of the lineage.
pub open spec fn version_name(k: int) -> Seq<char> {
    if k == 0 {
        "frontier"@
    } else if k == 1 {
        "homestead"@
    } else if k == 2 {
        "tangerine_whistle"@
    } else if k == 3 {
        "spurious_dragon"@
    } else if k == 4 {
        "byzantium"@
    } else if k == 5 {
        "constantinople"@
    } else if k == 6 {
        "instanbul"@
    } else if k == 7 {
        "berlin"@
    } else if k == 8 {
        "london"@
    } else if k == 9 {
        "merge"@
    } else if k == 10 {
        "shanghai"@
    } else {
        "cancun"@
    }
}

/// Whether `versions` is the lineage: every version in order, under its name
/// and with its bits.
pub open spec fn is_evm_lineage(versions: Seq<EVMVersion>) -> bool {
    &&& versions.len() == VERSION_COUNT
    &&& forall|k: int|
        0 <= k < VERSION_COUNT ==> (#[trigger] versions[k]).name@ == version_name(k)
            && versions[k].bloom@ == version_bits(k)
}

/// The position of the last version of `versions` whose every opcode is set
/// in `bits`, or `None` when there is no such version.
pub open spec fn latest_match(bits: Seq<bool>, versions: Seq<EVMVersion>) -> Option<int>
    decreases versions.len(),
{
    if versions.len() == 0 {
        None
    } else if covers(bits, versions.last().bloom@) {
        Some(versions.len() - 1)
    } else {
        latest_match(bits, versions.drop_last())
    }
}

/// The name reported for `bits`: that of the latest matching version, or
/// `unknown`.
pub open spec fn latest_name(bits: Seq<bool>, versions: Seq<EVMVersion>) -> Seq<char> {
    match latest_match(bits, versions) {
        Some(k) => versions[k].name@,
        None => "unknown"@,
    }
}

/// The opcodes reported for `bits` beyond the latest matching version: the
/// set bits of the XOR with that version, or every set bit when no version
/// matches.
pub open spec fn extra_opcodes(bits: Seq<bool>, versions: Seq<EVMVersion>) -> Seq<u8> {
    match latest_match(bits, versions) {
        Some(k) => set_opcodes(xor_bits(bits, versions[k].bloom@)),
        None => set_opcodes(bits),
    }
}

/// Appends a version with the given name and a copy of `bloom`.
fn push_version(versions: &mut Vec<EVMVersion>, name: &str, bloom: &Bloom)
    ensures
        final(versions)@.len() == old(versions)@.len() + 1,
        final(versions)@.drop_last() == old(versions)@,
        final(versions)@.last().name@ == name@,
        final(versions)@.last().bloom@ == bloom@,
{
    let version = EVMVersion { name: String::from_str(name), bloom: bloom.clone() };
    versions.push(version);
    assert(versions@.drop_last() =~= old(versions)@);
}

/// The lineage, oldest version first. Each version has the opcodes of the
/// one before it and those it introduced.
pub fn evm_versions() -> (versions: Vec<EVMVersion>)
    ensures
        is_evm_lineage(versions@),
{
    let mut versions: Vec<EVMVersion> = Vec::new();

    let mut bloom = Bloom::new();
    bloom.set_range(0x00, 0x0B);  // STOP .. SIGNEXTEND
    bloom.set_range(0x10, 0x1A);  // LT .. BYTE
    bloom.set(0x20, true);  // KECCAK256
    bloom.set_range(0x30, 0x3C);  // ADDRESS .. EXTCODECOPY
    bloom.set_range(0x40, 0x45);  // BLOCKHASH .. GASLIMIT
    bloom.set_range(0x50, 0x5B);  // POP .. JUMPDEST
    bloom.set_range(0x60, 0x7F);  // PUSH1 .. PUSH32
    bloom.set_range(0x80, 0x8F);  // DUP1 .. DUP16
    bloom.set_range(0x90, 0x9F);  // SWAP1 .. SWAP16
    bloom.set_range(0xA0, 0xA4);  // LOG0 .. LOG4
    bloom.set_range(0xF0, 0xF3);  // CREATE, CALL, CALLCODE, RETURN
    bloom.set(0xFF, true);  // SELFDESTRUCT
    assert(bloom@ =~= version_bits(0));
    push_version(&mut versions, "frontier", &bloom);

    bloom.set(0xF4, true);  // DELEGATECALL
    assert(bloom@ =~= version_bits(1));
    push_version(&mut versions, "homestead", &bloom);

    assert(bloom@ =~= version_bits(2));
    push_version(&mut versions, "tangerine_whistle", &bloom);

    assert(bloom@ =~= version_bits(3));
    push_version(&mut versions, "spurious_dragon", &bloom);

    bloom.set(0x3D, true);  // RETURNDATASIZE
    bloom.set(0x3E, true);  // RETURNDATACOPY
    bloom.set(0xFA, true);  // STATICCALL
    bloom.set(0xFD, true);  // REVERT
    assert(bloom@ =~= version_bits(4));
    push_version(&mut versions, "byzantium", &bloom);

    bloom.set(0x1B, true);  // SHL
    bloom.set(0x1C, true);  // SHR
    bloom.set(0x1D, true);  // SAR
    bloom.set(0x3F, true);  // EXTCODEHASH
    bloom.set(0xF5, true);  // CREATE2
    assert(bloom@ =~= version_bits(5));
    push_version(&mut versions, "constantinople", &bloom);

    bloom.set(0x46, true);  // CHAINID
    bloom.set(0x47, true);  // SELFBALANCE
    assert(bloom@ =~= version_bits(6));
    push_version(&mut versions, "instanbul", &bloom);

    assert(bloom@ =~= version_bits(7));
    push_version(&mut versions, "berlin", &bloom);

    bloom.set(0x48, true);  // BASEFEE
    assert(bloom@ =~= version_bits(8));
    push_version(&mut versions, "london", &bloom);

    assert(bloom@ =~= version_bits(9));
    push_version(&mut versions, "merge", &bloom);

    bloom.set(0x5F, true);  // PUSH0
    assert(bloom@ =~= version_bits(10));
    push_version(&mut versions, "shanghai", &bloom);

    bloom.set(0x49, true);  // BLOBHASH
    bloom.set(0x4A, true);  // BLOBBASEFEE
    bloom.set(0x5C, true);  // TLOAD
    bloom.set(0x5D, true);  // TSTORE
    bloom.set(0x5E, true);  // MCOPY
    assert(bloom@ =~= version_bits(11));
    push_version(&mut versions, "cancun", &bloom);

    versions
}

/// Finds the latest version of `versions` that `bloom` is compatible with:
/// the last one whose every opcode `bloom` supports, tested as
/// `bloom | version == bloom`. Returns its name, or `unknown` when there is
/// none, and the opcodes that `bloom` supports beyond it, in ascending order.
pub fn find_latest(bloom: &Bloom, versions: &Vec<EVMVersion>) -> (found: (String, Vec<u8>))
    ensures
        found.0@ == latest_name(bloom@, versions@),
        found.1@ == extra_opcodes(bloom@, versions@),
{
    let mut latest: Option<usize> = None;
    let mut i: usize = 0;
    assert(versions@.take(0) =~= Seq::<EVMVersion>::empty());
    while i < versions.len()
        invariant
            i <= versions@.len(),
            latest matches Some(k) ==> k < i,
            latest_match(bloom@, versions@.take(i as int)) == match latest {
                Some(k) => Some(k as int),
                None => None,
            },
        decreases versions@.len() - i,
    {
        proof {
            let next = versions@.take(i + 1);
            assert(next.last() == versions@[i as int]);
            assert(next.drop_last() =~= versions@.take(i as int));
        }
        if bloom.is_superset_of(&versions[i].bloom) {
            latest = Some(i);
        }
        i += 1;
    }
    assert(versions@.take(versions@.len() as int) =~= versions@);
    match latest {
        Some(k) => {
            let mut beyond = bloom.clone();
            beyond.xor(&versions[k].bloom);
            (versions[k].name.clone(), beyond.opcodes())
        },
        None => (String::from_str("unknown"), bloom.opcodes()),
    }
}

/// Whether each version of `versions` has every opcode of the one before it.
pub open spec fn is_monotonic(versions: Seq<EVMVersion>) -> bool {
    forall|n: int|
        0 <= n && n + 1 < versions.len() ==> covers(
            (#[trigger] versions[n + 1]).bloom@,
            versions[n].bloom@,
        )
}

/// An ordered lineage of versions in which every version has all the opcodes
/// of the one before it. A catalog is built once and only read afterwards.
#[derive(Debug)]
pub struct VersionCatalog {
    versions: Vec<EVMVersion>,
}

impl View for VersionCatalog {
    type V = Seq<EVMVersion>;

    closed spec fn view(&self) -> Seq<EVMVersion> {
        self.versions@
    }
}

impl VersionCatalog {
    /// Versions only ever add opcodes.
    #[verifier::type_invariant]
    pub open spec fn well_formed(&self) -> bool {
        is_monotonic(self@)
    }

    /// The catalog of the EVM's own lineage.
    pub fn evm() -> (catalog: VersionCatalog)
        ensures
            is_evm_lineage(catalog@),
    {
        let versions = evm_versions();
        proof {
            assert forall|n: int| 0 <= n && n + 1 < versions@.len() implies covers(
                (#[trigger] versions@[n + 1]).bloom@,
                versions@[n].bloom@,
            ) by {
                lemma_lineage_is_monotonic(versions@, n);
            }
        }
        VersionCatalog { versions }
    }

    /// The catalog of `versions`, if each of them has every opcode of the
    /// one before it; `None` if one of them lacks such an opcode.
    pub fn from_versions(versions: Vec<EVMVersion>) -> (catalog: Option<VersionCatalog>)
        ensures
            is_monotonic(versions@) ==> catalog is Some && catalog->Some_0@ == versions@,
            !is_monotonic(versions@) ==> catalog is None,
    {
        let mut n: usize = 1;
        while n < versions.len()
            invariant
                1 <= n,
                forall|m: int|
                    0 <= m && m + 1 < n ==> covers(
                        (#[trigger] versions@[m + 1]).bloom@,
                        versions@[m].bloom@,
                    ),
            decreases versions@.len() - n,
        {
            if !versions[n].bloom.is_superset_of(&versions[n - 1].bloom) {
                assert(!covers(versions@[(n - 1) + 1].bloom@, versions@[n - 1].bloom@));
                return None;
            }
            n += 1;
        }
        Some(VersionCatalog { versions })
    }

    /// The versions of the catalog, oldest first.
    pub fn versions(&self) -> (versions: &Vec<EVMVersion>)
        ensures
            versions@ == self@,
            is_monotonic(versions@),
    {
        proof {
            use_type_invariant(self);
        }
        &self.versions
    }

    /// Finds the latest version of the catalog that `bloom` is compatible
    /// with, as `find_latest` does for any list of versions. In a catalog
    /// every version before that one matches as well.
    pub fn find_latest(&self, bloom: &Bloom) -> (found: (String, Vec<u8>))
        ensures
            found.0@ == latest_name(bloom@, self@),
            found.1@ == extra_opcodes(bloom@, self@),
            latest_match(bloom@, self@) matches Some(k) ==> forall|j: int|
                0 <= j <= k ==> covers(bloom@, (#[trigger] self@[j]).bloom@),
    {
        proof {
            use_type_invariant(self);
            use_type_invariant(bloom);
            lemma_latest_match_is_last(bloom@, self@);
            if latest_match(bloom@, self@) is Some {
                let k = latest_match(bloom@, self@)->Some_0;
                assert forall|j: int| 0 <= j <= k implies covers(
                    bloom@,
                    (#[trigger] self@[j]).bloom@,
                ) by {
                    lemma_earlier_versions_match(bloom@, self@, j, k);
                }
            }
        }
        find_latest(bloom, &self.versions)
    }
}

/// In a lineage where versions only add opcodes, a bitmap that has every
/// opcode of a version has every opcode of each earlier version.
pub proof fn lemma_earlier_versions_match(
    bits: Seq<bool>,
    versions: Seq<EVMVersion>,
    j: int,
    k: int,
)
    requires
        is_monotonic(versions),
        0 <= j <= k < versions.len(),
        covers(bits, versions[k].bloom@),
    ensures
        covers(bits, versions[j].bloom@),
    decreases k - j,
{
    if j < k {
        assert(covers(versions[(k - 1) + 1].bloom@, versions[k - 1].bloom@));
        assert(covers(bits, versions[k - 1].bloom@));
        lemma_earlier_versions_match(bits, versions, j, k - 1);
    }
}

/// What `latest_match` finds is the last version that `bits` covers: it is
/// covered and no later one is; and it finds none only when none is covered.
pub proof fn lemma_latest_match_is_last(bits: Seq<bool>, versions: Seq<EVMVersion>)
    ensures
        match latest_match(bits, versions) {
            Some(k) => {
                &&& 0 <= k < versions.len()
                &&& covers(bits, versions[k].bloom@)
                &&& forall|j: int| k < j < versions.len() ==> !covers(bits, versions[j].bloom@)
            },
            None => forall|j: int| 0 <= j < versions.len() ==> !covers(bits, versions[j].bloom@),
        },
    decreases versions.len(),
{
    if versions.len() > 0 && !covers(bits, versions.last().bloom@) {
        let shorter = versions.drop_last();
        lemma_latest_match_is_last(bits, shorter);
        assert forall|j: int| 0 <= j < shorter.len() implies shorter[j] == versions[j] by {}
    }
}

/// Each version of the lineage has every opcode of the version before it:
/// OR-ing the earlier one into the later one changes nothing.
pub proof fn lemma_lineage_is_monotonic(versions: Seq<EVMVersion>, n: int)
    requires
        is_evm_lineage(versions),
        0 <= n,
        n + 1 < VERSION_COUNT,
    ensures
        covers(versions[n + 1].bloom@, versions[n].bloom@),
        or_bits(versions[n + 1].bloom@, versions[n].bloom@) == versions[n + 1].bloom@,
{
    let later = versions[n + 1].bloom@;
    let earlier = versions[n].bloom@;
    assert(later == version_bits(n + 1) && earlier == version_bits(n));
    assert(or_bits(later, earlier) =~= later);
}

/// The bits of the last version of the lineage, packed into bytes.
pub open spec fn cancun_bytes() -> Seq<u8> {
    seq![
        0xFFu8, 0xF0, 0xFF, 0xFC, 0x80, 0x00, 0xFF, 0xFF,
        0xFF, 0xE0, 0xFF, 0xFF, 0xFF, 0xFF, 0xFF, 0xFF,
        0xFF, 0xFF, 0xFF, 0xFF, 0xF8, 0x00, 0x00, 0x00,
        0x00, 0x00, 0x00, 0x00, 0x00, 0x00, 0xFC, 0x25,
    ]
}

/// The last version of the lineage packs into exactly `cancun_bytes`.
pub proof fn lemma_cancun_bytes()
    ensures
        pack(version_bits(11)) == cancun_bytes(),
{
    let bits = version_bits(11);
    let bytes = pack(bits);
    assert(bytes.len() == 32);
    assert(bytes[0] == 0xFF && bytes[1] == 0xF0 && bytes[2] == 0xFF && bytes[3] == 0xFC);
    assert(bytes[4] == 0x80 && bytes[5] == 0x00 && bytes[6] == 0xFF && bytes[7] == 0xFF);
    assert(bytes[8] == 0xFF && bytes[9] == 0xE0 && bytes[10] == 0xFF && bytes[11] == 0xFF);
    assert(bytes[12] == 0xFF && bytes[13] == 0xFF && bytes[14] == 0xFF && bytes[15] == 0xFF);
    assert(bytes[16] == 0xFF && bytes[17] == 0xFF && bytes[18] == 0xFF && bytes[19] == 0xFF);
    assert(bytes[20] == 0xF8 && bytes[21] == 0x00 && bytes[22] == 0x00 && bytes[23] == 0x00);
    assert(bytes[24] == 0x00 && bytes[25] == 0x00 && bytes[26] == 0x00 && bytes[27] == 0x00);
    assert(bytes[28] == 0x00 && bytes[29] == 0x00 && bytes[30] == 0xFC && bytes[31] == 0x25);
    assert(bytes =~= cancun_bytes());
}

/// A bitmap that packs into `cancun_bytes` is reported as `cancun`, with no
/// opcode beyond it.
pub proof fn lemma_cancun_is_latest(bits: Seq<bool>, versions: Seq<EVMVersion>)
    requires
        is_evm_lineage(versions),
        bits.len() == OPCODE_COUNT,
        pack(bits) == cancun_bytes(),
    ensures
        latest_name(bits, versions) == "cancun"@,
        extra_opcodes(bits, versions) == Seq::<u8>::empty(),
{
    lemma_cancun_bytes();
    lemma_unpack_pack(bits);
    lemma_unpack_pack(version_bits(11));
    assert(bits == version_bits(11));
    assert(versions.last() == versions[11]);
    assert(latest_match(bits, versions) == Some(11int));
    let beyond = xor_bits(bits, versions[11].bloom@);
    assert forall|i: int| 0 <= i < all_opcodes().len() implies !bit_set_in(beyond)(
        #[trigger] all_opcodes()[i],
    ) by {}
    all_opcodes().lemma_all_neg_filter_empty(bit_set_in(beyond));
    assert(set_opcodes(beyond) =~= Seq::<u8>::empty());
}

} // verus!
