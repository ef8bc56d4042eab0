//! The report on one chain.

use crate::bloom::{hex_of, Bloom, OPCODE_COUNT};
use crate::versions::{extra_opcodes, find_latest, latest_name, EVMVersion};
use vstd::prelude::*;

verus! {

/// What was found out about the opcode support of one chain.
#[derive(Debug, Clone)]
pub struct EVMBloom {
    /// The chain's identifier.
    pub chain_id: u64,
    /// The text of the chain's bitmap.
    pub bloom: String,
    /// The name of the latest version that the chain is compatible with, or
    /// `unknown`.
    pub version: String,
    /// The opcodes that the chain supports beyond that version, in ascending
    /// order.
    pub unknown_opcodes: Vec<u8>,
}

impl EVMBloom {
    /// Whether this is the report on a chain with the given identifier and
    /// bits, matched against `versions`.
    pub open spec fn reports(
        &self,
        chain_id: u64,
        bits: Seq<bool>,
        versions: Seq<EVMVersion>,
    ) -> bool {
        &&& self.chain_id == chain_id
        &&& self.bloom@ == hex_of(bits)
        &&& self.version@ == latest_name(bits, versions)
        &&& self.unknown_opcodes@ == extra_opcodes(bits, versions)
    }

    /// The report on the chain `chain_id`, given for each opcode, in the
    /// order of the opcodes, whether the chain supports it. There is no
    /// report unless every opcode has its result.
    pub fn new(
        chain_id: u64,
        results: &Vec<bool>,
        versions: &Vec<EVMVersion>,
    ) -> (report: Option<EVMBloom>)
        ensures
            results@.len() == OPCODE_COUNT ==> report is Some
                && report->Some_0.reports(chain_id, results@, versions@),
            results@.len() != OPCODE_COUNT ==> report is None,
    {
        match Bloom::from_results(results) {
            Some(bloom) => Some(EVMBloom::from_bloom(chain_id, &bloom, versions)),
            None => None,
        }
    }

    /// The report on the chain `chain_id` whose bitmap is `bloom`.
    pub fn from_bloom(
        chain_id: u64,
        bloom: &Bloom,
        versions: &Vec<EVMVersion>,
    ) -> (report: EVMBloom)
        ensures
            report.reports(chain_id, bloom@, versions@),
    {
        let (version, unknown_opcodes) = find_latest(bloom, versions);
        EVMBloom { chain_id, bloom: bloom.to_hex(), version, unknown_opcodes }
    }
}

} // verus!
