//! Opcode-support bitmaps for EVM-compatible chains.
//!
//! A chain's support for each of the 256 opcodes is kept as a bitmap
//! ([`Bloom`]). The bitmap is matched against the lineage of protocol
//! versions ([`VersionCatalog`], [`find_latest`]), built from the outcomes of
//! probes ([`check_opcode`], [`classify_outcome`]) or from assembly text
//! ([`scan`]), and checked against a reference ([`verify`]).

pub mod assembly;
pub mod bits;
pub mod bloom;
pub mod chance;
pub mod hexcode;
pub mod hextext;
pub mod opcodes;
pub mod packing;
pub mod probe;
pub mod report;
pub mod text;
pub mod versions;

pub use assembly::{
    check_asm_line, match_line, match_normalized, match_uppercase, normalize_line, scan,
    strip_underscores, verify, verify_project_bloom_filter,
};
pub use bloom::{Bloom, HexError};
pub use opcodes::{mnemonic, OpcodeTable};
pub use probe::{
    check_opcode, classify_error, classify_outcome, plan_probe, CallOutcome, Classification,
    ErrorPatterns, ProbeRequest, ProbeStep,
};
pub use report::EVMBloom;
pub use versions::{evm_versions, find_latest, EVMVersion, VersionCatalog};
