//! The decisions of an opcode probe: whether an opcode needs a simulated
//! deployment at all, what is sent, and what the answer means.
//!
//! The calls themselves are made elsewhere. This module says what to send
//! for an opcode and classifies what came back.

use crate::chance::random_between;
use crate::text::{contains, occurs_in, texts};
use vstd::prelude::*;

verus! {

/// The opcode `STOP`.
pub const STOP: u8 = 0x00;

/// The opcode `INVALID`.
pub const INVALID: u8 = 0xFE;

/// How many bytes an address has.
pub const ADDRESS_BYTES: usize = 20;

/// The least factor by which the delay before a call is scaled.
pub const DELAY_FACTOR_MIN: u32 = 1;

/// The bound that the factor of a delay stays below.
pub const DELAY_FACTOR_BOUND: u32 = 1000;

/// Whether `opcode` counts as supported without being probed: every EVM
/// defines `STOP` and `INVALID`.
pub open spec fn is_always_supported(opcode: u8) -> bool {
    opcode == STOP || opcode == INVALID
}

/// The address that probes are sent from: twenty zero bytes.
pub open spec fn zero_address() -> Seq<u8> {
    Seq::new(ADDRESS_BYTES as nat, |i: int| 0u8)
}

/// The simulated deployment that probes one opcode.
#[derive(Debug, Clone)]
pub struct ProbeRequest {
    /// How long to wait before the call, in milliseconds.
    pub delay_millis: u64,
    /// The sender of the transaction.
    pub from: Vec<u8>,
    /// The recipient; `None` makes the transaction a contract creation.
    pub to: Option<Vec<u8>>,
    /// The code to deploy.
    pub data: Vec<u8>,
}

/// What to do about one opcode.
#[derive(Debug, Clone)]
pub enum ProbeStep {
    /// Nothing is sent: whether the opcode is supported is known.
    Resolved(bool),
    /// The request is to be simulated, and its outcome classified.
    Simulate(ProbeRequest),
}

/// Whether `step` is the step for `opcode` when its delay is scaled by
/// `factor`: `STOP` and `INVALID` are resolved as supported without a call;
/// any other opcode is probed by deploying, from the zero address, a contract
/// whose whole code is that opcode, after `factor * opcode` milliseconds.
pub open spec fn is_step_for(step: ProbeStep, opcode: u8, factor: int) -> bool {
    if is_always_supported(opcode) {
        step == ProbeStep::Resolved(true)
    } else {
        &&& step matches ProbeStep::Simulate(request)
        &&& request.delay_millis == factor * opcode
        &&& request.from@ == zero_address()
        &&& request.to is None
        &&& request.data@ == seq![opcode]
    }
}

/// The outcome of a simulated deployment.
#[derive(Debug, Clone)]
pub enum CallOutcome {
    /// The call returned a result.
    Success,
    /// The call failed, with this error text.
    Failure(String),
}

/// What the outcome of a probe says about its opcode.
#[derive(Debug, Clone, Copy, PartialEq, Eq)]
pub enum Classification {
    /// The chain recognises the opcode.
    Supported,
    /// The chain refused the opcode in known words.
    Unsupported,
    /// The error is not a known one. The opcode counts as unsupported, and
    /// the error deserves a look.
    Unclassified,
}

/// The words by which errors are told apart.
#[derive(Debug, Clone)]
pub struct ErrorPatterns {
    /// Errors that show that the opcode was recognised and that only its
    /// execution failed.
    pub supported: Vec<String>,
    /// Errors that show that the opcode was refused.
    pub unsupported: Vec<String>,
}

/// Whether one of `patterns` stands in `text`.
pub open spec fn any_occurs(patterns: Seq<Seq<char>>, text: Seq<char>) -> bool {
    exists|i: int| 0 <= i < patterns.len() && occurs_in(#[trigger] patterns[i], text)
}

/// What an error text says: supported when it holds a pattern of recognised
/// opcodes, else unsupported when it holds a pattern of refused ones, else
/// unclassified.
pub open spec fn classification_of(
    text: Seq<char>,
    supported: Seq<Seq<char>>,
    unsupported: Seq<Seq<char>>,
) -> Classification {
    if any_occurs(supported, text) {
        Classification::Supported
    } else if any_occurs(unsupported, text) {
        Classification::Unsupported
    } else {
        Classification::Unclassified
    }
}

/// What an outcome says: a success shows support, a failure is classified by
/// its text.
pub open spec fn outcome_class(outcome: CallOutcome, patterns: ErrorPatterns) -> Classification {
    match outcome {
        CallOutcome::Success => Classification::Supported,
        CallOutcome::Failure(text) => classification_of(
            text@,
            texts(patterns.supported@),
            texts(patterns.unsupported@),
        ),
    }
}

/// The patterns of recognised opcodes in use by default.
pub open spec fn standard_supported() -> Seq<Seq<char>> {
    seq!["stack underflow"@, "StackUnderflow"@]
}

/// The patterns of refused opcodes in use by default.
pub open spec fn standard_unsupported() -> Seq<Seq<char>> {
    seq!["invalid opcode"@, "not supported"@]
}

impl Classification {
    /// Whether the opcode goes into the bitmap as supported.
    pub fn is_supported(&self) -> (supported: bool)
        ensures
            supported == (*self == Classification::Supported),
    {
        match self {
            Classification::Supported => true,
            Classification::Unsupported => false,
            Classification::Unclassified => false,
        }
    }

    /// Whether the error behind this classification should be reported to
    /// the operator.
    pub fn needs_attention(&self) -> (noteworthy: bool)
        ensures
            noteworthy == (*self == Classification::Unclassified),
    {
        match self {
            Classification::Supported => false,
            Classification::Unsupported => false,
            Classification::Unclassified => true,
        }
    }
}

impl ErrorPatterns {
    /// The patterns in use by default.
    pub fn standard() -> (patterns: ErrorPatterns)
        ensures
            texts(patterns.supported@) == standard_supported(),
            texts(patterns.unsupported@) == standard_unsupported(),
    {
        let mut supported: Vec<String> = Vec::new();
        supported.push(String::from_str("stack underflow"));
        supported.push(String::from_str("StackUnderflow"));
        let mut unsupported: Vec<String> = Vec::new();
        unsupported.push(String::from_str("invalid opcode"));
        unsupported.push(String::from_str("not supported"));
        assert(texts(supported@) =~= standard_supported());
        assert(texts(unsupported@) =~= standard_unsupported());
        ErrorPatterns { supported, unsupported }
    }
}

/// Whether one of `patterns` stands in `text`.
fn holds_any(text: &str, patterns: &Vec<String>) -> (found: bool)
    ensures
        found == any_occurs(texts(patterns@), text@),
{
    let mut i: usize = 0;
    while i < patterns.len()
        invariant
            i <= patterns@.len(),
            forall|j: int| 0 <= j < i ==> !occurs_in(#[trigger] texts(patterns@)[j], text@),
        decreases patterns@.len() - i,
    {
        if contains(text, patterns[i].as_str()) {
            assert(occurs_in(texts(patterns@)[i as int], text@));
            return true;
        }
        i += 1;
    }
    false
}

/// Classifies the error text of a failed call.
pub fn classify_error(text: &str, patterns: &ErrorPatterns) -> (class: Classification)
    ensures
        class == classification_of(
            text@,
            texts(patterns.supported@),
            texts(patterns.unsupported@),
        ),
{
    if holds_any(text, &patterns.supported) {
        Classification::Supported
    } else if holds_any(text, &patterns.unsupported) {
        Classification::Unsupported
    } else {
        Classification::Unclassified
    }
}

/// Classifies the outcome of a simulated deployment.
pub fn classify_outcome(outcome: &CallOutcome, patterns: &ErrorPatterns) -> (class: Classification)
    ensures
        class == outcome_class(*outcome, *patterns),
{
    match outcome {
        CallOutcome::Success => Classification::Supported,
        CallOutcome::Failure(text) => classify_error(text.as_str(), patterns),
    }
}

/// The step for `opcode` when its delay is scaled by `factor`.
pub fn plan_probe(opcode: u8, factor: u32) -> (step: ProbeStep)
    ensures
        is_step_for(step, opcode, factor as int),
{
    if opcode == STOP || opcode == INVALID {
        return ProbeStep::Resolved(true);
    }
    let mut from: Vec<u8> = Vec::new();
    let mut i: usize = 0;
    while i < ADDRESS_BYTES
        invariant
            i <= ADDRESS_BYTES,
            from@.len() == i,
            forall|j: int| 0 <= j < i ==> from@[j] == 0u8,
        decreases ADDRESS_BYTES - i,
    {
        from.push(0u8);
        i += 1;
    }
    assert(from@ =~= zero_address());
    let mut data: Vec<u8> = Vec::new();
    data.push(opcode);
    assert(data@ =~= seq![opcode]);
    assert(factor as int * opcode as int <= u32::MAX as int * 255) by (nonlinear_arith)
        requires
            0 <= factor as int <= u32::MAX as int,
            0 <= opcode as int <= 255,
    ;
    let delay_millis: u64 = (factor as u64) * (opcode as u64);
    ProbeStep::Simulate(ProbeRequest { delay_millis, from, to: None, data })
}

/// The step for `opcode`, with a delay scaled by a factor that is drawn at
/// random from `DELAY_FACTOR_MIN` up to, but not including,
/// `DELAY_FACTOR_BOUND`.
pub fn check_opcode(opcode: u8) -> (step: ProbeStep)
    ensures
        exists|factor: int|
            DELAY_FACTOR_MIN <= factor < DELAY_FACTOR_BOUND && #[trigger] is_step_for(
                step,
                opcode,
                factor,
            ),
{
    let factor: u32 = random_between(DELAY_FACTOR_MIN, DELAY_FACTOR_BOUND);
    let step = plan_probe(opcode, factor);
    assert(is_step_for(step, opcode, factor as int));
    step
}

/// An error that holds one of the patterns of recognised opcodes is
/// classified as supported, whatever else it holds.
pub proof fn lemma_recognised_is_supported(
    text: Seq<char>,
    supported: Seq<Seq<char>>,
    unsupported: Seq<Seq<char>>,
    i: int,
)
    requires
        0 <= i < supported.len(),
        occurs_in(supported[i], text),
    ensures
        classification_of(text, supported, unsupported) == Classification::Supported,
{
}

/// An error that holds one of the patterns of refused opcodes, and none of
/// the recognised ones, is classified as unsupported.
pub proof fn lemma_refused_is_unsupported(
    text: Seq<char>,
    supported: Seq<Seq<char>>,
    unsupported: Seq<Seq<char>>,
    i: int,
)
    requires
        0 <= i < unsupported.len(),
        occurs_in(unsupported[i], text),
        !any_occurs(supported, text),
    ensures
        classification_of(text, supported, unsupported) == Classification::Unsupported,
{
}

/// With the default patterns, an error that mentions a stack underflow is
/// classified as supported.
pub proof fn lemma_stack_underflow_is_supported(text: Seq<char>)
    requires
        occurs_in("stack underflow"@, text),
    ensures
        classification_of(text, standard_supported(), standard_unsupported())
            == Classification::Supported,
{
    lemma_recognised_is_supported(text, standard_supported(), standard_unsupported(), 0);
}

/// With the default patterns, an error that mentions an invalid opcode, and
/// no stack underflow in either spelling, is classified as unsupported.
pub proof fn lemma_invalid_opcode_is_unsupported(text: Seq<char>)
    requires
        occurs_in("invalid opcode"@, text),
        !occurs_in("stack underflow"@, text),
        !occurs_in("StackUnderflow"@, text),
    ensures
        classification_of(text, standard_supported(), standard_unsupported())
            == Classification::Unsupported,
{
    lemma_refused_is_unsupported(text, standard_supported(), standard_unsupported(), 0);
}

/// `STOP` and `INVALID` are resolved as supported without a call, whatever
/// the factor.
pub proof fn lemma_stop_and_invalid_need_no_call(step: ProbeStep, opcode: u8, factor: int)
    requires
        opcode == STOP || opcode == INVALID,
        is_step_for(step, opcode, factor),
    ensures
        step == ProbeStep::Resolved(true),
{
}

} // verus!
