//! The 256-bit opcode bitmap.

use crate::bits::{
    all_clear, and_bits, bit, bits_of, differ, duplicate, filled, intersect, or_bits, packed, put,
    same_bits, unite, unpacked, xor_bits,
};
use crate::hexcode::{decode_hex, encode_hex};
use crate::hextext::{
    hex_text, hex_value, is_lower_hex, is_lower_hex_char, lemma_hex_text_unhex,
    lemma_unhex_hex_text, unhex,
};
use crate::packing::{lemma_pack_unpack, lemma_unpack_pack, pack, unpack};
use bit_vec::BitVec;
use vstd::prelude::*;
use vstd::std_specs::cmp::PartialEqSpecImpl;

verus! {

/// How many opcodes there are, and so how many bits a bitmap has.
pub const OPCODE_COUNT: usize = 256;

/// How many bytes hold a bitmap.
pub const BLOOM_BYTES: usize = 32;

/// How many characters the text of a bitmap has: the prefix `0x` and two
/// digits for each byte.
pub const BLOOM_HEX_LENGTH: usize = 66;

/// Why a text is not the text of a bitmap.
#[derive(Debug, Clone, Copy, PartialEq, Eq)]
pub enum HexError {
    /// The text does not start with `0x`.
    MissingPrefix,
    /// The prefix is not followed by exactly 64 characters.
    InvalidLength,
    /// One of the 64 characters is not a lowercase hexadecimal digit.
    InvalidCharacter,
}

/// Whether `text` starts with `0x`.
pub open spec fn has_hex_prefix(text: Seq<char>) -> bool {
    text.len() >= 2 && text[0] == '0' && text[1] == 'x'
}

/// The part of `text` behind its two-character prefix.
pub open spec fn hex_digits(text: Seq<char>) -> Seq<char> {
    text.subrange(2, text.len() as int)
}

/// The text of a bitmap: `0x`, then the bits packed into bytes, each byte as
/// two lowercase hexadecimal digits.
pub open spec fn hex_of(bits: Seq<bool>) -> Seq<char> {
    seq!['0', 'x'] + hex_text(pack(bits))
}

/// Whether `text` is the text of some bitmap: `0x` and 64 lowercase
/// hexadecimal digits.
pub open spec fn is_bloom_hex(text: Seq<char>) -> bool {
    &&& has_hex_prefix(text)
    &&& text.len() == BLOOM_HEX_LENGTH
    &&& is_lower_hex(hex_digits(text))
}

/// The bits that the text of a bitmap stands for.
pub open spec fn bits_of_hex(text: Seq<char>) -> Seq<bool> {
    unpack(unhex(hex_digits(text)))
}

/// What reading `text` as a bitmap gives: its bits, or the first reason why
/// it has none.
pub open spec fn parse_hex(text: Seq<char>) -> Result<Seq<bool>, HexError> {
    if !has_hex_prefix(text) {
        Err(HexError::MissingPrefix)
    } else if text.len() != BLOOM_HEX_LENGTH {
        Err(HexError::InvalidLength)
    } else if !is_lower_hex(hex_digits(text)) {
        Err(HexError::InvalidCharacter)
    } else {
        Ok(bits_of_hex(text))
    }
}

/// The bits of the bitmap in which no opcode is supported.
pub open spec fn no_bits() -> Seq<bool> {
    Seq::new(OPCODE_COUNT as nat, |i: int| false)
}

/// Whether `a` has every bit that `b` has.
pub open spec fn covers(a: Seq<bool>, b: Seq<bool>) -> bool {
    forall|i: int| 0 <= i < b.len() ==> (b[i] ==> 0 <= i < a.len() && a[i])
}

/// Whether no bit of `bits` is set.
pub open spec fn is_clear(bits: Seq<bool>) -> bool {
    forall|i: int| 0 <= i < bits.len() ==> !bits[i]
}

/// Every opcode, in ascending order.
pub open spec fn all_opcodes() -> Seq<u8> {
    Seq::new(OPCODE_COUNT as nat, |i: int| i as u8)
}

/// Whether the bit of an opcode is set in `bits`, as a predicate on opcodes.
pub open spec fn bit_set_in(bits: Seq<bool>) -> spec_fn(u8) -> bool {
    |opcode: u8| bits[opcode as int]
}

/// The opcodes whose bit is set in `bits`, in ascending order.
pub open spec fn set_opcodes(bits: Seq<bool>) -> Seq<u8> {
    all_opcodes().filter(bit_set_in(bits))
}

/// A bitmap with one bit per opcode: bit `i` is set when opcode `i` is
/// supported.
#[derive(Debug)]
pub struct Bloom {
    bits: BitVec,
}

impl View for Bloom {
    type V = Seq<bool>;

    closed spec fn view(&self) -> Seq<bool> {
        bits_of(self.bits)
    }
}

impl Bloom {
    /// Every bitmap has exactly one bit per opcode.
    #[verifier::type_invariant]
    pub open spec fn well_formed(&self) -> bool {
        self@.len() == OPCODE_COUNT
    }

    /// The bitmap in which no opcode is supported.
    pub fn new() -> (bloom: Bloom)
        ensures
            bloom@ == no_bits(),
    {
        Bloom { bits: filled(OPCODE_COUNT, false) }
    }

    /// The bitmap whose bit `i` is `results[i]`, for results that cover every
    /// opcode exactly once; `None` for any other number of results.
    pub fn from_results(results: &Vec<bool>) -> (bloom: Option<Bloom>)
        ensures
            results@.len() == OPCODE_COUNT ==> bloom is Some && bloom->Some_0@ == results@,
            results@.len() != OPCODE_COUNT ==> bloom is None,
    {
        if results.len() != OPCODE_COUNT {
            return None;
        }
        let mut bloom = Bloom::new();
        let mut i: usize = 0;
        while i < OPCODE_COUNT
            invariant
                i <= OPCODE_COUNT,
                results@.len() == OPCODE_COUNT,
                bloom@.len() == OPCODE_COUNT,
                forall|j: int| 0 <= j < i ==> bloom@[j] == results@[j],
            decreases OPCODE_COUNT - i,
        {
            bloom.set(i as u8, results[i]);
            i += 1;
        }
        assert(bloom@ =~= results@);
        Some(bloom)
    }

    /// The bitmap whose bits are those of `bytes`, the most significant bit
    /// of the first byte being the bit of opcode 0; `None` unless there are
    /// exactly 32 bytes.
    pub fn from_bytes(bytes: &Vec<u8>) -> (bloom: Option<Bloom>)
        ensures
            bytes@.len() == BLOOM_BYTES ==> bloom is Some && bloom->Some_0@ == unpack(bytes@),
            bytes@.len() != BLOOM_BYTES ==> bloom is None,
    {
        if bytes.len() != BLOOM_BYTES {
            return None;
        }
        Some(Bloom { bits: unpacked(bytes) })
    }

    /// Reads a bitmap from its text: `0x` followed by 64 lowercase
    /// hexadecimal digits. Any other text is refused, with the first reason
    /// that applies.
    pub fn from_hex(text: &str) -> (parsed: Result<Bloom, HexError>)
        ensures
            match parsed {
                Ok(bloom) => parse_hex(text@) == Ok::<Seq<bool>, HexError>(bloom@),
                Err(error) => parse_hex(text@) == Err::<Seq<bool>, HexError>(error),
            },
    {
        let length: usize = text.unicode_len();
        if length < 2 || text.get_char(0) != '0' || text.get_char(1) != 'x' {
            return Err(HexError::MissingPrefix);
        }
        if length != BLOOM_HEX_LENGTH {
            return Err(HexError::InvalidLength);
        }
        let digits = text.substring_char(2, BLOOM_HEX_LENGTH);
        assert(digits@ == hex_digits(text@));
        match decode_hex(digits) {
            Err(_) => {
                assert(!is_lower_hex(digits@)) by {
                    if is_lower_hex(digits@) {
                        assert forall|i: int| 0 <= i < digits@.len() implies hex_value(
                            #[trigger] digits@[i],
                        ) is Some by {}
                    }
                }
                Err(HexError::InvalidCharacter)
            },
            Ok(bytes) => {
                proof {
                    lemma_hex_text_unhex(digits@);
                }
                let canonical = encode_hex(&bytes);
                if canonical == digits.to_owned() {
                    Ok(Bloom { bits: unpacked(&bytes) })
                } else {
                    Err(HexError::InvalidCharacter)
                }
            },
        }
    }

    /// The bits packed into 32 bytes, the bit of opcode 0 being the most
    /// significant bit of the first byte.
    pub fn to_bytes(&self) -> (bytes: Vec<u8>)
        ensures
            bytes@ == pack(self@),
            bytes@.len() == BLOOM_BYTES,
    {
        proof {
            use_type_invariant(self);
        }
        packed(&self.bits)
    }

    /// The text of the bitmap: `0x` followed by 64 lowercase hexadecimal
    /// digits.
    pub fn to_hex(&self) -> (text: String)
        ensures
            text@ == hex_of(self@),
    {
        let bytes = self.to_bytes();
        let digits = encode_hex(&bytes);
        proof {
            reveal_strlit("0x");
            assert("0x"@ =~= seq!['0', 'x']);
        }
        String::from_str("0x").concat(digits.as_str())
    }

    /// Reads the bit of `opcode`.
    pub fn get(&self, opcode: u8) -> (supported: bool)
        ensures
            supported == self@[opcode as int],
    {
        proof {
            use_type_invariant(self);
        }
        match bit(&self.bits, opcode as usize) {
            Some(b) => b,
            None => false,
        }
    }

    /// Writes the bit of `opcode` and leaves every other bit as it was.
    pub fn set(&mut self, opcode: u8, value: bool)
        ensures
            final(self)@ == old(self)@.update(opcode as int, value),
    {
        proof {
            use_type_invariant(&*self);
        }
        put(&mut self.bits, opcode as usize, value);
    }

    /// Sets the bit of every opcode from `first` to `last`, both included,
    /// and leaves every other bit as it was.
    pub fn set_range(&mut self, first: u8, last: u8)
        ensures
            final(self)@.len() == OPCODE_COUNT,
            forall|i: int|
                0 <= i < OPCODE_COUNT ==> final(self)@[i] == (old(self)@[i] || first <= i <= last),
    {
        proof {
            use_type_invariant(&*self);
        }
        if first > last {
            return ;
        }
        let mut opcode: u8 = first;
        loop
            invariant_except_break
                forall|i: int|
                    0 <= i < OPCODE_COUNT ==> self@[i] == (old(self)@[i] || first <= i < opcode),
            invariant
                first <= opcode <= last,
                self@.len() == OPCODE_COUNT,
                old(self)@.len() == OPCODE_COUNT,
            ensures
                self@.len() == OPCODE_COUNT,
                forall|i: int|
                    0 <= i < OPCODE_COUNT ==> self@[i] == (old(self)@[i] || first <= i <= last),
            decreases last - opcode,
        {
            self.set(opcode, true);
            if opcode == last {
                break ;
            }
            opcode += 1;
        }
    }

    /// Keeps the bits that `other` has too.
    pub fn and(&mut self, other: &Bloom)
        ensures
            final(self)@ == and_bits(old(self)@, other@),
    {
        proof {
            use_type_invariant(&*self);
            use_type_invariant(other);
        }
        let _ = intersect(&mut self.bits, &other.bits);
    }

    /// Adds the bits of `other`.
    pub fn or(&mut self, other: &Bloom)
        ensures
            final(self)@ == or_bits(old(self)@, other@),
    {
        proof {
            use_type_invariant(&*self);
            use_type_invariant(other);
        }
        let _ = unite(&mut self.bits, &other.bits);
    }

    /// Keeps the bits in which the two bitmaps differ.
    pub fn xor(&mut self, other: &Bloom)
        ensures
            final(self)@ == xor_bits(old(self)@, other@),
    {
        proof {
            use_type_invariant(&*self);
            use_type_invariant(other);
        }
        let _ = differ(&mut self.bits, &other.bits);
    }

    /// Whether no opcode is supported.
    pub fn is_empty(&self) -> (empty: bool)
        ensures
            empty == is_clear(self@),
    {
        all_clear(&self.bits)
    }

    /// Whether every opcode that `other` supports is supported here too,
    /// decided as `self | other == self`.
    pub fn is_superset_of(&self, other: &Bloom) -> (superset: bool)
        ensures
            superset == covers(self@, other@),
            superset == (or_bits(self@, other@) == self@),
    {
        proof {
            use_type_invariant(self);
            use_type_invariant(other);
        }
        let mut combined = self.clone();
        combined.or(other);
        proof {
            lemma_or_absorbs_iff_covers(self@, other@);
        }
        combined == *self
    }

    /// The supported opcodes, in ascending order.
    pub fn opcodes(&self) -> (found: Vec<u8>)
        ensures
            found@ == set_opcodes(self@),
    {
        proof {
            use_type_invariant(self);
        }
        let mut found: Vec<u8> = Vec::new();
        let mut i: usize = 0;
        proof {
            assert(all_opcodes().take(0) =~= Seq::<u8>::empty());
            reveal(Seq::filter);
        }
        while i < OPCODE_COUNT
            invariant
                i <= OPCODE_COUNT,
                self@.len() == OPCODE_COUNT,
                found@ == all_opcodes().take(i as int).filter(bit_set_in(self@)),
            decreases OPCODE_COUNT - i,
        {
            let opcode: u8 = i as u8;
            proof {
                let before = all_opcodes().take(i as int);
                assert(all_opcodes().take(i + 1) =~= before.push(opcode));
                before.lemma_filter_push(opcode, bit_set_in(self@));
            }
            if self.get(opcode) {
                found.push(opcode);
            }
            i += 1;
        }
        assert(all_opcodes().take(OPCODE_COUNT as int) =~= all_opcodes());
        found
    }
}

impl Clone for Bloom {
    /// A bitmap with the same bits.
    fn clone(&self) -> (copy: Bloom)
        ensures
            copy@ == self@,
    {
        proof {
            use_type_invariant(self);
        }
        Bloom { bits: duplicate(&self.bits) }
    }
}

impl PartialEq for Bloom {
    /// Whether the two bitmaps support the same opcodes.
    fn eq(&self, other: &Bloom) -> (equal: bool) {
        same_bits(&self.bits, &other.bits)
    }
}

impl PartialEqSpecImpl for Bloom {
    open spec fn obeys_eq_spec() -> bool {
        true
    }

    open spec fn eq_spec(&self, other: &Bloom) -> bool {
        self@ == other@
    }
}

/// OR-ing `b` into `a` changes nothing exactly when `a` already has every bit
/// of `b`.
pub proof fn lemma_or_absorbs_iff_covers(a: Seq<bool>, b: Seq<bool>)
    requires
        a.len() == b.len(),
    ensures
        (or_bits(a, b) == a) <==> covers(a, b),
{
    if covers(a, b) {
        assert(or_bits(a, b) =~= a);
    }
    if or_bits(a, b) == a {
        assert forall|i: int| 0 <= i < b.len() && b[i] implies a[i] by {
            assert(or_bits(a, b)[i]);
        }
    }
}

/// An opcode reads as supported once its bit has been set, and writing the
/// bit of another opcode does not change what it reads as.
pub proof fn lemma_set_then_get(bits: Seq<bool>, opcode: u8, other: u8, value: bool)
    requires
        bits.len() == OPCODE_COUNT,
    ensures
        bits.update(opcode as int, true)[opcode as int],
        other != opcode ==> bits.update(other as int, value)[opcode as int] == bits[opcode as int],
        other != opcode ==> bits.update(opcode as int, true).update(
            other as int,
            value,
        )[opcode as int],
{
}

/// OR-ing the same bitmap in a second time changes nothing.
pub proof fn lemma_or_idempotent(a: Seq<bool>, b: Seq<bool>)
    ensures
        or_bits(or_bits(a, b), b) == or_bits(a, b),
{
    assert(or_bits(or_bits(a, b), b) =~= or_bits(a, b));
}

/// Of the opcodes below `n`, the list of set bits holds exactly those whose
/// bit is set, each one smaller than the next.
proof fn lemma_set_opcodes_below(bits: Seq<bool>, n: int)
    requires
        0 <= n <= OPCODE_COUNT,
    ensures
        ({
            let found = all_opcodes().take(n).filter(bit_set_in(bits));
            &&& forall|i: int| 0 <= i < found.len() ==> (#[trigger] found[i]) < n && bits[found[i] as int]
            &&& forall|i: int, j: int| 0 <= i < j < found.len() ==> found[i] < found[j]
            &&& forall|opcode: u8| opcode < n && bits[opcode as int] ==> found.contains(opcode)
        }),
    decreases n,
{
    let found = all_opcodes().take(n).filter(bit_set_in(bits));
    if n == 0 {
        reveal(Seq::filter);
        assert(all_opcodes().take(0) =~= Seq::<u8>::empty());
    } else {
        let last = (n - 1) as u8;
        let before = all_opcodes().take(n - 1);
        let earlier = before.filter(bit_set_in(bits));
        lemma_set_opcodes_below(bits, n - 1);
        assert(all_opcodes().take(n) =~= before.push(last));
        before.lemma_filter_push(last, bit_set_in(bits));
        if bits[last as int] {
            assert(found == earlier.push(last));
            assert forall|opcode: u8| opcode < n && bits[opcode as int] implies found.contains(
                opcode,
            ) by {
                if opcode == last {
                    assert(found[earlier.len() as int] == last);
                } else {
                    let i = choose|i: int| 0 <= i < earlier.len() && earlier[i] == opcode;
                    assert(found[i] == opcode);
                }
            }
        } else {
            assert(found == earlier);
        }
    }
}

/// The list of set bits is in ascending order and holds an opcode exactly
/// when its bit is set.
pub proof fn lemma_set_opcodes(bits: Seq<bool>)
    requires
        bits.len() == OPCODE_COUNT,
    ensures
        forall|i: int, j: int|
            0 <= i < j < set_opcodes(bits).len() ==> set_opcodes(bits)[i] < set_opcodes(bits)[j],
        forall|opcode: u8| set_opcodes(bits).contains(opcode) <==> bits[opcode as int],
{
    lemma_set_opcodes_below(bits, OPCODE_COUNT as int);
    assert(all_opcodes().take(OPCODE_COUNT as int) =~= all_opcodes());
}

/// When `bits` has every bit of `version`, the set bits of their XOR are
/// the opcodes that `bits` has and `version` lacks: none that is missing
/// from `bits`.
pub proof fn lemma_xor_lists_additions(bits: Seq<bool>, version: Seq<bool>)
    requires
        bits.len() == OPCODE_COUNT,
        version.len() == OPCODE_COUNT,
        covers(bits, version),
    ensures
        forall|opcode: u8|
            set_opcodes(xor_bits(bits, version)).contains(opcode) <==> bits[opcode as int]
                && !version[opcode as int],
{
    let beyond = xor_bits(bits, version);
    lemma_set_opcodes(beyond);
    assert forall|opcode: u8|
        set_opcodes(beyond).contains(opcode) <==> bits[opcode as int]
            && !version[opcode as int] by {
        assert(beyond[opcode as int] == (bits[opcode as int] != version[opcode as int]));
    }
}

/// A text with the prefix is the prefix followed by its digits.
proof fn lemma_prefix_then_digits(text: Seq<char>)
    requires
        has_hex_prefix(text),
    ensures
        seq!['0', 'x'] + hex_digits(text) == text,
{
    assert(seq!['0', 'x'] + hex_digits(text) =~= text);
}

/// The digits of the text of a bitmap stand for 32 bytes, and writing those
/// bytes out gives the digits back.
proof fn lemma_digits_round_trip(digits: Seq<char>)
    requires
        digits.len() == 64,
        is_lower_hex(digits),
    ensures
        unhex(digits).len() == BLOOM_BYTES,
        hex_text(unhex(digits)) == digits,
{
    assert forall|i: int| 0 <= i < digits.len() implies hex_value(#[trigger] digits[i]) is Some by {
        assert(is_lower_hex_char(digits[i]));
    }
    lemma_hex_text_unhex(digits);
}

/// Reading the text of a bitmap and writing the result out again gives the
/// same text.
pub proof fn lemma_hex_round_trip(text: Seq<char>)
    requires
        is_bloom_hex(text),
    ensures
        parse_hex(text) == Ok::<Seq<bool>, HexError>(bits_of_hex(text)),
        bits_of_hex(text).len() == OPCODE_COUNT,
        hex_of(bits_of_hex(text)) == text,
{
    let digits = hex_digits(text);
    let bytes = unhex(digits);
    lemma_digits_round_trip(digits);
    lemma_pack_unpack(bytes);
    lemma_prefix_then_digits(text);
}

/// Writing a bitmap out as text and reading the text gives the same bitmap.
pub proof fn lemma_bits_round_trip(bits: Seq<bool>)
    requires
        bits.len() == OPCODE_COUNT,
    ensures
        is_bloom_hex(hex_of(bits)),
        parse_hex(hex_of(bits)) == Ok::<Seq<bool>, HexError>(bits),
{
    let bytes = pack(bits);
    let digits = hex_text(bytes);
    let text = hex_of(bits);
    assert(bytes.len() == 32);
    assert(digits.len() == 64);
    assert(hex_digits(text) =~= digits);
    assert(text[0] == '0' && text[1] == 'x' && text.len() == 66);
    assert(is_lower_hex(digits) && unhex(digits) == bytes) by {
        lemma_unhex_hex_text(bytes);
    }
    assert(unpack(bytes) == bits) by {
        lemma_unpack_pack(bits);
    }
}

} // verus!
