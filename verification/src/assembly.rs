//! Bitmaps built from assembly text, and their check against a reference.
//!
//! A line of assembly is normalised (made uppercase, underscores taken out)
//! and then searched for mnemonics. The mnemonics are tried longest first,
//! and among equally long ones in the order of their opcodes; the first one
//! found decides the line. So a line marks one opcode at most, and a line
//! that holds `JUMPDEST` is not taken for a `JUMP`.

use crate::bits::or_bits;
use crate::bloom::{covers, no_bits, Bloom, OPCODE_COUNT};
use crate::opcodes::{OpcodeTable, TABLE_SIZE};
use crate::text::{
    contains, occurs_in, remove_char, texts, uppercase, uppercase_of, without_char,
};
use vstd::prelude::*;

verus! {

/// The normal form of a line: uppercase, without underscores.
pub open spec fn normalized(line: Seq<char>) -> Seq<char> {
    without_char(uppercase_of(line), '_')
}

/// Whether entry `i` of `table` is a mnemonic that stands in `text`. An
/// empty entry names nothing and is never found.
pub open spec fn names_opcode(table: Seq<Seq<char>>, text: Seq<char>, i: int) -> bool {
    &&& 0 <= i < table.len()
    &&& table[i].len() > 0
    &&& occurs_in(table[i], text)
}

/// Whether entry `a` of `table` is tried no later than entry `b`: the longer
/// mnemonic first, and of two equally long ones that of the lower opcode.
pub open spec fn tried_before(table: Seq<Seq<char>>, a: int, b: int) -> bool {
    table[a].len() > table[b].len() || (table[a].len() == table[b].len() && a <= b)
}

/// Whether `text` is attributed to `opcode`: its mnemonic stands in `text`,
/// and no mnemonic that stands in `text` is tried before it.
pub open spec fn is_attributed(table: Seq<Seq<char>>, text: Seq<char>, opcode: int) -> bool {
    &&& names_opcode(table, text, opcode)
    &&& forall|other: int| #[trigger]
        names_opcode(table, text, other) ==> tried_before(table, opcode, other)
}

/// Whether `found` is what the search of `text` gives: the opcode that
/// `text` is attributed to, or `None` when no mnemonic stands in `text`.
pub open spec fn is_choice(table: Seq<Seq<char>>, text: Seq<char>, found: Option<u8>) -> bool {
    match found {
        Some(opcode) => is_attributed(table, text, opcode as int),
        None => forall|i: int| !names_opcode(table, text, i),
    }
}

/// `bits` with the bit of the opcode set that `text` is attributed to, if
/// there is one.
pub open spec fn marked(bits: Seq<bool>, table: Seq<Seq<char>>, text: Seq<char>) -> Seq<bool> {
    Seq::new(bits.len(), |i: int| bits[i] || is_attributed(table, text, i))
}

/// Whether line `j` of `lines` is attributed to `opcode`.
pub open spec fn line_marks(
    table: Seq<Seq<char>>,
    lines: Seq<Seq<char>>,
    j: int,
    opcode: int,
) -> bool {
    0 <= j < lines.len() && is_attributed(table, normalized(lines[j]), opcode)
}

/// The bits of the bitmap that `lines` give: the bit of an opcode is set
/// exactly when some line is attributed to it.
pub open spec fn scanned(table: Seq<Seq<char>>, lines: Seq<Seq<char>>) -> Seq<bool> {
    Seq::new(OPCODE_COUNT as nat, |i: int| exists|j: int| line_marks(table, lines, j, i))
}

/// Whether a project with the bits `project` complies with `reference`:
/// OR-ing the project into the reference adds nothing to it.
pub open spec fn complies(project: Seq<bool>, reference: Seq<bool>) -> bool {
    or_bits(project, reference) == reference
}

/// `text` without its underscores.
pub fn strip_underscores(text: &str) -> (rest: String)
    ensures
        rest@ == without_char(text@, '_'),
{
    remove_char(text, '_')
}

/// The normal form of `line`.
pub fn normalize_line(line: &str) -> (text: String)
    ensures
        text@ == normalized(line@),
{
    let upper = uppercase(line);
    strip_underscores(upper.as_str())
}

/// Searches an already normalised text for the opcode it is attributed to.
pub fn match_normalized(text: &str, table: &OpcodeTable) -> (found: Option<u8>)
    ensures
        is_choice(table@, text@, found),
{
    proof {
        use_type_invariant(table);
    }
    let mut found: Option<u8> = None;
    let mut longest: usize = 0;
    let mut i: usize = 0;
    while i < TABLE_SIZE
        invariant
            i <= TABLE_SIZE,
            table@.len() == TABLE_SIZE,
            found is None ==> longest == 0 && forall|j: int|
                0 <= j < i ==> !names_opcode(table@, text@, j),
            found matches Some(best) ==> {
                &&& best < i
                &&& longest == table@[best as int].len()
                &&& names_opcode(table@, text@, best as int)
                &&& forall|j: int|
                    0 <= j < i && #[trigger] names_opcode(table@, text@, j) ==> tried_before(
                        table@,
                        best as int,
                        j,
                    )
            },
        decreases TABLE_SIZE - i,
    {
        let name = table.mnemonic(i as u8);
        let length: usize = name.unicode_len();
        if length > longest && contains(text, name) {
            found = Some(i as u8);
            longest = length;
        }
        i += 1;
    }
    found
}

/// Searches a line that was already made uppercase for the opcode it is
/// attributed to.
pub fn match_uppercase(upper: &str, table: &OpcodeTable) -> (found: Option<u8>)
    ensures
        is_choice(table@, without_char(upper@, '_'), found),
{
    let text = strip_underscores(upper);
    match_normalized(text.as_str(), table)
}

/// Searches `line` for the opcode it is attributed to.
pub fn match_line(line: &str, table: &OpcodeTable) -> (found: Option<u8>)
    ensures
        is_choice(table@, normalized(line@), found),
{
    let upper = uppercase(line);
    match_uppercase(upper.as_str(), table)
}

/// Sets in `bloom_filter` the bit of the opcode that `line` is attributed
/// to, if there is one, and leaves every other bit as it was.
pub fn check_asm_line(line: &str, bloom_filter: &mut Bloom, table: &OpcodeTable)
    ensures
        final(bloom_filter)@ == marked(old(bloom_filter)@, table@, normalized(line@)),
{
    proof {
        use_type_invariant(&*bloom_filter);
        use_type_invariant(table);
    }
    let found = match_line(line, table);
    proof {
        lemma_one_opcode_per_text(table@, normalized(line@));
    }
    match found {
        Some(opcode) => {
            bloom_filter.set(opcode, true);
        },
        None => {},
    }
    assert(bloom_filter@ =~= marked(old(bloom_filter)@, table@, normalized(line@)));
}

/// The bitmap of the opcodes that `lines` are attributed to.
pub fn scan(lines: &Vec<String>, table: &OpcodeTable) -> (bloom: Bloom)
    ensures
        bloom@ == scanned(table@, texts(lines@)),
{
    let mut bloom = Bloom::new();
    let mut k: usize = 0;
    proof {
        assert(texts(lines@).take(0) =~= Seq::<Seq<char>>::empty());
        lemma_scanned_nothing(table@);
    }
    while k < lines.len()
        invariant
            k <= lines@.len(),
            bloom@ == scanned(table@, texts(lines@).take(k as int)),
        decreases lines@.len() - k,
    {
        proof {
            let before = texts(lines@).take(k as int);
            use_type_invariant(table);
            lemma_scanned_push(table@, before, lines@[k as int]@);
            assert(texts(lines@).take(k + 1) =~= before.push(lines@[k as int]@));
        }
        check_asm_line(lines[k].as_str(), &mut bloom, table);
        k += 1;
    }
    assert(texts(lines@).take(lines@.len() as int) =~= texts(lines@));
    bloom
}

/// Whether a project whose assembly gave `project` uses only opcodes of
/// `reference`, decided as `project | reference == reference`.
pub fn verify(project: &Bloom, reference: &Bloom) -> (compliant: bool)
    ensures
        compliant == complies(project@, reference@),
        compliant == covers(reference@, project@),
{
    let mut combined = project.clone();
    combined.or(reference);
    proof {
        use_type_invariant(project);
        use_type_invariant(reference);
        lemma_complies_iff_covered(project@, reference@);
    }
    combined == *reference
}

/// Whether the project whose assembly consists of `lines` uses only opcodes
/// of `correct_bloom`.
pub fn verify_project_bloom_filter(
    lines: &Vec<String>,
    correct_bloom: &Bloom,
    table: &OpcodeTable,
) -> (compliant: bool)
    ensures
        compliant == complies(scanned(table@, texts(lines@)), correct_bloom@),
{
    let project = scan(lines, table);
    verify(&project, correct_bloom)
}

/// A text is attributed to one opcode at most, and to one whenever a
/// mnemonic of the table stands in it.
pub proof fn lemma_one_opcode_per_text(table: Seq<Seq<char>>, text: Seq<char>)
    ensures
        forall|a: int, b: int|
            is_attributed(table, text, a) && is_attributed(table, text, b) ==> a == b,
        forall|a: int| is_attributed(table, text, a) ==> 0 <= a < table.len(),
{
}

/// No line, no opcode.
pub proof fn lemma_scanned_nothing(table: Seq<Seq<char>>)
    ensures
        scanned(table, Seq::<Seq<char>>::empty()) == no_bits(),
{
    assert(scanned(table, Seq::<Seq<char>>::empty()) =~= no_bits());
}

/// One more line marks the opcode it is attributed to and nothing else.
pub proof fn lemma_scanned_push(table: Seq<Seq<char>>, lines: Seq<Seq<char>>, line: Seq<char>)
    ensures
        scanned(table, lines.push(line)) == marked(scanned(table, lines), table, normalized(line)),
{
    let more = lines.push(line);
    let before = scanned(table, lines);
    let after = scanned(table, more);
    let expected = marked(before, table, normalized(line));
    assert(expected.len() == OPCODE_COUNT);
    assert forall|i: int| 0 <= i < OPCODE_COUNT implies after[i] == expected[i] by {
        let hit = is_attributed(table, normalized(line), i);
        assert(expected[i] == (before[i] || hit));
        if before[i] {
            let j = choose|j: int| line_marks(table, lines, j, i);
            assert(more[j] == lines[j]);
            assert(line_marks(table, more, j, i));
        }
        if hit {
            assert(more[lines.len() as int] == line);
            assert(line_marks(table, more, lines.len() as int, i));
        }
        if after[i] {
            let j = choose|j: int| line_marks(table, more, j, i);
            if j < lines.len() {
                assert(more[j] == lines[j]);
                assert(line_marks(table, lines, j, i));
            } else {
                assert(more[j] == line);
            }
        }
    }
    assert(after =~= expected);
}

/// Scanning two runs of lines one after the other gives the OR of what each
/// run gives: files can be scanned apart, and in any order.
pub proof fn lemma_scanned_concat(
    table: Seq<Seq<char>>,
    first: Seq<Seq<char>>,
    second: Seq<Seq<char>>,
)
    ensures
        scanned(table, first + second) == or_bits(scanned(table, first), scanned(table, second)),
{
    let both = first + second;
    let joined = scanned(table, both);
    let united = or_bits(scanned(table, first), scanned(table, second));
    assert forall|i: int| 0 <= i < OPCODE_COUNT implies joined[i] == united[i] by {
        if scanned(table, first)[i] {
            let j = choose|j: int| line_marks(table, first, j, i);
            assert(both[j] == first[j]);
            assert(line_marks(table, both, j, i));
        }
        if scanned(table, second)[i] {
            let j = choose|j: int| line_marks(table, second, j, i);
            assert(both[first.len() + j] == second[j]);
            assert(line_marks(table, both, first.len() + j, i));
        }
        if joined[i] {
            let j = choose|j: int| line_marks(table, both, j, i);
            if j < first.len() {
                assert(both[j] == first[j]);
                assert(line_marks(table, first, j, i));
            } else {
                assert(both[j] == second[j - first.len()]);
                assert(line_marks(table, second, j - first.len(), i));
            }
        }
    }
    assert(joined =~= united);
}

/// A project complies exactly when the reference has every bit of it.
pub proof fn lemma_complies_iff_covered(project: Seq<bool>, reference: Seq<bool>)
    requires
        project.len() == reference.len(),
    ensures
        complies(project, reference) <==> covers(reference, project),
{
    if covers(reference, project) {
        assert(or_bits(project, reference) =~= reference);
    }
    if complies(project, reference) {
        assert forall|i: int| 0 <= i < project.len() && project[i] implies reference[i] by {
            assert(or_bits(project, reference)[i]);
        }
    }
}

/// A project that uses exactly the opcodes of the reference complies.
pub proof fn lemma_same_complies(reference: Seq<bool>)
    ensures
        complies(reference, reference),
{
    assert(or_bits(reference, reference) =~= reference);
}

/// A project that uses an opcode which the reference lacks does not comply.
pub proof fn lemma_extra_opcode_fails(project: Seq<bool>, reference: Seq<bool>, opcode: u8)
    requires
        project.len() == OPCODE_COUNT,
        reference.len() == OPCODE_COUNT,
        project[opcode as int],
        !reference[opcode as int],
    ensures
        !complies(project, reference),
{
    assert(or_bits(project, reference)[opcode as int]);
}

/// A project that uses no opcode complies with every reference.
pub proof fn lemma_empty_complies(reference: Seq<bool>)
    requires
        reference.len() == OPCODE_COUNT,
    ensures
        complies(no_bits(), reference),
{
    assert(or_bits(no_bits(), reference) =~= reference);
}

} // verus!
