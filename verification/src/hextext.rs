//! Bytes written as text: two lowercase hexadecimal digits to a byte.

use vstd::prelude::*;

verus! {

/// The digit that stands for `n`, for `n` below sixteen.
pub open spec fn hex_digit(n: int) -> char {
    if n < 10 {
        ('0' as int + n) as char
    } else {
        ('a' as int + n - 10) as char
    }
}

/// What a hexadecimal digit of either case stands for; `None` for any other
/// character.
pub open spec fn hex_value(c: char) -> Option<int> {
    if '0' <= c <= '9' {
        Some(c as int - '0' as int)
    } else if 'a' <= c <= 'f' {
        Some(c as int - 'a' as int + 10)
    } else if 'A' <= c <= 'F' {
        Some(c as int - 'A' as int + 10)
    } else {
        None
    }
}

/// Whether `c` is a digit or one of the lowercase letters `a` to `f`.
pub open spec fn is_lower_hex_char(c: char) -> bool {
    '0' <= c <= '9' || 'a' <= c <= 'f'
}

/// Whether every character of `text` is a lowercase hexadecimal digit.
pub open spec fn is_lower_hex(text: Seq<char>) -> bool {
    forall|i: int| 0 <= i < text.len() ==> is_lower_hex_char(#[trigger] text[i])
}

/// Whether `text` is an even number of hexadecimal digits of either case.
pub open spec fn is_hex(text: Seq<char>) -> bool {
    &&& text.len() % 2 == 0
    &&& forall|i: int| 0 <= i < text.len() ==> hex_value(#[trigger] text[i]) is Some
}

/// The lowercase hexadecimal text of `bytes`: for each byte its high digit,
/// then its low digit.
pub open spec fn hex_text(bytes: Seq<u8>) -> Seq<char> {
    Seq::new(
        2 * bytes.len(),
        |i: int|
            if i % 2 == 0 {
                hex_digit(bytes[i / 2] as int / 16)
            } else {
                hex_digit(bytes[i / 2] as int % 16)
            },
    )
}

/// The byte that the digits `high` and `low` stand for.
pub open spec fn hex_pair(high: char, low: char) -> u8 {
    (16 * hex_value(high)->Some_0 + hex_value(low)->Some_0) as u8
}

/// The bytes that `text` stands for, two digits to a byte.
pub open spec fn unhex(text: Seq<char>) -> Seq<u8> {
    Seq::new((text.len() / 2) as nat, |j: int| hex_pair(text[2 * j], text[2 * j + 1]))
}

/// The text of some bytes is lowercase hexadecimal and stands for those
/// bytes.
pub proof fn lemma_unhex_hex_text(bytes: Seq<u8>)
    ensures
        is_hex(hex_text(bytes)),
        is_lower_hex(hex_text(bytes)),
        unhex(hex_text(bytes)) == bytes,
{
    let text = hex_text(bytes);
    assert forall|i: int| 0 <= i < text.len() implies is_lower_hex_char(#[trigger] text[i])
        && hex_value(text[i]) is Some by {
        let b = bytes[i / 2];
        assert(0 <= b as int / 16 < 16 && 0 <= b as int % 16 < 16);
    }
    assert forall|j: int| 0 <= j < bytes.len() implies unhex(text)[j] == bytes[j] by {
        let b = bytes[j];
        assert((2 * j) / 2 == j && (2 * j) % 2 == 0);
        assert((2 * j + 1) / 2 == j && (2 * j + 1) % 2 == 1);
        assert(hex_value(hex_digit(b as int / 16)) == Some(b as int / 16));
        assert(hex_value(hex_digit(b as int % 16)) == Some(b as int % 16));
    }
    assert(unhex(text) =~= bytes);
}

/// Writing out the bytes of hexadecimal text gives the text back exactly
/// when the text is lowercase.
pub proof fn lemma_hex_text_unhex(text: Seq<char>)
    requires
        is_hex(text),
    ensures
        (hex_text(unhex(text)) == text) <==> is_lower_hex(text),
{
    let bytes = unhex(text);
    let again = hex_text(bytes);
    assert(again.len() == text.len());
    assert forall|i: int| 0 <= i < text.len() implies (#[trigger] again[i] == text[i]
        <==> is_lower_hex_char(text[i])) by {
        let j = i / 2;
        let high = hex_value(text[2 * j])->Some_0;
        let low = hex_value(text[2 * j + 1])->Some_0;
        assert(hex_value(text[2 * j]) is Some && hex_value(text[2 * j + 1]) is Some);
        assert(0 <= high < 16 && 0 <= low < 16);
        assert(bytes[j] as int == 16 * high + low);
        assert((16 * high + low) / 16 == high && (16 * high + low) % 16 == low);
        if i % 2 == 0 {
            assert(i == 2 * j);
            assert(again[i] == hex_digit(high));
        } else {
            assert(i == 2 * j + 1);
            assert(again[i] == hex_digit(low));
        }
    }
    if is_lower_hex(text) {
        assert(again =~= text);
    }
    if again == text {
        assert forall|i: int| 0 <= i < text.len() implies is_lower_hex_char(
            #[trigger] text[i],
        ) by {
            assert(again[i] == text[i]);
        }
    }
}

} // verus!
