//! Positions in a text, counted in UTF-8 bytes, in UTF-16 units and in characters.

use crate::text;
use std::ops::Range;
use vstd::prelude::*;
use vstd::utf8::*;

verus! {

/// How many bytes a character has in UTF-8.
pub open spec fn utf8_width(c: char) -> nat {
    if c <= '\u{7f}' {
        1
    } else if c <= '\u{7ff}' {
        2
    } else if c <= '\u{ffff}' {
        3
    } else {
        4
    }
}

/// How many units a character has in UTF-16.
pub open spec fn utf16_width(c: char) -> nat {
    if c <= '\u{ffff}' {
        1
    } else {
        2
    }
}

/// How many bytes a text has in UTF-8.
pub open spec fn utf8_len(chars: Seq<char>) -> nat
    decreases chars.len(),
{
    if chars.len() == 0 {
        0
    } else {
        utf8_len(chars.drop_last()) + utf8_width(chars.last())
    }
}

/// How many units a text has in UTF-16.
pub open spec fn utf16_len(chars: Seq<char>) -> nat
    decreases chars.len(),
{
    if chars.len() == 0 {
        0
    } else {
        utf16_len(chars.drop_last()) + utf16_width(chars.last())
    }
}

/// Where the character at `index` begins, in bytes; the end of the text for the index
/// after the last.
pub open spec fn offset_of(chars: Seq<char>, index: int) -> nat {
    utf8_len(chars.take(index))
}

/// Where the character at `index` begins, in UTF-16 units; the end of the text for the
/// index after the last.
pub open spec fn utf16_offset_of(chars: Seq<char>, index: int) -> nat {
    utf16_len(chars.take(index))
}

/// Whether the character at `index` begins at byte `offset`.
pub open spec fn begins_at(chars: Seq<char>, index: int, offset: int) -> bool {
    0 <= index <= chars.len() && offset_of(chars, index) == offset
}

/// Whether the character at `index` begins at UTF-16 unit `offset`.
pub open spec fn begins_at_utf16(chars: Seq<char>, index: int, offset: int) -> bool {
    0 <= index <= chars.len() && utf16_offset_of(chars, index) == offset
}

/// Whether a character, or the end of the text, is at byte `offset`.
pub open spec fn is_offset(chars: Seq<char>, offset: int) -> bool {
    exists|index: int| begins_at(chars, index, offset)
}

/// The index of the character at byte `offset`.
pub open spec fn index_at(chars: Seq<char>, offset: int) -> int {
    choose|index: int| begins_at(chars, index, offset)
}

/// The index of the character at UTF-16 unit `offset`, if one begins there.
pub open spec fn index_at_utf16(chars: Seq<char>, offset: int) -> Option<int> {
    if exists|index: int| begins_at_utf16(chars, index, offset) {
        Some(choose|index: int| begins_at_utf16(chars, index, offset))
    } else {
        None
    }
}

pub proof fn lemma_offset_step(chars: Seq<char>, index: int)
    requires
        0 <= index < chars.len(),
    ensures
        offset_of(chars, index + 1) == offset_of(chars, index) + utf8_width(chars[index]),
        utf16_offset_of(chars, index + 1) == utf16_offset_of(chars, index) + utf16_width(
            chars[index],
        ),
{
    assert(chars.take(index + 1).drop_last() =~= chars.take(index));
}

/// Later characters begin later.
pub proof fn lemma_offsets_increase(chars: Seq<char>, i: int, j: int)
    requires
        0 <= i < j <= chars.len(),
    ensures
        offset_of(chars, i) < offset_of(chars, j),
        utf16_offset_of(chars, i) < utf16_offset_of(chars, j),
    decreases j - i,
{
    lemma_offset_step(chars, j - 1);
    if i < j - 1 {
        lemma_offsets_increase(chars, i, j - 1);
    }
}

/// At most one character begins at a byte.
pub proof fn lemma_index_unique(chars: Seq<char>, index: int, offset: int)
    requires
        begins_at(chars, index, offset),
    ensures
        is_offset(chars, offset),
        index_at(chars, offset) == index,
{
    let other = index_at(chars, offset);
    if other < index {
        lemma_offsets_increase(chars, other, index);
    } else if index < other {
        lemma_offsets_increase(chars, index, other);
    }
}

/// At most one character begins at a UTF-16 unit.
pub proof fn lemma_utf16_index_unique(chars: Seq<char>, index: int, offset: int)
    requires
        begins_at_utf16(chars, index, offset),
    ensures
        index_at_utf16(chars, offset) == Some(index),
{
    let other = choose|index: int| begins_at_utf16(chars, index, offset);
    if other < index {
        lemma_offsets_increase(chars, other, index);
    } else if index < other {
        lemma_offsets_increase(chars, index, other);
    }
}

/// Both lengths add up.
pub proof fn lemma_lens_add(a: Seq<char>, b: Seq<char>)
    ensures
        utf8_len(a + b) == utf8_len(a) + utf8_len(b),
        utf16_len(a + b) == utf16_len(a) + utf16_len(b),
    decreases b.len(),
{
    if b.len() == 0 {
        assert(a + b =~= a);
    } else {
        lemma_lens_add(a, b.drop_last());
        assert((a + b).drop_last() =~= a + b.drop_last());
    }
}

/// A text has no more UTF-16 units than bytes, and no more characters than units.
pub proof fn lemma_lens_ordered(chars: Seq<char>)
    ensures
        chars.len() <= utf16_len(chars) <= utf8_len(chars),
    decreases chars.len(),
{
    if chars.len() > 0 {
        lemma_lens_ordered(chars.drop_last());
    }
}

proof fn lemma_scalar_len(c: char)
    ensures
        encode_scalar(c as u32).len() == utf8_width(c),
{
}

/// The length in bytes is that of the encoding.
pub proof fn lemma_utf8_len_is_encoded_len(chars: Seq<char>)
    ensures
        utf8_len(chars) == encode_utf8(chars).len(),
    decreases chars.len(),
{
    if chars.len() > 0 {
        let first = chars.take(1);
        let rest = chars.drop_first();
        lemma_utf8_len_is_encoded_len(rest);
        assert(first + rest =~= chars);
        lemma_lens_add(first, rest);
        assert(first.drop_last() =~= Seq::<char>::empty());
        assert(utf8_len(Seq::<char>::empty()) == 0);
        assert(utf8_len(first) == utf8_width(chars[0]));
        lemma_scalar_len(chars[0]);
    }
}

/// How many bytes a character has in UTF-8.
pub fn char_utf8_width(c: char) -> (width: usize)
    ensures
        width == utf8_width(c),
        1 <= width <= 4,
{
    if c <= '\u{7f}' {
        1
    } else if c <= '\u{7ff}' {
        2
    } else if c <= '\u{ffff}' {
        3
    } else {
        4
    }
}

/// How many units a character has in UTF-16.
pub fn char_utf16_width(c: char) -> (width: usize)
    ensures
        width == utf16_width(c),
        1 <= width <= 2,
{
    if c <= '\u{ffff}' {
        1
    } else {
        2
    }
}

/// How many bytes a text has in UTF-8.
pub fn byte_length(text: &str) -> (length: usize)
    ensures
        length == utf8_len(text@),
{
    proof {
        lemma_utf8_len_is_encoded_len(text@);
    }
    text.as_bytes().len()
}

/// The index of the character that begins at byte `offset`.
pub fn find_index(chars: &[char], offset: usize) -> (index: usize)
    requires
        is_offset(chars@, offset as int),
        utf8_len(chars@) <= usize::MAX,
    ensures
        index == index_at(chars@, offset as int),
        begins_at(chars@, index as int, offset as int),
{
    let ghost target = index_at(chars@, offset as int);
    let mut index: usize = 0;
    let mut at: usize = 0;
    while at < offset
        invariant
            index <= target <= chars@.len(),
            begins_at(chars@, target, offset as int),
            at == offset_of(chars@, index as int),
            at <= offset,
        decreases target - index,
    {
        assert(index < target);
        proof {
            lemma_offset_step(chars@, index as int);
            if index + 1 < target {
                lemma_offsets_increase(chars@, index + 1, target);
            }
        }
        at = at + char_utf8_width(chars[index]);
        index = index + 1;
    }
    proof {
        lemma_index_unique(chars@, index as int, offset as int);
    }
    index
}

/// A range of bytes, as a range of UTF-16 units.
pub open spec fn to_utf16(chars: Seq<char>, start: int, end: int) -> (int, int) {
    (
        utf16_offset_of(chars, index_at(chars, start)) as int,
        utf16_offset_of(chars, index_at(chars, end)) as int,
    )
}

/// A range of UTF-16 units, as a range of bytes: there is one if a character begins at
/// the start, and a character or the end of the text is at the end and not before the
/// start.
pub open spec fn from_utf16(chars: Seq<char>, start: int, end: int) -> Option<(int, int)> {
    match (index_at_utf16(chars, start), index_at_utf16(chars, end)) {
        (Some(i), Some(j)) => if i < chars.len() && i <= j {
            Some((offset_of(chars, i) as int, offset_of(chars, j) as int))
        } else {
            None
        },
        _ => None,
    }
}

/// The number of UTF-16 units in front of the character at `index`.
fn count_utf16(chars: &[char], index: usize) -> (units: usize)
    requires
        index <= chars@.len(),
        utf8_len(chars@) <= usize::MAX,
    ensures
        units == utf16_offset_of(chars@, index as int),
{
    let mut i: usize = 0;
    let mut units: usize = 0;
    while i < index
        invariant
            i <= index <= chars@.len(),
            utf8_len(chars@) <= usize::MAX,
            units == utf16_offset_of(chars@, i as int),
        decreases index - i,
    {
        proof {
            lemma_offset_step(chars@, i as int);
            lemma_lens_ordered(chars@.take(i + 1));
            if i + 1 < chars@.len() {
                lemma_offsets_increase(chars@, i + 1, chars@.len() as int);
            }
            assert(chars@.take(chars@.len() as int) =~= chars@);
        }
        units = units + char_utf16_width(chars[i]);
        i = i + 1;
    }
    units
}

/// A range of bytes, as a range of UTF-16 units.
pub fn range_to_utf16(text: &str, range: Range<usize>) -> (result: Range<usize>)
    requires
        is_offset(text@, range.start as int),
        is_offset(text@, range.end as int),
        range.start <= range.end,
    ensures
        (result.start as int, result.end as int) == to_utf16(
            text@,
            range.start as int,
            range.end as int,
        ),
        result.start <= result.end,
{
    let chars = text::chars_of(text);
    let _length: usize = byte_length(text);
    let first: usize = find_index(&chars, range.start);
    let last: usize = find_index(&chars, range.end);
    let start: usize = count_utf16(&chars, first);
    let end: usize = count_utf16(&chars, last);
    proof {
        if last < first {
            lemma_offsets_increase(text@, last as int, first as int);
        } else if first < last {
            lemma_offsets_increase(text@, first as int, last as int);
        }
    }
    start..end
}

/// A range of UTF-16 units, as a range of bytes, where there is one.
pub fn range_from_utf16(text: &str, range_utf16: Range<usize>) -> (result: Option<Range<usize>>)
    ensures
        match from_utf16(text@, range_utf16.start as int, range_utf16.end as int) {
            Some((start, end)) => result is Some && result->0.start == start && result->0.end
                == end,
            None => result is None,
        },
{
    let chars = text::chars_of(text);
    let _length: usize = byte_length(text);
    let ghost lo: int = range_utf16.start as int;
    let ghost hi: int = range_utf16.end as int;
    let mut utf8_offset: usize = 0;
    let mut utf16_offset: usize = 0;
    let mut start: Option<usize> = None;
    let mut i: usize = 0;
    while i < chars.len() && utf16_offset != range_utf16.end
        invariant
            chars@ == text@,
            utf8_len(text@) <= usize::MAX,
            lo == range_utf16.start,
            hi == range_utf16.end,
            i <= chars@.len(),
            utf8_offset == offset_of(text@, i as int),
            utf16_offset == utf16_offset_of(text@, i as int),
            utf16_offset <= utf8_offset,
            forall|k: int| 0 <= k < i ==> utf16_offset_of(text@, k) != hi,
            match start {
                Some(at) => exists|k: int|
                    0 <= k < i && begins_at_utf16(text@, k, lo) && at == offset_of(text@, k),
                None => forall|k: int| 0 <= k < i ==> utf16_offset_of(text@, k) != lo,
            },
        decreases chars@.len() - i,
    {
        if utf16_offset == range_utf16.start {
            start = Some(utf8_offset);
            assert(begins_at_utf16(text@, i as int, lo));
        }
        proof {
            lemma_offset_step(text@, i as int);
            lemma_lens_ordered(text@.take(i + 1));
            if i + 1 < text@.len() {
                lemma_offsets_increase(text@, i + 1, text@.len() as int);
            }
            assert(text@.take(text@.len() as int) =~= text@);
        }
        utf8_offset = utf8_offset + char_utf8_width(chars[i]);
        utf16_offset = utf16_offset + char_utf16_width(chars[i]);
        i = i + 1;
    }
    if utf16_offset != range_utf16.end {
        assert(index_at_utf16(text@, hi) is None);
        return None;
    }
    proof {
        lemma_utf16_index_unique(text@, i as int, hi);
    }
    if i < chars.len() && utf16_offset == range_utf16.start {
        return Some(utf8_offset..utf8_offset);
    }
    match start {
        Some(start) => {
            proof {
                let k = choose|k: int|
                    0 <= k < i && begins_at_utf16(text@, k, lo) && start == offset_of(text@, k);
                lemma_utf16_index_unique(text@, k, lo);
            }
            Some(start..utf8_offset)
        },
        None => {
            proof {
                match index_at_utf16(text@, lo) {
                    Some(k) => {
                        assert(begins_at_utf16(text@, k, lo));
                    },
                    None => {},
                }
            }
            None
        },
    }
}

/// A range of bytes that was turned into UTF-16 units is found back, unless it begins
/// at the very end of the text.
pub proof fn law_utf16_range_comes_back(chars: Seq<char>, start: int, end: int)
    requires
        is_offset(chars, start),
        is_offset(chars, end),
        start <= end,
        start < utf8_len(chars),
    ensures
        ({
            let (from, to) = to_utf16(chars, start, end);
            from_utf16(chars, from, to) == Some((start, end))
        }),
{
    let i = index_at(chars, start);
    let j = index_at(chars, end);
    let (from, to) = to_utf16(chars, start, end);
    assert(begins_at(chars, i, start));
    assert(begins_at(chars, j, end));
    assert(begins_at_utf16(chars, i, from));
    assert(begins_at_utf16(chars, j, to));
    lemma_utf16_index_unique(chars, i, from);
    lemma_utf16_index_unique(chars, j, to);
    assert(chars.take(chars.len() as int) =~= chars);
    if j < i {
        lemma_offsets_increase(chars, j, i);
    }
}

/// A range of UTF-16 units that has a range of bytes is found back from it.
pub proof fn law_utf8_range_comes_back(chars: Seq<char>, start: int, end: int)
    requires
        from_utf16(chars, start, end) is Some,
    ensures
        ({
            let (from, to) = from_utf16(chars, start, end)->0;
            &&& is_offset(chars, from)
            &&& is_offset(chars, to)
            &&& from <= to <= utf8_len(chars)
            &&& to_utf16(chars, from, to) == (start, end)
        }),
{
    let i = index_at_utf16(chars, start)->0;
    let j = index_at_utf16(chars, end)->0;
    assert(begins_at_utf16(chars, i, start));
    assert(begins_at_utf16(chars, j, end));
    lemma_index_unique(chars, i, offset_of(chars, i) as int);
    lemma_index_unique(chars, j, offset_of(chars, j) as int);
    if i < j {
        lemma_offsets_increase(chars, i, j);
    }
    assert(chars.take(chars.len() as int) =~= chars);
    if j < chars.len() {
        lemma_offsets_increase(chars, j, chars.len() as int);
    }
}

/// A character has as many bytes as UTF-8 gives it, and two units in UTF-16 exactly if it needs four
/// of them.
pub proof fn law_widths_are_those_of_the_encodings(c: char)
    ensures
        1 <= utf8_width(c) <= 4,
        utf16_width(c) == 2 <==> utf8_width(c) == 4,
        utf16_width(c) == 1 <==> utf8_width(c) < 4,
        utf8_width(c) == 1 <==> (c as u32) < 0x80,
        utf8_width(c) == vstd::utf8::encode_utf8(seq![c]).len(),
        utf16_width(c) == 2 <==> (c as u32) >= 0x10000,
{
    lemma_utf8_len_is_encoded_len(seq![c]);
    assert(seq![c].drop_last() =~= Seq::<char>::empty());
    assert(utf8_len(seq![c].drop_last()) == 0);
    assert(utf8_len(seq![c]) == utf8_width(c));
}

} // verus!
