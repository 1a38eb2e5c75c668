//! Line layout between UTF-8 and UTF-16: fonts are set on runs of bytes, shaping
//! works on UTF-16 units, and glyphs are reported by bytes again.

use crate::text;
use crate::text_index;
use vstd::prelude::*;

verus! {

/// A place in a text, kept both in bytes and in UTF-16 units, that only moves forward.
#[derive(Clone, Copy, Debug)]
pub struct StringIndexConverter<'a> {
    pub text: &'a str,
    pub utf8_ix: usize,
    pub utf16_ix: usize,
}

/// The first character at or after `from` that begins at byte `target` or later; the
/// end of the text if there is none.
pub open spec fn advanced(chars: Seq<char>, from: int, target: int) -> int
    decreases chars.len() - from,
{
    if from >= chars.len() || text_index::offset_of(chars, from) >= target {
        from
    } else {
        advanced(chars, from + 1, target)
    }
}

/// The first character at or after `from` that begins at UTF-16 unit `target` or
/// later; the end of the text if there is none.
pub open spec fn advanced_utf16(chars: Seq<char>, from: int, target: int) -> int
    decreases chars.len() - from,
{
    if from >= chars.len() || text_index::utf16_offset_of(chars, from) >= target {
        from
    } else {
        advanced_utf16(chars, from + 1, target)
    }
}

impl<'a> StringIndexConverter<'a> {
    /// The index of the character that the converter is at.
    pub open spec fn index(self) -> int {
        text_index::index_at(self.text@, self.utf8_ix as int)
    }

    /// Whether both places are those of one character, or of the end of the text.
    pub open spec fn wf(self) -> bool {
        &&& text_index::begins_at(self.text@, self.index(), self.utf8_ix as int)
        &&& text_index::begins_at_utf16(self.text@, self.index(), self.utf16_ix as int)
    }

    /// The start of a text.
    pub fn new(text: &'a str) -> (converter: Self)
        ensures
            converter.wf(),
            converter.text@ == text@,
            converter.utf8_ix == 0,
            converter.utf16_ix == 0,
            converter.index() == 0,
    {
        proof {
            assert(text@.take(0) =~= Seq::<char>::empty());
            text_index::lemma_index_unique(text@, 0, 0);
        }
        StringIndexConverter { text, utf8_ix: 0, utf16_ix: 0 }
    }

    /// Moves forward to the first character at or past a byte, or to the end.
    pub fn advance_to_utf8_ix(&mut self, utf8_target: usize)
        requires
            old(self).wf(),
        ensures
            final(self).wf(),
            final(self).text@ == old(self).text@,
            final(self).index() == advanced(
                old(self).text@,
                old(self).index(),
                utf8_target as int,
            ),
    {
        let chars = text::chars_of(self.text);
        let _length: usize = text_index::byte_length(self.text);
        let ghost all = self.text@;
        let mut index: usize = text_index::find_index(&chars, self.utf8_ix);
        let ghost from = index as int;
        let mut utf8_ix: usize = self.utf8_ix;
        let mut utf16_ix: usize = self.utf16_ix;
        while index < chars.len() && utf8_ix < utf8_target
            invariant
                chars@ == all,
                text_index::utf8_len(all) <= usize::MAX,
                text_index::begins_at(all, index as int, utf8_ix as int),
                text_index::begins_at_utf16(all, index as int, utf16_ix as int),
                advanced(all, from, utf8_target as int) == advanced(
                    all,
                    index as int,
                    utf8_target as int,
                ),
            decreases chars@.len() - index,
        {
            proof {
                lemma_step_fits(all, index as int);
            }
            utf8_ix = utf8_ix + text_index::char_utf8_width(chars[index]);
            utf16_ix = utf16_ix + text_index::char_utf16_width(chars[index]);
            index = index + 1;
        }
        self.utf8_ix = utf8_ix;
        self.utf16_ix = utf16_ix;
        proof {
            text_index::lemma_index_unique(all, index as int, utf8_ix as int);
        }
    }

    /// Moves forward to the first character at or past a UTF-16 unit, or to the end.
    pub fn advance_to_utf16_ix(&mut self, utf16_target: usize)
        requires
            old(self).wf(),
        ensures
            final(self).wf(),
            final(self).text@ == old(self).text@,
            final(self).index() == advanced_utf16(
                old(self).text@,
                old(self).index(),
                utf16_target as int,
            ),
    {
        let chars = text::chars_of(self.text);
        let _length: usize = text_index::byte_length(self.text);
        let ghost all = self.text@;
        let mut index: usize = text_index::find_index(&chars, self.utf8_ix);
        let ghost from = index as int;
        let mut utf8_ix: usize = self.utf8_ix;
        let mut utf16_ix: usize = self.utf16_ix;
        while index < chars.len() && utf16_ix < utf16_target
            invariant
                chars@ == all,
                text_index::utf8_len(all) <= usize::MAX,
                text_index::begins_at(all, index as int, utf8_ix as int),
                text_index::begins_at_utf16(all, index as int, utf16_ix as int),
                advanced_utf16(all, from, utf16_target as int) == advanced_utf16(
                    all,
                    index as int,
                    utf16_target as int,
                ),
            decreases chars@.len() - index,
        {
            proof {
                lemma_step_fits(all, index as int);
            }
            utf8_ix = utf8_ix + text_index::char_utf8_width(chars[index]);
            utf16_ix = utf16_ix + text_index::char_utf16_width(chars[index]);
            index = index + 1;
        }
        self.utf8_ix = utf8_ix;
        self.utf16_ix = utf16_ix;
        proof {
            text_index::lemma_index_unique(all, index as int, utf8_ix as int);
        }
    }
}

/// The place after a character is not past the end of the text.
proof fn lemma_step_fits(chars: Seq<char>, index: int)
    requires
        0 <= index < chars.len(),
    ensures
        text_index::offset_of(chars, index + 1) == text_index::offset_of(chars, index)
            + text_index::utf8_width(chars[index]),
        text_index::utf16_offset_of(chars, index + 1) == text_index::utf16_offset_of(chars, index)
            + text_index::utf16_width(chars[index]),
        text_index::offset_of(chars, index + 1) <= text_index::utf8_len(chars),
        text_index::utf16_offset_of(chars, index + 1) <= text_index::utf8_len(chars),
{
    text_index::lemma_offset_step(chars, index);
    assert(chars.take(chars.len() as int) =~= chars);
    if index + 1 < chars.len() {
        text_index::lemma_offsets_increase(chars, index + 1, chars.len() as int);
    }
    text_index::lemma_lens_ordered(chars);
}

/// Moving to where a character begins reaches that character, whether the place is
/// given in bytes or in UTF-16 units: so a place that was turned into the other count
/// is found back by a converter that has not passed it yet.
pub proof fn law_places_are_reached(chars: Seq<char>, from: int, to: int)
    requires
        0 <= from <= to <= chars.len(),
    ensures
        advanced(chars, from, text_index::offset_of(chars, to) as int) == to,
        advanced_utf16(chars, from, text_index::utf16_offset_of(chars, to) as int) == to,
    decreases to - from,
{
    if from < to {
        text_index::lemma_offsets_increase(chars, from, to);
        law_places_are_reached(chars, from + 1, to);
    }
}

/// Moving forward never goes back, never leaves the text, and stops at or past the
/// byte asked for unless the text ends before.
pub proof fn law_moves_forward(chars: Seq<char>, from: int, target: int)
    requires
        0 <= from <= chars.len(),
    ensures
        from <= advanced(chars, from, target) <= chars.len(),
        advanced(chars, from, target) == chars.len() || text_index::offset_of(
            chars,
            advanced(chars, from, target),
        ) >= target,
    decreases chars.len() - from,
{
    if from < chars.len() && text_index::offset_of(chars, from) < target {
        law_moves_forward(chars, from + 1, target);
    }
}


/// A run of bytes that is set in one font.
#[derive(Clone, Copy, Debug, PartialEq, Eq, Structural)]
pub struct FontRun {
    pub font_id: usize,
    pub len: usize,
}

/// A range of UTF-16 units that is set in one font.
#[derive(Clone, Copy, Debug, PartialEq, Eq, Structural)]
pub struct FontSpan {
    pub font_id: usize,
    pub start: usize,
    pub length: usize,
}

/// The smaller of two numbers.
pub open spec fn smaller(a: int, b: int) -> int {
    if a <= b {
        a
    } else {
        b
    }
}

/// The ranges on which fonts are set, from run `at` on, where the character at
/// `index` is the next one to be set and the line has `line_len` UTF-16 units. Each
/// run covers the characters that begin in its bytes; nothing is set past the line.
pub open spec fn spans_from(
    chars: Seq<char>,
    runs: Seq<FontRun>,
    at: int,
    index: int,
    line_len: int,
) -> Seq<FontSpan>
    decreases runs.len() - at,
{
    let start = text_index::utf16_offset_of(chars, index) as int;
    if at >= runs.len() || start >= line_len {
        Seq::empty()
    } else {
        let next = advanced(chars, index, text_index::offset_of(chars, index) + runs[at].len);
        let end = smaller(text_index::utf16_offset_of(chars, next) as int, line_len);
        let span = FontSpan {
            font_id: runs[at].font_id,
            start: start as usize,
            length: (end - start) as usize,
        };
        if end == line_len {
            seq![span]
        } else {
            seq![span] + spans_from(chars, runs, at + 1, next, line_len)
        }
    }
}

/// The ranges of UTF-16 units on which the fonts of a line are set.
pub fn font_spans(text: &str, runs: &[FontRun], utf16_line_len: usize) -> (spans: Vec<FontSpan>)
    requires
        forall|i: int|
            0 <= i < runs@.len() ==> text_index::utf8_len(text@) + (#[trigger] runs@[i]).len
                <= usize::MAX,
    ensures
        spans@ == spans_from(text@, runs@, 0, 0, utf16_line_len as int),
{
    let mut converter = StringIndexConverter::new(text);
    let mut spans: Vec<FontSpan> = Vec::new();
    let mut at: usize = 0;
    let ghost all = spans_from(text@, runs@, 0, 0, utf16_line_len as int);
    assert(spans@ + all =~= all);
    while at < runs.len()
        invariant
            at <= runs@.len(),
            converter.wf(),
            converter.text@ == text@,
            forall|i: int|
                0 <= i < runs@.len() ==> text_index::utf8_len(text@) + (#[trigger] runs@[i]).len
                    <= usize::MAX,
            all == spans@ + spans_from(
                text@,
                runs@,
                at as int,
                converter.index(),
                utf16_line_len as int,
            ),
            all == spans_from(text@, runs@, 0, 0, utf16_line_len as int),
        decreases runs@.len() - at,
    {
        let ghost before = converter.index();
        let utf16_start: usize = converter.utf16_ix;
        if utf16_start >= utf16_line_len {
            assert(all =~= spans@);
            return spans;
        }
        proof {
            lemma_offset_in_text(text@, before);
            law_moves_forward(text@, before, converter.utf8_ix + runs@[at as int].len);
        }
        converter.advance_to_utf8_ix(converter.utf8_ix + runs[at].len);
        proof {
            if before < converter.index() {
                text_index::lemma_offsets_increase(text@, before, converter.index());
            }
        }
        let utf16_end: usize = if converter.utf16_ix <= utf16_line_len {
            converter.utf16_ix
        } else {
            utf16_line_len
        };
        let span = FontSpan {
            font_id: runs[at].font_id,
            start: utf16_start,
            length: utf16_end - utf16_start,
        };
        spans.push(span);
        if utf16_end == utf16_line_len {
            assert(all =~= spans@);
            return spans;
        }
        at = at + 1;
        assert(all =~= spans@ + spans_from(
            text@,
            runs@,
            at as int,
            converter.index(),
            utf16_line_len as int,
        ));
    }
    assert(all =~= spans@);
    spans
}

proof fn lemma_offset_in_text(chars: Seq<char>, index: int)
    requires
        0 <= index <= chars.len(),
    ensures
        text_index::offset_of(chars, index) <= text_index::utf8_len(chars),
{
    assert(chars.take(chars.len() as int) =~= chars);
    if index < chars.len() {
        text_index::lemma_offsets_increase(chars, index, chars.len() as int);
    }
}

/// Where the character begins, in bytes, that a shaped glyph stands for: the first one
/// at or past the glyph's UTF-16 unit.
pub open spec fn glyph_offset(chars: Seq<char>, utf16_ix: int) -> nat {
    text_index::offset_of(chars, advanced_utf16(chars, 0, utf16_ix))
}

/// A converter that has not passed a place reaches it as one from the start does.
proof fn lemma_resume(chars: Seq<char>, from: int, at: int, target: int)
    requires
        0 <= from <= at <= chars.len(),
        text_index::utf16_offset_of(chars, at) <= target,
    ensures
        advanced_utf16(chars, from, target) == advanced_utf16(chars, at, target),
    decreases at - from,
{
    if from < at {
        text_index::lemma_offsets_increase(chars, from, at);
        lemma_resume(chars, from + 1, at, target);
    }
}

/// Where the characters begin, in bytes, that shaped glyphs stand for. The glyphs may
/// come in any order.
pub fn glyph_offsets(text: &str, glyphs_utf16: &[usize]) -> (offsets: Vec<usize>)
    ensures
        offsets@.len() == glyphs_utf16@.len(),
        forall|i: int|
            0 <= i < offsets@.len() ==> #[trigger] offsets@[i] == glyph_offset(
                text@,
                glyphs_utf16@[i] as int,
            ),
{
    let mut converter = StringIndexConverter::new(text);
    let mut offsets: Vec<usize> = Vec::new();
    let mut i: usize = 0;
    while i < glyphs_utf16.len()
        invariant
            i <= glyphs_utf16@.len(),
            offsets@.len() == i,
            converter.wf(),
            converter.text@ == text@,
            forall|k: int|
                0 <= k < i ==> #[trigger] offsets@[k] == glyph_offset(
                    text@,
                    glyphs_utf16@[k] as int,
                ),
        decreases glyphs_utf16@.len() - i,
    {
        let target: usize = glyphs_utf16[i];
        if converter.utf16_ix > target {
            converter = StringIndexConverter::new(text);
        }
        assert(text@.take(0) =~= Seq::<char>::empty());
        proof {
            lemma_resume(text@, 0, converter.index(), target as int);
        }
        converter.advance_to_utf16_ix(target);
        offsets.push(converter.utf8_ix);
        i = i + 1;
    }
    offsets
}

/// A glyph at a character stands for that character.
pub proof fn law_glyphs_stand_for_their_characters(chars: Seq<char>, index: int)
    requires
        0 <= index <= chars.len(),
    ensures
        glyph_offset(chars, text_index::utf16_offset_of(chars, index) as int)
            == text_index::offset_of(chars, index),
{
    law_places_are_reached(chars, 0, index);
}

/// Fonts are set on one range behind the other, in the order of their runs, from the first place on;
/// none is set past the line.
pub proof fn law_fonts_are_set_without_gaps(
    chars: Seq<char>,
    runs: Seq<FontRun>,
    at: int,
    index: int,
    line_len: int,
)
    requires
        0 <= at,
        0 <= index <= chars.len(),
        line_len <= usize::MAX,
    ensures
        ({
            let spans = spans_from(chars, runs, at, index, line_len);
            let start = text_index::utf16_offset_of(chars, index);
            &&& spans.len() <= runs.len() - at || at > runs.len()
            &&& spans.len() == 0 <==> at >= runs.len() || start >= line_len
            &&& spans.len() > 0 ==> spans[0].start == start
            &&& forall|k: int|
                0 <= k < spans.len() ==> {
                    &&& (#[trigger] spans[k]).font_id == runs[at + k].font_id
                    &&& spans[k].start + spans[k].length <= line_len
                }
            &&& forall|k: int, l: int|
                0 <= k < l < spans.len() && l == k + 1 ==> (#[trigger] spans[l]).start == (
                #[trigger] spans[k]).start + spans[k].length
        }),
    decreases runs.len() - at,
{
    let spans = spans_from(chars, runs, at, index, line_len);
    let start = text_index::utf16_offset_of(chars, index) as int;
    if at < runs.len() && start < line_len {
        let target = text_index::offset_of(chars, index) + runs[at].len;
        let next = advanced(chars, index, target);
        law_moves_forward(chars, index, target);
        if index < next {
            text_index::lemma_offsets_increase(chars, index, next);
        }
        let end = smaller(text_index::utf16_offset_of(chars, next) as int, line_len);
        if end != line_len {
            let rest = spans_from(chars, runs, at + 1, next, line_len);
            law_fonts_are_set_without_gaps(chars, runs, at + 1, next, line_len);
            let first = seq![spans[0]];
            assert(spans =~= first + rest);
            assert forall|k: int, l: int| 0 <= k < l < spans.len() && l == k + 1 implies (
            #[trigger] spans[l]).start == (#[trigger] spans[k]).start + spans[k].length by {
                assert(spans[l] == rest[l - 1]);
                if k > 0 {
                    assert(spans[k] == rest[k - 1]);
                    assert(rest[l - 1].start == rest[k - 1].start + rest[k - 1].length);
                }
            }
            assert forall|k: int| 0 <= k < spans.len() implies {
                &&& (#[trigger] spans[k]).font_id == runs[at + k].font_id
                &&& spans[k].start + spans[k].length <= line_len
            } by {
                if k > 0 {
                    assert(spans[k] == rest[k - 1]);
                    assert(rest[k - 1].font_id == runs[(at + 1) + (k - 1)].font_id);
                }
            }
        }
    }
}

} // verus!
