//! A single-line text field: its contents, its selection, and the edits that a
//! keyboard, a mouse, the clipboard and an input method make to it.
//!
//! Places in the contents are byte offsets. The selection lies on character
//! boundaries at all times.

use crate::text;
use crate::text_index;
use std::ops::Range;
use unicode_segmentation::UnicodeSegmentation;
use vstd::prelude::*;

verus! {

/// Where the extended grapheme clusters of a text begin, in bytes.
pub uninterp spec fn grapheme_offsets(chars: Seq<char>) -> Seq<usize>;

/// What holds of the places where the clusters of a text begin: the first is the
/// start of the text, each later one is further on, and each is a character of the
/// text. Only an empty text has none.
pub open spec fn are_cluster_starts(chars: Seq<char>, starts: Seq<usize>) -> bool {
    &&& starts.len() == 0 <==> chars.len() == 0
    &&& starts.len() > 0 ==> starts[0] == 0
    &&& forall|i: int, j: int| 0 <= i < j < starts.len() ==> starts[i] < starts[j]
    &&& forall|i: int|
        0 <= i < starts.len() ==> text_index::is_offset(chars, #[trigger] starts[i] as int)
            && starts[i] < text_index::utf8_len(chars)
}

/// `UnicodeSegmentation::grapheme_indices` of the crate `unicode-segmentation`, for
/// extended clusters, gives the clusters of a text from its start to its end, each
/// with the byte at which it begins. They leave nothing out, none is empty, and none
/// begins inside a character.
#[verifier::external_body]
fn grapheme_starts(content: &str) -> (starts: Vec<usize>)
    ensures
        starts@ == grapheme_offsets(content@),
        are_cluster_starts(content@, starts@),
{
    content.grapheme_indices(true).map(|(start, _)| start).collect()
}

/// The last of `starts` before `offset`; 0 if there is none.
pub open spec fn start_before(starts: Seq<usize>, offset: int) -> int
    decreases starts.len(),
{
    if starts.len() == 0 {
        0
    } else if starts.last() < offset {
        starts.last() as int
    } else {
        start_before(starts.drop_last(), offset)
    }
}

/// How many of `starts` there are in front of the first at or after `offset`.
pub open spec fn ordinal(starts: Seq<usize>, offset: int) -> int
    decreases starts.len(),
{
    if starts.len() == 0 || starts[0] >= offset {
        0
    } else {
        1 + ordinal(starts.skip(1), offset)
    }
}

/// The start with a given ordinal; `end` past the last.
pub open spec fn start_at(starts: Seq<usize>, index: int, end: int) -> int {
    if 0 <= index < starts.len() {
        starts[index] as int
    } else {
        end
    }
}

/// The first of `starts` after `offset`; `end` if there is none.
pub open spec fn start_after(starts: Seq<usize>, offset: int, end: int) -> int {
    start_at(starts, ordinal(starts, offset + 1), end)
}

/// The place in one text that has the ordinal which `offset` has in another.
pub open spec fn mapped(from: Seq<usize>, to: Seq<usize>, to_end: int, offset: int) -> int {
    start_at(to, ordinal(from, offset), to_end)
}

proof fn lemma_ordinal(starts: Seq<usize>, offset: int, index: int)
    requires
        0 <= index <= starts.len(),
        forall|i: int| 0 <= i < index ==> starts[i] < offset,
        index < starts.len() ==> starts[index] >= offset,
    ensures
        ordinal(starts, offset) == index,
    decreases index,
{
    if index > 0 {
        assert forall|i: int| 0 <= i < index - 1 implies starts.skip(1)[i] < offset by {
            assert(starts.skip(1)[i] == starts[i + 1]);
        }
        assert(starts[0] < offset);
        lemma_ordinal(starts.skip(1), offset, index - 1);
    }
}

proof fn lemma_ordinal_monotone(starts: Seq<usize>, a: int, b: int)
    requires
        a <= b,
    ensures
        0 <= ordinal(starts, a) <= ordinal(starts, b) <= starts.len(),
    decreases starts.len(),
{
    if starts.len() > 0 {
        lemma_ordinal_monotone(starts.skip(1), a, b);
    }
}

/// Places keep their order when they are mapped to another text, and land on its
/// characters.
proof fn lemma_mapped(chars: Seq<char>, from: Seq<usize>, to: Seq<usize>, a: int, b: int)
    requires
        are_cluster_starts(chars, to),
        a <= b,
    ensures
        0 <= mapped(from, to, text_index::utf8_len(chars) as int, a) <= mapped(
            from,
            to,
            text_index::utf8_len(chars) as int,
            b,
        ) <= text_index::utf8_len(chars),
        text_index::is_offset(chars, mapped(from, to, text_index::utf8_len(chars) as int, a)),
        text_index::is_offset(chars, mapped(from, to, text_index::utf8_len(chars) as int, b)),
{
    lemma_ordinal_monotone(from, a, b);
    lemma_end_is_offset(chars);
}

/// The two ends of a text are places in it.
proof fn lemma_end_is_offset(chars: Seq<char>)
    ensures
        text_index::is_offset(chars, 0),
        text_index::is_offset(chars, text_index::utf8_len(chars) as int),
{
    assert(chars.take(0) =~= Seq::<char>::empty());
    assert(chars.take(chars.len() as int) =~= chars);
    assert(text_index::begins_at(chars, 0, 0));
    assert(text_index::begins_at(
        chars,
        chars.len() as int,
        text_index::utf8_len(chars) as int,
    ));
}

proof fn lemma_offset_bounded(chars: Seq<char>, offset: int)
    requires
        text_index::is_offset(chars, offset),
    ensures
        0 <= offset <= text_index::utf8_len(chars),
{
    let index = text_index::index_at(chars, offset);
    assert(text_index::begins_at(chars, index, offset));
    assert(chars.take(chars.len() as int) =~= chars);
    if index < chars.len() {
        text_index::lemma_offsets_increase(chars, index, chars.len() as int);
    }
}

/// The last of `starts` before `offset`; 0 if there is none.
pub fn previous_start(starts: &[usize], offset: usize) -> (previous: usize)
    ensures
        previous == start_before(starts@, offset as int),
{
    let mut count: usize = starts.len();
    assert(starts@.take(count as int) =~= starts@);
    while count > 0
        invariant
            count <= starts@.len(),
            start_before(starts@, offset as int) == start_before(
                starts@.take(count as int),
                offset as int,
            ),
        decreases count,
    {
        assert(starts@.take(count as int).last() == starts@[count - 1]);
        assert(starts@.take(count as int).drop_last() =~= starts@.take(count - 1));
        if starts[count - 1] < offset {
            return starts[count - 1];
        }
        count = count - 1;
    }
    0
}

/// How many of `starts` there are in front of the first at or after `offset`.
pub fn start_ordinal(starts: &[usize], offset: usize) -> (index: usize)
    ensures
        index == ordinal(starts@, offset as int),
{
    let mut index: usize = 0;
    while index < starts.len() && starts[index] < offset
        invariant
            index <= starts@.len(),
            forall|i: int| 0 <= i < index ==> starts@[i] < offset,
        decreases starts@.len() - index,
    {
        index = index + 1;
    }
    proof {
        lemma_ordinal(starts@, offset as int, index as int);
    }
    index
}

/// The first of `starts` after `offset`; `end` if there is none.
pub fn next_start(starts: &[usize], offset: usize, end: usize) -> (next: usize)
    ensures
        next == start_after(starts@, offset as int, end as int),
{
    let mut index: usize = 0;
    while index < starts.len() && starts[index] <= offset
        invariant
            index <= starts@.len(),
            forall|i: int| 0 <= i < index ==> starts@[i] <= offset,
        decreases starts@.len() - index,
    {
        index = index + 1;
    }
    proof {
        lemma_ordinal(starts@, offset + 1, index as int);
    }
    if index < starts.len() {
        starts[index]
    } else {
        end
    }
}

/// The place in one text that has the ordinal which `offset` has in another.
pub fn map_offset(from: &[usize], to: &[usize], to_end: usize, offset: usize) -> (place: usize)
    ensures
        place == mapped(from@, to@, to_end as int, offset as int),
{
    let index: usize = start_ordinal(from, offset);
    if index < to.len() {
        to[index]
    } else {
        to_end
    }
}


/// A simple single-line text input.
pub struct TextInput {
    pub content: String,
    pub placeholder: String,
    pub selected_range: Range<usize>,
    pub selection_reversed: bool,
    pub marked_range: Option<Range<usize>>,
    /// Whether the line was painted since its text was last set.
    pub has_layout: bool,
    pub is_selecting: bool,
    pub is_masked: bool,
    pub label: Option<String>,
}

/// The state of a text input.
pub struct InputView {
    pub content: Seq<char>,
    pub placeholder: Seq<char>,
    pub start: int,
    pub end: int,
    pub reversed: bool,
    pub marked: Option<(int, int)>,
    pub has_layout: bool,
    pub selecting: bool,
    pub masked: bool,
    pub label: Option<Seq<char>>,
}

/// A range as a pair of numbers.
pub open spec fn span(range: Option<Range<usize>>) -> Option<(int, int)> {
    match range {
        Some(range) => Some((range.start as int, range.end as int)),
        None => None,
    }
}

impl View for TextInput {
    type V = InputView;

    open spec fn view(&self) -> InputView {
        InputView {
            content: self.content@,
            placeholder: self.placeholder@,
            start: self.selected_range.start as int,
            end: self.selected_range.end as int,
            reversed: self.selection_reversed,
            marked: span(self.marked_range),
            has_layout: self.has_layout,
            selecting: self.is_selecting,
            masked: self.is_masked,
            label: match self.label {
                Some(label) => Some(label@),
                None => None,
            },
        }
    }
}

/// Whether a pair of places is a range of characters of a text.
pub open spec fn is_range(chars: Seq<char>, start: int, end: int) -> bool {
    &&& start <= end
    &&& text_index::is_offset(chars, start)
    &&& text_index::is_offset(chars, end)
}

/// Whether the selection and the marked text are ranges of characters.
pub open spec fn input_wf(input: InputView) -> bool {
    &&& is_range(input.content, input.start, input.end)
    &&& match input.marked {
        Some((start, end)) => is_range(input.content, start, end),
        None => true,
    }
}

/// An input with nothing in it.
pub open spec fn empty_input(placeholder: Seq<char>) -> InputView {
    InputView {
        content: Seq::empty(),
        placeholder,
        start: 0,
        end: 0,
        reversed: false,
        marked: None,
        has_layout: false,
        selecting: false,
        masked: false,
        label: None,
    }
}

/// The input with other contents and the cursor behind them.
pub open spec fn with_text(input: InputView, new_text: Seq<char>) -> InputView {
    InputView {
        content: new_text,
        start: text_index::utf8_len(new_text) as int,
        end: text_index::utf8_len(new_text) as int,
        reversed: false,
        marked: None,
        has_layout: false,
        ..input
    }
}

/// The end of the selection that moves.
pub open spec fn cursor(input: InputView) -> int {
    if input.reversed {
        input.start
    } else {
        input.end
    }
}

/// The end of the selection that stays.
pub open spec fn anchor(input: InputView) -> int {
    if input.reversed {
        input.end
    } else {
        input.start
    }
}

/// The input with the cursor moved and nothing selected.
pub open spec fn moved(input: InputView, offset: int) -> InputView {
    InputView { start: offset, end: offset, reversed: false, ..input }
}

/// The input with the selection drawn from its anchor to a place.
pub open spec fn selected_to(input: InputView, offset: int) -> InputView {
    let fixed = anchor(input);
    if input.reversed {
        if offset <= fixed {
            InputView { start: offset, ..input }
        } else {
            InputView { start: fixed, end: offset, reversed: false, ..input }
        }
    } else {
        if fixed <= offset {
            InputView { end: offset, ..input }
        } else {
            InputView { start: offset, end: fixed, reversed: true, ..input }
        }
    }
}

/// What is shown of the contents: the contents, or a bullet for each of their clusters.
pub open spec fn displayed(input: InputView) -> Seq<char> {
    if input.masked && input.content.len() > 0 {
        Seq::new(grapheme_offsets(input.content).len(), |i: int| '\u{2022}')
    } else {
        input.content
    }
}

/// The place in the contents that stands at a place of what is shown.
pub open spec fn content_place(input: InputView, display_place: int) -> int {
    mapped(
        grapheme_offsets(displayed(input)),
        grapheme_offsets(input.content),
        text_index::utf8_len(input.content) as int,
        display_place,
    )
}

/// The place in what is shown that stands for a place of the contents.
pub open spec fn display_place(input: InputView, content_place: int) -> int {
    mapped(
        grapheme_offsets(input.content),
        grapheme_offsets(displayed(input)),
        text_index::utf8_len(displayed(input)) as int,
        content_place,
    )
}

/// Whether the placeholder is drawn: if there is nothing to show.
pub open spec fn shows_placeholder(input: InputView) -> bool {
    displayed(input).len() == 0
}

/// The text that is drawn.
pub open spec fn text_drawn(input: InputView) -> Seq<char> {
    if shows_placeholder(input) {
        input.placeholder
    } else {
        displayed(input)
    }
}

/// The selection that is drawn, if anything is selected.
pub open spec fn selection_drawn(input: InputView) -> Option<(int, int)> {
    if input.start != input.end {
        Some((display_place(input, input.start), display_place(input, input.end)))
    } else {
        None
    }
}

/// Where the cursor is drawn, if it is.
pub open spec fn cursor_drawn(input: InputView) -> Option<usize> {
    if shows_placeholder(input) {
        None
    } else {
        Some(display_place(input, cursor(input)) as usize)
    }
}

/// A text with a range of bytes replaced.
pub open spec fn spliced(chars: Seq<char>, start: int, end: int, new_text: Seq<char>) -> Seq<
    char,
> {
    chars.take(text_index::index_at(chars, start)) + new_text + chars.skip(
        text_index::index_at(chars, end),
    )
}

/// The range that an edit replaces: the one asked for, given in UTF-16 units of what is
/// shown, if there is such a range; else the marked text; else the selection.
pub open spec fn edited_range(input: InputView, range_utf16: Option<(int, int)>) -> (int, int) {
    let asked = match range_utf16 {
        Some((start, end)) => text_index::from_utf16(displayed(input), start, end),
        None => None,
    };
    match asked {
        Some((start, end)) => (content_place(input, start), content_place(input, end)),
        None => match input.marked {
            Some(range) => range,
            None => (input.start, input.end),
        },
    }
}

/// The input with a range replaced and the cursor behind the new text.
pub open spec fn replaced_range(
    input: InputView,
    start: int,
    end: int,
    new_text: Seq<char>,
) -> InputView {
    let after = start + text_index::utf8_len(new_text);
    InputView {
        content: spliced(input.content, start, end, new_text),
        start: after,
        end: after,
        reversed: false,
        marked: None,
        ..input
    }
}

/// The input after an edit.
pub open spec fn replaced(
    input: InputView,
    range_utf16: Option<(int, int)>,
    new_text: Seq<char>,
) -> InputView {
    let (start, end) = edited_range(input, range_utf16);
    replaced_range(input, start, end, new_text)
}

/// The input with a range replaced by text that is still being composed: the new text
/// is marked, and the part of it that was asked for is selected.
pub open spec fn marked_in_range(
    input: InputView,
    start: int,
    end: int,
    new_text: Seq<char>,
    selected_utf16: Option<(int, int)>,
) -> InputView {
    let after = start + text_index::utf8_len(new_text);
    let selected = match selected_utf16 {
        Some((from, to)) => text_index::from_utf16(new_text, from, to),
        None => None,
    };
    let (from, to) = match selected {
        Some((from, to)) => (start + from, start + to),
        None => (after, after),
    };
    InputView {
        content: spliced(input.content, start, end, new_text),
        start: from,
        end: to,
        reversed: false,
        marked: if new_text.len() == 0 {
            None
        } else {
            Some((start, after))
        },
        ..input
    }
}

/// A text with each line break turned into a space.
pub open spec fn on_one_line(chars: Seq<char>) -> Seq<char> {
    chars.map_values(
        |c: char|
            if c == '\n' {
                ' '
            } else {
                c
            },
    )
}

/// The characters of a text in a range of bytes.
pub open spec fn part(chars: Seq<char>, start: int, end: int) -> Seq<char> {
    chars.subrange(text_index::index_at(chars, start), text_index::index_at(chars, end))
}

/// Places in new text are places in the whole, counted from where the new text begins.
proof fn lemma_spliced_offset(
    chars: Seq<char>,
    start: int,
    end: int,
    new_text: Seq<char>,
    offset: int,
)
    requires
        is_range(chars, start, end),
        text_index::is_offset(new_text, offset),
    ensures
        text_index::is_offset(spliced(chars, start, end, new_text), start + offset),
{
    let i = text_index::index_at(chars, start);
    let k = text_index::index_at(new_text, offset);
    assert(text_index::begins_at(chars, i, start));
    assert(text_index::begins_at(new_text, k, offset));
    let whole = spliced(chars, start, end, new_text);
    assert(text_index::begins_at(chars, text_index::index_at(chars, end), end));
    assert(whole.take(i + k) =~= chars.take(i) + new_text.take(k));
    text_index::lemma_lens_add(chars.take(i), new_text.take(k));
    assert(text_index::begins_at(whole, i + k, start + offset));
}

/// A range of one text is a range of places in order.
proof fn lemma_range_indices(chars: Seq<char>, start: int, end: int)
    requires
        is_range(chars, start, end),
    ensures
        0 <= text_index::index_at(chars, start) <= text_index::index_at(chars, end) <= chars.len(),
        0 <= start <= end <= text_index::utf8_len(chars),
{
    let i = text_index::index_at(chars, start);
    let j = text_index::index_at(chars, end);
    assert(text_index::begins_at(chars, i, start));
    assert(text_index::begins_at(chars, j, end));
    if j < i {
        text_index::lemma_offsets_increase(chars, j, i);
    }
    lemma_offset_bounded(chars, start);
    lemma_offset_bounded(chars, end);
}

/// The text with a range of bytes replaced.
pub fn splice(content: &str, range: Range<usize>, new_text: &str) -> (result: String)
    requires
        is_range(content@, range.start as int, range.end as int),
    ensures
        result@ == spliced(content@, range.start as int, range.end as int, new_text@),
{
    let chars = text::chars_of(content);
    let _length: usize = text_index::byte_length(content);
    proof {
        lemma_range_indices(content@, range.start as int, range.end as int);
    }
    let first: usize = text_index::find_index(&chars, range.start);
    let last: usize = text_index::find_index(&chars, range.end);
    let mut result = text::text_of(&chars, 0, first);
    let rest = text::text_of(&chars, last, chars.len());
    result.append(new_text);
    result.append(rest.as_str());
    assert(result@ =~= spliced(content@, range.start as int, range.end as int, new_text@));
    result
}

/// The characters of a text in a range of bytes.
pub fn slice(content: &str, range: Range<usize>) -> (result: String)
    requires
        is_range(content@, range.start as int, range.end as int),
    ensures
        result@ == part(content@, range.start as int, range.end as int),
{
    let chars = text::chars_of(content);
    let _length: usize = text_index::byte_length(content);
    proof {
        lemma_range_indices(content@, range.start as int, range.end as int);
    }
    let first: usize = text_index::find_index(&chars, range.start);
    let last: usize = text_index::find_index(&chars, range.end);
    text::text_of(&chars, first, last)
}

/// A text with each line break turned into a space.
pub fn one_line(content: &str) -> (result: String)
    ensures
        result@ == on_one_line(content@),
{
    let chars = text::chars_of(content);
    let mut result = String::new();
    let mut i: usize = 0;
    while i < chars.len()
        invariant
            chars@ == content@,
            i <= chars@.len(),
            result@ == on_one_line(content@.take(i as int)),
        decreases chars@.len() - i,
    {
        let c = chars[i];
        result.push(
            if c == '\n' {
                ' '
            } else {
                c
            },
        );
        i = i + 1;
        assert(on_one_line(content@.take(i as int)) =~= result@);
    }
    assert(content@.take(content@.len() as int) =~= content@);
    result
}


/// A text of `count` bullets.
fn bullets(count: usize) -> (result: String)
    ensures
        result@ == Seq::new(count as nat, |i: int| '\u{2022}'),
{
    let mut result = String::new();
    let mut i: usize = 0;
    while i < count
        invariant
            i <= count,
            result@ == Seq::new(i as nat, |k: int| '\u{2022}'),
        decreases count - i,
    {
        result.push('\u{2022}');
        i = i + 1;
        assert(result@ =~= Seq::new(i as nat, |k: int| '\u{2022}'));
    }
    result
}

/// What is shown of contents that have `clusters` grapheme clusters.
pub fn display_of(content: &str, masked: bool, clusters: usize) -> (result: String)
    ensures
        result@ == if masked && content@.len() > 0 {
            Seq::new(clusters as nat, |i: int| '\u{2022}')
        } else {
            content@
        },
{
    if masked && !content.is_empty() {
        bullets(clusters)
    } else {
        content.to_owned()
    }
}

/// Where a press of the mouse hit the line, as far as the layout tells.
#[derive(Clone, Copy, Debug, PartialEq, Eq, Structural)]
pub enum MouseHit {
    /// At or before the left edge.
    Before,
    /// At or behind the right edge.
    Behind,
    /// Over the line, nearest to this place of what is shown.
    Over(usize),
}

/// A selection in UTF-16 units of what is shown.
#[derive(Debug)]
pub struct UTF16Selection {
    pub range: Range<usize>,
    pub reversed: bool,
}

/// What is drawn of a text input.
#[derive(Debug)]
pub struct LineState {
    pub text: String,
    pub is_placeholder: bool,
    pub selection: Option<Range<usize>>,
    pub cursor: Option<usize>,
}

/// A copy of a range.
fn copy_range(range: &Range<usize>) -> (copy: Range<usize>)
    ensures
        copy == *range,
{
    range.start..range.end
}

impl TextInput {
    /// Whether the selection and the marked text are ranges of characters.
    pub open spec fn wf(self) -> bool {
        input_wf(self@)
    }

    /// An empty input.
    pub fn new(placeholder: &str) -> (input: Self)
        ensures
            input.wf(),
            input@ == empty_input(placeholder@),
    {
        proof {
            lemma_end_is_offset(Seq::empty());
        }
        TextInput {
            content: String::new(),
            placeholder: placeholder.to_owned(),
            selected_range: 0..0,
            selection_reversed: false,
            marked_range: None,
            has_layout: false,
            is_selecting: false,
            is_masked: false,
            label: None,
        }
    }

    /// The input with a label.
    pub fn with_label(self, label: &str) -> (input: Self)
        ensures
            input@ == (InputView { label: Some(label@), ..self@ }),
    {
        let mut input = self;
        input.label = Some(label.to_owned());
        input
    }

    /// The input with its contents shown as bullets, or not.
    pub fn with_masked(self, masked: bool) -> (input: Self)
        ensures
            input@ == (InputView { masked, ..self@ }),
    {
        let mut input = self;
        input.is_masked = masked;
        input
    }

    /// The input with its contents shown as bullets, or not.
    pub fn with_secure(self, secure: bool) -> (input: Self)
        ensures
            input@ == (InputView { masked: secure, ..self@ }),
    {
        self.with_masked(secure)
    }

    /// The contents.
    pub fn text(&self) -> (content: &str)
        ensures
            content@ == self@.content,
    {
        self.content.as_str()
    }

    /// Sets the contents, with the cursor behind them.
    pub fn set_text(&mut self, new_text: String)
        ensures
            final(self).wf(),
            final(self)@ == with_text(old(self)@, new_text@),
    {
        let end: usize = text_index::byte_length(new_text.as_str());
        proof {
            lemma_end_is_offset(new_text@);
        }
        self.content = new_text;
        self.selected_range = end..end;
        self.selection_reversed = false;
        self.marked_range = None;
        self.has_layout = false;
    }

    /// Removes the contents.
    pub fn clear(&mut self)
        ensures
            final(self).wf(),
            final(self)@ == with_text(old(self)@, Seq::empty()),
    {
        self.set_text(String::new());
    }

    /// Notes that the line was painted, so that its layout is known.
    pub fn painted(&mut self)
        ensures
            final(self)@ == (InputView { has_layout: true, ..old(self)@ }),
    {
        self.has_layout = true;
    }

    /// The end of the selection that moves.
    pub fn cursor_offset(&self) -> (offset: usize)
        ensures
            offset == cursor(self@),
    {
        if self.selection_reversed {
            self.selected_range.start
        } else {
            self.selected_range.end
        }
    }

    /// Moves the cursor and selects nothing.
    pub fn move_to(&mut self, offset: usize)
        ensures
            final(self)@ == moved(old(self)@, offset as int),
            old(self).wf() && text_index::is_offset(old(self)@.content, offset as int)
                ==> final(self).wf(),
    {
        self.selected_range = offset..offset;
        self.selection_reversed = false;
    }

    /// Draws the selection from its anchor to a place.
    pub fn select_to(&mut self, offset: usize)
        requires
            old(self)@.start <= old(self)@.end,
        ensures
            final(self)@ == selected_to(old(self)@, offset as int),
            old(self).wf() && text_index::is_offset(old(self)@.content, offset as int)
                ==> final(self).wf(),
    {
        if self.selection_reversed {
            self.selected_range.start = offset;
        } else {
            self.selected_range.end = offset;
        }
        if self.selected_range.end < self.selected_range.start {
            self.selection_reversed = !self.selection_reversed;
            self.selected_range = self.selected_range.end..self.selected_range.start;
        }
    }

    /// Where the cluster before a place begins; 0 if there is none.
    pub fn previous_boundary(&self, offset: usize) -> (boundary: usize)
        ensures
            boundary == start_before(grapheme_offsets(self@.content), offset as int),
            are_cluster_starts(self@.content, grapheme_offsets(self@.content)),
            text_index::is_offset(self@.content, boundary as int),
    {
        let starts = grapheme_starts(self.content.as_str());
        proof {
            lemma_end_is_offset(self@.content);
            lemma_start_before(starts@, offset as int);
        }
        previous_start(&starts, offset)
    }

    /// Where the next cluster after a place begins; the end if there is none.
    pub fn next_boundary(&self, offset: usize) -> (boundary: usize)
        ensures
            boundary == start_after(
                grapheme_offsets(self@.content),
                offset as int,
                text_index::utf8_len(self@.content) as int,
            ),
            are_cluster_starts(self@.content, grapheme_offsets(self@.content)),
            text_index::is_offset(self@.content, boundary as int),
    {
        let starts = grapheme_starts(self.content.as_str());
        proof {
            lemma_end_is_offset(self@.content);
        }
        next_start(&starts, offset, text_index::byte_length(self.content.as_str()))
    }

    /// What is shown of the contents: the contents, or a bullet for each of their
    /// clusters.
    pub fn display_text(&self) -> (shown: String)
        ensures
            shown@ == displayed(self@),
    {
        let starts = grapheme_starts(self.content.as_str());
        display_of(self.content.as_str(), self.is_masked, starts.len())
    }

    /// The place in what is shown that stands for a place of the contents.
    pub fn display_index_for_content_offset(&self, content_offset: usize) -> (index: usize)
        ensures
            index == display_place(self@, content_offset as int),
    {
        let shown = self.display_text();
        let from = grapheme_starts(self.content.as_str());
        let to = grapheme_starts(shown.as_str());
        map_offset(&from, &to, text_index::byte_length(shown.as_str()), content_offset)
    }

    /// The place in the contents that stands at a place of what is shown.
    pub fn content_offset_for_display_index(&self, display_index: usize) -> (offset: usize)
        ensures
            offset == content_place(self@, display_index as int),
            text_index::is_offset(self@.content, offset as int),
    {
        let shown = self.display_text();
        let from = grapheme_starts(shown.as_str());
        let to = grapheme_starts(self.content.as_str());
        proof {
            lemma_mapped(self@.content, from@, to@, display_index as int, display_index as int);
        }
        map_offset(
            &from,
            &to,
            text_index::byte_length(self.content.as_str()),
            display_index,
        )
    }

    /// The range in what is shown that stands for a range of the contents.
    pub fn display_range_for_content_range(&self, content_range: Range<usize>) -> (range: Range<
        usize,
    >)
        requires
            content_range.start <= content_range.end,
        ensures
            range.start == display_place(self@, content_range.start as int),
            range.end == display_place(self@, content_range.end as int),
            is_range(displayed(self@), range.start as int, range.end as int),
    {
        let shown = self.display_text();
        let from = grapheme_starts(self.content.as_str());
        let to = grapheme_starts(shown.as_str());
        let end: usize = text_index::byte_length(shown.as_str());
        proof {
            lemma_mapped(
                displayed(self@),
                from@,
                to@,
                content_range.start as int,
                content_range.end as int,
            );
        }
        map_offset(&from, &to, end, content_range.start)..map_offset(
            &from,
            &to,
            end,
            content_range.end,
        )
    }

    /// The range of the contents that stands at a range of what is shown, given in
    /// UTF-16 units, where there is such a range.
    pub fn content_range_for_display_utf16_range(&self, range_utf16: Range<usize>) -> (range:
        Option<Range<usize>>)
        ensures
            match text_index::from_utf16(
                displayed(self@),
                range_utf16.start as int,
                range_utf16.end as int,
            ) {
                Some((start, end)) => span(range) == Some(
                    (content_place(self@, start), content_place(self@, end)),
                ),
                None => range is None,
            },
            range is Some ==> is_range(
                self@.content,
                range->0.start as int,
                range->0.end as int,
            ),
    {
        let shown = self.display_text();
        match text_index::range_from_utf16(shown.as_str(), range_utf16) {
            Some(display_range) => {
                let from = grapheme_starts(shown.as_str());
                let to = grapheme_starts(self.content.as_str());
                let end: usize = text_index::byte_length(self.content.as_str());
                proof {
                    text_index::law_utf8_range_comes_back(
                        displayed(self@),
                        range_utf16.start as int,
                        range_utf16.end as int,
                    );
                    lemma_mapped(
                        self@.content,
                        from@,
                        to@,
                        display_range.start as int,
                        display_range.end as int,
                    );
                }
                Some(
                    map_offset(&from, &to, end, display_range.start)..map_offset(
                        &from,
                        &to,
                        end,
                        display_range.end,
                    ),
                )
            },
            None => None,
        }
    }

    /// The range that an edit replaces.
    fn range_to_edit(&self, range_utf16: &Option<Range<usize>>) -> (range: Range<usize>)
        requires
            self.wf(),
        ensures
            (range.start as int, range.end as int) == edited_range(self@, span(*range_utf16)),
            is_range(self@.content, range.start as int, range.end as int),
    {
        let asked = match range_utf16 {
            Some(range) => self.content_range_for_display_utf16_range(copy_range(range)),
            None => None,
        };
        match asked {
            Some(range) => range,
            None => match &self.marked_range {
                Some(range) => copy_range(range),
                None => copy_range(&self.selected_range),
            },
        }
    }

    /// Replaces a range of the contents and puts the cursor behind the new text.
    pub fn replace_range(&mut self, range: Range<usize>, new_text: &str)
        requires
            is_range(old(self)@.content, range.start as int, range.end as int),
        ensures
            final(self).wf(),
            final(self)@ == replaced_range(
                old(self)@,
                range.start as int,
                range.end as int,
                new_text@,
            ),
    {
        let start: usize = range.start;
        let ghost end = range.end as int;
        let ghost content = self.content@;
        self.content = splice(self.content.as_str(), range, new_text);
        proof {
            lemma_end_is_offset(new_text@);
            lemma_spliced_offset(
                content,
                start as int,
                end,
                new_text@,
                text_index::utf8_len(new_text@) as int,
            );
            lemma_offset_bounded(self.content@, start + text_index::utf8_len(new_text@));
        }
        let _length: usize = text_index::byte_length(self.content.as_str());
        let after: usize = start + text_index::byte_length(new_text);
        self.selected_range = after..after;
        self.selection_reversed = false;
        self.marked_range = None;
    }

    /// Replaces a range of the contents by text that is still being composed.
    pub fn replace_and_mark_range(
        &mut self,
        range: Range<usize>,
        new_text: &str,
        selected_utf16: Option<Range<usize>>,
    )
        requires
            is_range(old(self)@.content, range.start as int, range.end as int),
        ensures
            final(self).wf(),
            final(self)@ == marked_in_range(
                old(self)@,
                range.start as int,
                range.end as int,
                new_text@,
                span(selected_utf16),
            ),
    {
        let start: usize = range.start;
        let ghost end = range.end as int;
        let ghost content = self.content@;
        self.content = splice(self.content.as_str(), range, new_text);
        proof {
            lemma_end_is_offset(new_text@);
            lemma_spliced_offset(content, start as int, end, new_text@, 0);
            lemma_spliced_offset(
                content,
                start as int,
                end,
                new_text@,
                text_index::utf8_len(new_text@) as int,
            );
            lemma_offset_bounded(self.content@, start + text_index::utf8_len(new_text@));
        }
        let _length: usize = text_index::byte_length(self.content.as_str());
        let after: usize = start + text_index::byte_length(new_text);
        let ghost asked = span(selected_utf16);
        let inner = match selected_utf16 {
            Some(range_utf16) => text_index::range_from_utf16(new_text, range_utf16),
            None => None,
        };
        self.selected_range = match inner {
            Some(inner) => {
                proof {
                    let (from, to) = asked->0;
                    text_index::law_utf8_range_comes_back(new_text@, from, to);
                    lemma_spliced_offset(
                        content,
                        start as int,
                        end,
                        new_text@,
                        inner.start as int,
                    );
                    lemma_spliced_offset(content, start as int, end, new_text@, inner.end as int);
                }
                start + inner.start..start + inner.end
            },
            None => after..after,
        };
        self.marked_range = if new_text.is_empty() {
            None
        } else {
            Some(start..after)
        };
        self.selection_reversed = false;
    }

    /// Replaces text: the range asked for in UTF-16 units of what is shown, if there is
    /// such a range; else the marked text; else the selection.
    pub fn replace_text_in_range(&mut self, range_utf16: Option<Range<usize>>, new_text: &str)
        requires
            old(self).wf(),
        ensures
            final(self).wf(),
            final(self)@ == replaced(old(self)@, span(range_utf16), new_text@),
    {
        let range = self.range_to_edit(&range_utf16);
        self.replace_range(range, new_text);
    }

    /// Replaces text as `replace_text_in_range` does, by text that is still being
    /// composed.
    pub fn replace_and_mark_text_in_range(
        &mut self,
        range_utf16: Option<Range<usize>>,
        new_text: &str,
        new_selected_range_utf16: Option<Range<usize>>,
    )
        requires
            old(self).wf(),
        ensures
            final(self).wf(),
            ({
                let (start, end) = edited_range(old(self)@, span(range_utf16));
                final(self)@ == marked_in_range(
                    old(self)@,
                    start,
                    end,
                    new_text@,
                    span(new_selected_range_utf16),
                )
            }),
    {
        let range = self.range_to_edit(&range_utf16);
        self.replace_and_mark_range(range, new_text, new_selected_range_utf16);
    }

    /// Marks no text any more.
    pub fn unmark_text(&mut self)
        ensures
            final(self)@ == (InputView { marked: None, ..old(self)@ }),
            old(self).wf() ==> final(self).wf(),
    {
        self.marked_range = None;
    }
}

proof fn lemma_start_before(starts: Seq<usize>, offset: int)
    ensures
        start_before(starts, offset) == 0 || exists|i: int|
            0 <= i < starts.len() && #[trigger] starts[i] == start_before(starts, offset),
    decreases starts.len(),
{
    if starts.len() > 0 {
        lemma_start_before(starts.drop_last(), offset);
        if starts.last() < offset {
            assert(starts[starts.len() - 1] == start_before(starts, offset));
        } else if start_before(starts, offset) != 0 {
            let i = choose|i: int|
                0 <= i < starts.drop_last().len() && #[trigger] starts.drop_last()[i]
                    == start_before(starts.drop_last(), offset);
            assert(starts[i] == start_before(starts, offset));
        }
    }
}


/// Where the cursor goes one cluster to the left.
pub open spec fn before_cursor(input: InputView) -> int {
    start_before(grapheme_offsets(input.content), cursor(input))
}

/// Where a place goes one cluster to the right.
pub open spec fn after_place(input: InputView, offset: int) -> int {
    start_after(
        grapheme_offsets(input.content),
        offset,
        text_index::utf8_len(input.content) as int,
    )
}

/// The input after the left arrow: at the start of the selection, or one cluster back.
pub open spec fn moved_left(input: InputView) -> InputView {
    moved(
        input,
        if input.start == input.end {
            before_cursor(input)
        } else {
            input.start
        },
    )
}

/// The input after the right arrow: at the end of the selection, or one cluster on.
pub open spec fn moved_right(input: InputView) -> InputView {
    moved(
        input,
        if input.start == input.end {
            after_place(input, input.end)
        } else {
            input.end
        },
    )
}

/// The input with nothing but the selection, or else the cluster before the cursor,
/// chosen for removal.
pub open spec fn chosen_backward(input: InputView) -> InputView {
    if input.start == input.end {
        selected_to(input, before_cursor(input))
    } else {
        input
    }
}

/// The input with nothing but the selection, or else the cluster behind the cursor,
/// chosen for removal.
pub open spec fn chosen_forward(input: InputView) -> InputView {
    if input.start == input.end {
        selected_to(input, after_place(input, cursor(input)))
    } else {
        input
    }
}

/// The input after the backspace key.
pub open spec fn erased_backward(input: InputView) -> InputView {
    replaced(chosen_backward(input), None, Seq::empty())
}

/// The input after the delete key.
pub open spec fn erased_forward(input: InputView) -> InputView {
    replaced(chosen_forward(input), None, Seq::empty())
}

/// The place in the contents that a press of the mouse chose.
pub open spec fn place_of_hit(input: InputView, hit: MouseHit) -> int {
    if input.content.len() == 0 {
        0
    } else if !input.has_layout {
        text_index::utf8_len(input.content) as int
    } else {
        match hit {
            MouseHit::Before => 0,
            MouseHit::Behind => text_index::utf8_len(input.content) as int,
            MouseHit::Over(display_index) => content_place(input, display_index as int),
        }
    }
}

/// The input after a press of the mouse.
pub open spec fn pressed(input: InputView, shift: bool, hit: MouseHit) -> InputView {
    let selecting = InputView { selecting: true, ..input };
    if shift {
        selected_to(selecting, place_of_hit(input, hit))
    } else {
        moved(selecting, place_of_hit(input, hit))
    }
}

/// The input after the text of the clipboard was pasted, if there is any.
pub open spec fn pasted_into(input: InputView, clipboard: Option<Seq<char>>) -> InputView {
    match clipboard {
        Some(pasted) => replaced(input, None, on_one_line(pasted)),
        None => input,
    }
}

/// The text that goes to the clipboard, if anything is selected.
pub open spec fn copied_from(input: InputView) -> Option<Seq<char>> {
    if input.start == input.end {
        None
    } else {
        Some(part(input.content, input.start, input.end))
    }
}

/// The input after its selected text was cut out.
pub open spec fn cut_out(input: InputView) -> InputView {
    if input.start == input.end {
        input
    } else {
        replaced(input, None, Seq::empty())
    }
}

/// The input with everything selected.
pub open spec fn all_selected(input: InputView) -> InputView {
    InputView {
        start: 0,
        end: text_index::utf8_len(input.content) as int,
        reversed: false,
        ..input
    }
}

/// The input after a key: the keys that edit or move do so, any other changes nothing.
pub open spec fn after_key(input: InputView, key: Seq<char>) -> InputView {
    if key == "backspace"@ {
        erased_backward(input)
    } else if key == "delete"@ {
        erased_forward(input)
    } else if key == "left"@ {
        moved_left(input)
    } else if key == "right"@ {
        moved_right(input)
    } else if key == "home"@ {
        moved(input, 0)
    } else if key == "end"@ {
        moved(input, text_index::utf8_len(input.content) as int)
    } else {
        input
    }
}

impl TextInput {
    /// The left arrow.
    pub fn left(&mut self)
        requires
            old(self).wf(),
        ensures
            final(self).wf(),
            final(self)@ == moved_left(old(self)@),
    {
        if self.selected_range.start == self.selected_range.end {
            let boundary: usize = self.previous_boundary(self.cursor_offset());
            self.move_to(boundary);
        } else {
            self.move_to(self.selected_range.start);
        }
    }

    /// The right arrow.
    pub fn right(&mut self)
        requires
            old(self).wf(),
        ensures
            final(self).wf(),
            final(self)@ == moved_right(old(self)@),
    {
        if self.selected_range.start == self.selected_range.end {
            let boundary: usize = self.next_boundary(self.selected_range.end);
            self.move_to(boundary);
        } else {
            self.move_to(self.selected_range.end);
        }
    }

    /// The left arrow with the selection drawn along.
    pub fn select_left(&mut self)
        requires
            old(self).wf(),
        ensures
            final(self).wf(),
            final(self)@ == selected_to(old(self)@, before_cursor(old(self)@)),
    {
        let boundary: usize = self.previous_boundary(self.cursor_offset());
        self.select_to(boundary);
    }

    /// The right arrow with the selection drawn along.
    pub fn select_right(&mut self)
        requires
            old(self).wf(),
        ensures
            final(self).wf(),
            final(self)@ == selected_to(
                old(self)@,
                after_place(old(self)@, cursor(old(self)@)),
            ),
    {
        let boundary: usize = self.next_boundary(self.cursor_offset());
        self.select_to(boundary);
    }

    /// Selects everything.
    pub fn select_all(&mut self)
        requires
            old(self).wf(),
        ensures
            final(self).wf(),
            final(self)@ == all_selected(old(self)@),
    {
        proof {
            lemma_end_is_offset(self@.content);
        }
        self.move_to(0);
        let end: usize = text_index::byte_length(self.content.as_str());
        self.select_to(end);
    }

    /// Moves to the start.
    pub fn home(&mut self)
        requires
            old(self).wf(),
        ensures
            final(self).wf(),
            final(self)@ == moved(old(self)@, 0),
    {
        proof {
            lemma_end_is_offset(self@.content);
        }
        self.move_to(0);
    }

    /// Moves to the end.
    pub fn end(&mut self)
        requires
            old(self).wf(),
        ensures
            final(self).wf(),
            final(self)@ == moved(
                old(self)@,
                text_index::utf8_len(old(self)@.content) as int,
            ),
    {
        proof {
            lemma_end_is_offset(self@.content);
        }
        let end: usize = text_index::byte_length(self.content.as_str());
        self.move_to(end);
    }

    /// The backspace key.
    pub fn backspace(&mut self)
        requires
            old(self).wf(),
        ensures
            final(self).wf(),
            final(self)@ == erased_backward(old(self)@),
    {
        if self.selected_range.start == self.selected_range.end {
            let previous: usize = self.previous_boundary(self.cursor_offset());
            self.select_to(previous);
        }
        let nothing = "";
        self.replace_text_in_range(None, nothing);
        proof {
            reveal_strlit("");
            assert(nothing@ =~= Seq::<char>::empty());
        }
    }

    /// The delete key.
    pub fn delete(&mut self)
        requires
            old(self).wf(),
        ensures
            final(self).wf(),
            final(self)@ == erased_forward(old(self)@),
    {
        if self.selected_range.start == self.selected_range.end {
            let next: usize = self.next_boundary(self.cursor_offset());
            self.select_to(next);
        }
        let nothing = "";
        self.replace_text_in_range(None, nothing);
        proof {
            reveal_strlit("");
            assert(nothing@ =~= Seq::<char>::empty());
        }
    }

    /// A key that was pressed.
    pub fn on_key_down(&mut self, key: &str)
        requires
            old(self).wf(),
        ensures
            final(self).wf(),
            final(self)@ == after_key(old(self)@, key@),
    {
        if text::same_text(key, "backspace") {
            self.backspace();
        } else if text::same_text(key, "delete") {
            self.delete();
        } else if text::same_text(key, "left") {
            self.left();
        } else if text::same_text(key, "right") {
            self.right();
        } else if text::same_text(key, "home") {
            self.home();
        } else if text::same_text(key, "end") {
            self.end();
        }
    }

    /// The place in the contents that a press of the mouse chose.
    pub fn index_for_mouse_position(&self, hit: MouseHit) -> (offset: usize)
        ensures
            offset == place_of_hit(self@, hit),
            text_index::is_offset(self@.content, offset as int),
    {
        proof {
            lemma_end_is_offset(self@.content);
        }
        if self.content.as_str().is_empty() {
            return 0;
        }
        let end: usize = text_index::byte_length(self.content.as_str());
        if !self.has_layout {
            return end;
        }
        match hit {
            MouseHit::Before => 0,
            MouseHit::Behind => end,
            MouseHit::Over(display_index) => self.content_offset_for_display_index(display_index),
        }
    }

    /// A press of the mouse: with the shift key it draws the selection, without it
    /// moves the cursor.
    pub fn on_mouse_down(&mut self, shift: bool, hit: MouseHit)
        requires
            old(self).wf(),
        ensures
            final(self).wf(),
            final(self)@ == pressed(old(self)@, shift, hit),
    {
        self.is_selecting = true;
        let offset: usize = self.index_for_mouse_position(hit);
        if shift {
            self.select_to(offset);
        } else {
            self.move_to(offset);
        }
    }

    /// Replaces the marked text or the selection by the text of the clipboard, on one
    /// line. Without such text nothing changes.
    pub fn paste(&mut self, clipboard: Option<&str>)
        requires
            old(self).wf(),
        ensures
            final(self).wf(),
            final(self)@ == pasted_into(
                old(self)@,
                match clipboard {
                    Some(pasted) => Some(pasted@),
                    None => None,
                },
            ),
    {
        match clipboard {
            Some(pasted) => {
                let pasted = one_line(pasted);
                self.replace_text_in_range(None, pasted.as_str());
            },
            None => {},
        }
    }

    /// The selected text, for the clipboard; nothing if nothing is selected.
    pub fn copy(&self) -> (copied: Option<String>)
        requires
            self.wf(),
        ensures
            text::optional(copied) == copied_from(self@),
    {
        if self.selected_range.start == self.selected_range.end {
            None
        } else {
            Some(slice(self.content.as_str(), copy_range(&self.selected_range)))
        }
    }

    /// Removes the selected text, or the marked text if there is any, and gives the
    /// selected text for the clipboard. Nothing happens if nothing is selected.
    pub fn cut(&mut self) -> (copied: Option<String>)
        requires
            old(self).wf(),
        ensures
            final(self).wf(),
            text::optional(copied) == copied_from(old(self)@),
            final(self)@ == cut_out(old(self)@),
    {
        let copied = self.copy();
        if copied.is_some() {
            let nothing = "";
            self.replace_text_in_range(None, nothing);
            proof {
                reveal_strlit("");
                assert(nothing@ =~= Seq::<char>::empty());
            }
        }
        copied
    }

    /// The text shown in a range of UTF-16 units, with the range that it has; nothing
    /// if there is no such range.
    pub fn text_for_range(&self, range_utf16: Range<usize>) -> (result: Option<
        (Range<usize>, String),
    >)
        ensures
            match text_index::from_utf16(
                displayed(self@),
                range_utf16.start as int,
                range_utf16.end as int,
            ) {
                Some((start, end)) => {
                    let (adjusted, shown) = result->0;
                    &&& result is Some
                    &&& adjusted == range_utf16
                    &&& shown@ == part(displayed(self@), start, end)
                },
                None => result is None,
            },
    {
        let shown = self.display_text();
        let ghost from = range_utf16.start as int;
        let ghost to = range_utf16.end as int;
        match text_index::range_from_utf16(shown.as_str(), range_utf16) {
            Some(range) => {
                proof {
                    text_index::law_utf8_range_comes_back(displayed(self@), from, to);
                }
                let adjusted = text_index::range_to_utf16(shown.as_str(), copy_range(&range));
                Some((adjusted, slice(shown.as_str(), range)))
            },
            None => None,
        }
    }

    /// The selection, in UTF-16 units of what is shown.
    pub fn selected_text_range(&self) -> (selection: UTF16Selection)
        requires
            self.wf(),
        ensures
            (selection.range.start as int, selection.range.end as int) == text_index::to_utf16(
                displayed(self@),
                display_place(self@, self@.start),
                display_place(self@, self@.end),
            ),
            selection.reversed == self@.reversed,
    {
        let shown = self.display_text();
        let range = self.display_range_for_content_range(copy_range(&self.selected_range));
        UTF16Selection {
            range: text_index::range_to_utf16(shown.as_str(), range),
            reversed: self.selection_reversed,
        }
    }

    /// The marked text, in UTF-16 units of what is shown.
    pub fn marked_text_range(&self) -> (range: Option<Range<usize>>)
        requires
            self.wf(),
        ensures
            match self@.marked {
                Some((start, end)) => span(range) == Some(
                    text_index::to_utf16(
                        displayed(self@),
                        display_place(self@, start),
                        display_place(self@, end),
                    ),
                ),
                None => range is None,
            },
    {
        match &self.marked_range {
            Some(range) => {
                let shown = self.display_text();
                let range = self.display_range_for_content_range(copy_range(range));
                Some(text_index::range_to_utf16(shown.as_str(), range))
            },
            None => None,
        }
    }

    /// The range of what is shown whose bounds are asked for in UTF-16 units; nothing if
    /// the line has no layout yet or has no such range.
    pub fn range_to_measure(&self, range_utf16: Range<usize>) -> (range: Option<Range<usize>>)
        ensures
            span(range) == if self@.has_layout {
                text_index::from_utf16(
                    displayed(self@),
                    range_utf16.start as int,
                    range_utf16.end as int,
                )
            } else {
                None
            },
    {
        if !self.has_layout {
            return None;
        }
        let shown = self.display_text();
        text_index::range_from_utf16(shown.as_str(), range_utf16)
    }

    /// The UTF-16 unit at a place of what is shown. Nothing if the line has no layout
    /// yet, or if no character begins there.
    pub fn character_index_for_point(&self, display_index: usize) -> (index: Option<usize>)
        ensures
            match index {
                Some(index) => self@.has_layout && text_index::is_offset(
                    displayed(self@),
                    display_index as int,
                ) && (0int, index as int) == text_index::to_utf16(
                    displayed(self@),
                    0,
                    display_index as int,
                ),
                None => !self@.has_layout || !text_index::is_offset(
                    displayed(self@),
                    display_index as int,
                ),
            },
    {
        if !self.has_layout {
            return None;
        }
        let shown = self.display_text();
        utf16_index_of(shown.as_str(), display_index)
    }

    /// What is drawn: the contents as they are shown, or the placeholder if there is
    /// nothing to show; the selection, if anything is selected; the cursor, unless the
    /// placeholder is drawn.
    pub fn line_state(&self) -> (line: LineState)
        requires
            self.wf(),
        ensures
            line.is_placeholder == shows_placeholder(self@),
            line.text@ == text_drawn(self@),
            span(line.selection) == selection_drawn(self@),
            line.cursor == cursor_drawn(self@),
    {
        let shown = self.display_text();
        let is_placeholder = shown.as_str().is_empty();
        let selection = if self.selected_range.start != self.selected_range.end {
            Some(self.display_range_for_content_range(copy_range(&self.selected_range)))
        } else {
            None
        };
        let cursor = if is_placeholder {
            None
        } else {
            Some(self.display_index_for_content_offset(self.cursor_offset()))
        };
        let text = if is_placeholder {
            self.placeholder.clone()
        } else {
            shown
        };
        LineState { text, is_placeholder, selection, cursor }
    }
}

/// The UTF-16 unit at a byte of a text, if a character begins there.
pub fn utf16_index_of(shown: &str, offset: usize) -> (index: Option<usize>)
    ensures
        match index {
            Some(index) => text_index::is_offset(shown@, offset as int) && (0int, index as int)
                == text_index::to_utf16(shown@, 0, offset as int),
            None => !text_index::is_offset(shown@, offset as int),
        },
{
    let chars = text::chars_of(shown);
    let _length: usize = text_index::byte_length(shown);
    let mut index: usize = 0;
    let mut at: usize = 0;
    assert(shown@.take(0) =~= Seq::<char>::empty());
    while index < chars.len() && at < offset
        invariant
            chars@ == shown@,
            text_index::utf8_len(shown@) <= usize::MAX,
            text_index::begins_at(shown@, index as int, at as int),
            forall|k: int| 0 <= k < index ==> text_index::offset_of(shown@, k) < offset,
        decreases chars@.len() - index,
    {
        proof {
            text_index::lemma_offset_step(shown@, index as int);
            let next = text_index::offset_of(shown@, index + 1) as int;
            assert(text_index::begins_at(shown@, index + 1, next));
            lemma_offset_bounded(shown@, next);
        }
        at = at + text_index::char_utf8_width(chars[index]);
        index = index + 1;
    }
    if at != offset {
        proof {
            if text_index::is_offset(shown@, offset as int) {
                let k = text_index::index_at(shown@, offset as int);
                assert(text_index::begins_at(shown@, k, offset as int));
                if index < k {
                    text_index::lemma_offsets_increase(shown@, index as int, k);
                }
            }
        }
        return None;
    }
    proof {
        lemma_end_is_offset(shown@);
        text_index::lemma_index_unique(shown@, 0, 0);
    }
    Some(text_index::range_to_utf16(shown, 0..offset).end)
}


/// Drawing the selection moves the cursor to the place asked for and leaves the anchor
/// where it was, on whichever side of it the place lies.
pub proof fn law_selecting_keeps_the_anchor(input: InputView, offset: int)
    requires
        input_wf(input),
    ensures
        offset != anchor(input) ==> anchor(selected_to(input, offset)) == anchor(input),
        offset != anchor(input) ==> cursor(selected_to(input, offset)) == offset,
        selected_to(input, anchor(input)).start == anchor(input),
        selected_to(input, anchor(input)).end == anchor(input),
        selected_to(input, offset).content == input.content,
{
}

/// An edit changes nothing outside the range that it replaces.
pub proof fn law_edit_keeps_the_rest(input: InputView, start: int, end: int, new_text: Seq<char>)
    requires
        is_range(input.content, start, end),
    ensures
        ({
            let i = text_index::index_at(input.content, start);
            let j = text_index::index_at(input.content, end);
            let after = replaced_range(input, start, end, new_text).content;
            &&& after.take(i) == input.content.take(i)
            &&& after.subrange(i, i + new_text.len()) == new_text
            &&& after.skip(i + new_text.len()) == input.content.skip(j)
        }),
{
    lemma_range_indices(input.content, start, end);
    let i = text_index::index_at(input.content, start);
    let j = text_index::index_at(input.content, end);
    let after = replaced_range(input, start, end, new_text).content;
    assert(after.take(i) =~= input.content.take(i));
    assert(after.subrange(i, i + new_text.len()) =~= new_text);
    assert(after.skip(i + new_text.len() as int) =~= input.content.skip(j));
}

/// Removing text that was just put in gives the contents back.
pub proof fn law_removing_undoes_inserting(chars: Seq<char>, start: int, new_text: Seq<char>)
    requires
        text_index::is_offset(chars, start),
    ensures
        ({
            let longer = spliced(chars, start, start, new_text);
            let end = start + text_index::utf8_len(new_text);
            is_range(longer, start, end) && spliced(longer, start, end, Seq::empty()) == chars
        }),
{
    let i = text_index::index_at(chars, start);
    assert(text_index::begins_at(chars, i, start));
    let longer = spliced(chars, start, start, new_text);
    let end = start + text_index::utf8_len(new_text);
    lemma_end_is_offset(new_text);
    lemma_spliced_offset(chars, start, start, new_text, 0);
    lemma_spliced_offset(chars, start, start, new_text, text_index::utf8_len(new_text) as int);
    assert(longer.take(i) =~= chars.take(i));
    assert(text_index::begins_at(longer, i, start));
    text_index::lemma_index_unique(longer, i, start);
    assert(longer.take(i + new_text.len() as int) =~= chars.take(i) + new_text);
    text_index::lemma_lens_add(chars.take(i), new_text);
    assert(text_index::begins_at(longer, i + new_text.len(), end));
    text_index::lemma_index_unique(longer, i + new_text.len() as int, end);
    assert(spliced(longer, start, end, Seq::empty()) =~= chars);
}

/// Typing over everything selected leaves nothing but what was typed.
pub proof fn law_typing_over_all_replaces_all(input: InputView, new_text: Seq<char>)
    requires
        input_wf(input),
        input.marked is None,
        input.start == 0,
        input.end == text_index::utf8_len(input.content),
    ensures
        replaced(input, None, new_text).content == new_text,
{
    let chars = input.content;
    assert(chars.take(0) =~= Seq::<char>::empty());
    assert(chars.take(chars.len() as int) =~= chars);
    text_index::lemma_index_unique(chars, 0, 0);
    text_index::lemma_index_unique(chars, chars.len() as int, input.end);
    assert(replaced(input, None, new_text).content =~= new_text);
}

/// What is shown of masked contents depends on nothing but how many clusters they
/// have: it is that many bullets.
pub proof fn law_masking_hides_the_contents(a: InputView, b: InputView)
    requires
        a.masked,
        b.masked,
        a.content.len() > 0,
        b.content.len() > 0,
    ensures
        grapheme_offsets(a.content).len() == grapheme_offsets(b.content).len() ==> displayed(a)
            == displayed(b),
        forall|i: int| 0 <= i < displayed(a).len() ==> displayed(a)[i] == '\u{2022}',
{
    if grapheme_offsets(a.content).len() == grapheme_offsets(b.content).len() {
        assert(displayed(a) =~= displayed(b));
    }
}

/// The places that the arrow keys go to lie on their side of the cursor.
pub proof fn law_arrows_move_apart(starts: Seq<usize>, offset: int, end: int)
    requires
        0 < offset < end,
        forall|i: int| 0 <= i < starts.len() ==> #[trigger] starts[i] < end,
    ensures
        start_before(starts, offset) < offset,
        start_after(starts, offset, end) > offset,
{
    lemma_before_is_before(starts, offset);
    lemma_after_is_after(starts, offset);
}

proof fn lemma_before_is_before(starts: Seq<usize>, offset: int)
    requires
        0 < offset,
    ensures
        start_before(starts, offset) < offset,
    decreases starts.len(),
{
    if starts.len() > 0 {
        lemma_before_is_before(starts.drop_last(), offset);
    }
}

proof fn lemma_after_is_after(starts: Seq<usize>, offset: int)
    ensures
        0 <= ordinal(starts, offset + 1) <= starts.len(),
        ordinal(starts, offset + 1) < starts.len() ==> starts[ordinal(starts, offset + 1)]
            > offset,
    decreases starts.len(),
{
    if starts.len() > 0 && starts[0] <= offset {
        lemma_after_is_after(starts.skip(1), offset);
    }
}

/// The place that the left arrow goes to is the last start of a cluster before the cursor, or 0;
/// the one that the right arrow goes to is the first start of a cluster behind the cursor, or the
/// end. Neither lies inside a cluster.
pub proof fn law_arrows_go_to_the_nearest_clusters(chars: Seq<char>, starts: Seq<usize>, offset: int)
    requires
        are_cluster_starts(chars, starts),
        offset >= 0,
    ensures
        ({
            let end = text_index::utf8_len(chars) as int;
            let before = start_before(starts, offset);
            let after = start_after(starts, offset, end);
            &&& before == 0 || exists|i: int| 0 <= i < starts.len() && #[trigger] starts[i] == before
            &&& before < offset || before == 0
            &&& forall|i: int|
                0 <= i < starts.len() && (#[trigger] starts[i]) < offset ==> starts[i] <= before
            &&& after == end || exists|i: int| 0 <= i < starts.len() && #[trigger] starts[i] == after
            &&& after > offset || after == end
            &&& forall|i: int|
                0 <= i < starts.len() && (#[trigger] starts[i]) > offset ==> after <= starts[i]
        }),
{
    lemma_start_before_is_last(starts, offset);
    lemma_after_is_after(starts, offset);
    lemma_before_ordinal(starts, offset + 1);
    let index = ordinal(starts, offset + 1);
    assert forall|i: int| 0 <= i < starts.len() && (#[trigger] starts[i]) > offset implies start_after(
        starts,
        offset,
        text_index::utf8_len(chars) as int,
    ) <= starts[i] by {
        assert(i >= index);
        if i > index {
            assert(starts[index] < starts[i]);
        }
    }
}

/// Going on from the start of a cluster and then back returns to it, and so does going back from
/// a start or the end and then on.
pub proof fn law_arrows_undo_each_other(chars: Seq<char>, starts: Seq<usize>, index: int)
    requires
        are_cluster_starts(chars, starts),
        0 <= index < starts.len(),
    ensures
        ({
            let end = text_index::utf8_len(chars) as int;
            let here = starts[index] as int;
            let next = start_at(starts, index + 1, end);
            &&& start_before(starts, start_after(starts, here, end)) == here
            &&& start_after(starts, start_before(starts, next), end) == next
        }),
{
    let end = text_index::utf8_len(chars) as int;
    let next = start_at(starts, index + 1, end);
    assert forall|i: int| 0 <= i < index + 1 implies starts[i] < starts[index] + 1 by {
        if i < index {
            assert(starts[i] < starts[index]);
        }
    }
    lemma_ordinal(starts, starts[index] + 1, index + 1);
    lemma_start_before_is_last(starts, next);
    assert(starts[index] < next);
    let before = start_before(starts, next);
    assert(starts[index] <= before);
    let i = choose|i: int| 0 <= i < starts.len() && #[trigger] starts[i] == before;
    if before != starts[index] {
        assert(starts[i] < next);
        if i < index {
            assert(starts[i] < starts[index]);
        } else if i > index + 1 {
            assert(starts[index + 1] < starts[i]);
        }
    }
}

proof fn lemma_start_before_is_last(starts: Seq<usize>, offset: int)
    requires
        forall|i: int, j: int| 0 <= i < j < starts.len() ==> starts[i] < starts[j],
    ensures
        ({
            let before = start_before(starts, offset);
            &&& before == 0 || exists|i: int| 0 <= i < starts.len() && #[trigger] starts[i] == before
            &&& before < offset || before == 0
            &&& forall|i: int|
                0 <= i < starts.len() && (#[trigger] starts[i]) < offset ==> starts[i] <= before
        }),
    decreases starts.len(),
{
    if starts.len() > 0 {
        let shorter = starts.drop_last();
        lemma_start_before_is_last(shorter, offset);
        let before = start_before(starts, offset);
        if starts.last() < offset {
            assert(starts[starts.len() - 1] == before);
            assert forall|i: int|
                0 <= i < starts.len() && (#[trigger] starts[i]) < offset implies starts[i]
                <= before by {
                if i < starts.len() - 1 {
                    assert(starts[i] < starts[starts.len() - 1]);
                }
            }
        } else {
            assert forall|i: int|
                0 <= i < starts.len() && (#[trigger] starts[i]) < offset implies starts[i]
                <= before by {
                assert(shorter[i] == starts[i]);
            }
            if before != 0 {
                let k = choose|k: int| 0 <= k < shorter.len() && #[trigger] shorter[k] == before;
                assert(starts[k] == before);
            }
        }
    }
}

proof fn lemma_before_ordinal(starts: Seq<usize>, offset: int)
    ensures
        forall|i: int| 0 <= i < ordinal(starts, offset) ==> (#[trigger] starts[i]) < offset,
    decreases starts.len(),
{
    if starts.len() > 0 && starts[0] < offset {
        let rest = starts.skip(1);
        lemma_before_ordinal(rest, offset);
        lemma_ordinal_monotone(rest, offset, offset);
        assert forall|i: int| 0 <= i < ordinal(starts, offset) implies (#[trigger] starts[i])
            < offset by {
            if i > 0 {
                assert(rest[i - 1] < offset);
            }
        }
    }
}

/// Replacing a range, and then replacing what was put in, is replacing the range by the later text.
proof fn lemma_spliced_twice(
    chars: Seq<char>,
    start: int,
    end: int,
    first: Seq<char>,
    second: Seq<char>,
)
    requires
        is_range(chars, start, end),
    ensures
        ({
            let between = spliced(chars, start, end, first);
            let behind = start + text_index::utf8_len(first);
            &&& is_range(between, start, behind)
            &&& spliced(between, start, behind, second) == spliced(chars, start, end, second)
        }),
{
    lemma_range_indices(chars, start, end);
    let i = text_index::index_at(chars, start);
    let between = spliced(chars, start, end, first);
    let behind = start + text_index::utf8_len(first);
    assert(text_index::begins_at(chars, i, start));
    lemma_end_is_offset(first);
    lemma_spliced_offset(chars, start, end, first, 0);
    lemma_spliced_offset(chars, start, end, first, text_index::utf8_len(first) as int);
    assert(between.take(i) =~= chars.take(i));
    assert(text_index::begins_at(between, i, start));
    text_index::lemma_index_unique(between, i, start);
    assert(between.take(i + first.len() as int) =~= chars.take(i) + first);
    text_index::lemma_lens_add(chars.take(i), first);
    assert(text_index::begins_at(between, i + first.len(), behind));
    text_index::lemma_index_unique(between, i + first.len() as int, behind);
    assert(spliced(between, start, behind, second) =~= spliced(chars, start, end, second));
}

/// Text that is being composed stands where it will stand: entering the final text gives what typing
/// it in the first place would have given, whatever was composed before.
pub proof fn law_composed_text_is_replaced(
    input: InputView,
    start: int,
    end: int,
    composed: Seq<char>,
    selected_utf16: Option<(int, int)>,
    entered: Seq<char>,
)
    requires
        is_range(input.content, start, end),
        composed.len() > 0,
    ensures
        ({
            let composing = marked_in_range(input, start, end, composed, selected_utf16);
            let typed = replaced_range(input, start, end, entered);
            let done = replaced(composing, None, entered);
            &&& composing.content == replaced_range(input, start, end, composed).content
            &&& composing.marked == Some((start, start + text_index::utf8_len(composed)))
            &&& done.content == typed.content
            &&& done.start == typed.start && done.end == typed.end
            &&& done.marked is None
        }),
{
    lemma_spliced_twice(input.content, start, end, composed, entered);
}

/// What is cut out of an input and pasted again is where it was.
pub proof fn law_pasting_undoes_cutting(input: InputView)
    requires
        input_wf(input),
        input.marked is None,
        copied_from(input) is Some,
        text::is_free_of(copied_from(input)->0, '\n'),
    ensures
        pasted_into(cut_out(input), copied_from(input)).content == input.content,
        pasted_into(cut_out(input), copied_from(input)).end == input.end,
{
    let chars = input.content;
    let cut = copied_from(input)->0;
    assert(on_one_line(cut) =~= cut);
    lemma_spliced_twice(chars, input.start, input.end, Seq::empty(), cut);
    lemma_range_indices(chars, input.start, input.end);
    let i = text_index::index_at(chars, input.start);
    let j = text_index::index_at(chars, input.end);
    assert(text_index::utf8_len(Seq::<char>::empty()) == 0);
    assert(spliced(chars, input.start, input.end, cut) =~= chars);
    assert(text_index::begins_at(chars, i, input.start));
    assert(text_index::begins_at(chars, j, input.end));
    assert(chars.take(j) =~= chars.take(i) + cut);
    text_index::lemma_lens_add(chars.take(i), cut);
}

/// Something is copied exactly if something is selected, and cutting copies the same. Nothing is
/// changed where nothing is selected or pasted, and pasted text holds no line break.
pub proof fn law_clipboard_takes_the_selection(input: InputView, pasted: Seq<char>)
    requires
        input_wf(input),
    ensures
        copied_from(input) is Some <==> input.start < input.end,
        input.start == input.end ==> cut_out(input) == input,
        pasted_into(input, None) == input,
        copied_from(all_selected(input)) is Some ==> copied_from(all_selected(input))
            == Some(input.content),
        on_one_line(pasted).len() == pasted.len(),
        text::is_free_of(on_one_line(pasted), '\n'),
        forall|i: int|
            0 <= i < pasted.len() && pasted[i] != '\n' ==> #[trigger] on_one_line(pasted)[i]
                == pasted[i],
        all_selected(input).content == input.content,
{
    let chars = input.content;
    assert(chars.take(0) =~= Seq::<char>::empty());
    assert(chars.take(chars.len() as int) =~= chars);
    assert(text_index::begins_at(chars, 0, 0));
    let end = text_index::utf8_len(chars) as int;
    assert(text_index::begins_at(chars, chars.len() as int, end));
    text_index::lemma_index_unique(chars, 0, 0);
    text_index::lemma_index_unique(chars, chars.len() as int, end);
    assert(part(chars, 0, end) =~= chars);
}

/// The range that is asked for is the one that is edited; without one, text that is being composed
/// comes before the selection.
pub proof fn law_composed_text_comes_before_the_selection(input: InputView, new_text: Seq<char>)
    ensures
        input.marked is None ==> edited_range(input, None) == (input.start, input.end),
        input.marked is Some ==> edited_range(input, None) == input.marked->0,
        replaced(input, None, new_text).marked is None,
        replaced(input, None, new_text).start == replaced(input, None, new_text).end,
        replaced(input, None, new_text).start == edited_range(input, None).0
            + text_index::utf8_len(new_text),
{
}

/// With something selected, both keys that erase remove just that; with nothing selected, the one
/// removes the cluster before the cursor, the other the one behind it, and the cursor stays at the
/// gap.
pub proof fn law_erasing_removes_one_cluster(input: InputView)
    requires
        input_wf(input),
        input.marked is None,
        input.start < input.end || before_cursor(input) <= input.start <= after_place(
            input,
            input.start,
        ),
    ensures
        input.start < input.end ==> erased_backward(input) == erased_forward(input)
            && erased_backward(input).content == spliced(
            input.content,
            input.start,
            input.end,
            Seq::empty(),
        ) && cursor(erased_backward(input)) == input.start,
        input.start == input.end ==> {
            &&& erased_backward(input).content == spliced(
                input.content,
                before_cursor(input),
                input.start,
                Seq::empty(),
            )
            &&& cursor(erased_backward(input)) == before_cursor(input)
            &&& erased_forward(input).content == spliced(
                input.content,
                input.start,
                after_place(input, input.start),
                Seq::empty(),
            )
            &&& cursor(erased_forward(input)) == input.start
        },
{
    assert(text_index::utf8_len(Seq::<char>::empty()) == 0);
}

/// Erasing backward is what going left and erasing forward does, if the cursor stands at the end of
/// a cluster and nothing is selected.
pub proof fn law_erasing_backward_is_going_left_and_erasing(input: InputView, index: int)
    requires
        input_wf(input),
        input.marked is None,
        input.start == input.end,
        are_cluster_starts(input.content, grapheme_offsets(input.content)),
        0 <= index < grapheme_offsets(input.content).len(),
        input.start == start_at(
            grapheme_offsets(input.content),
            index + 1,
            text_index::utf8_len(input.content) as int,
        ),
    ensures
        erased_backward(input).content == erased_forward(moved_left(input)).content,
        cursor(erased_backward(input)) == cursor(erased_forward(moved_left(input))),
{
    let starts = grapheme_offsets(input.content);
    let end = text_index::utf8_len(input.content) as int;
    law_arrows_undo_each_other(input.content, starts, index);
    law_arrows_go_to_the_nearest_clusters(input.content, starts, input.start);
    assert(text_index::utf8_len(Seq::<char>::empty()) == 0);
    assert(starts[index] < input.start);
}

/// The keys for the ends of the line go there and select nothing; keys that move change no text, and
/// any key but the six changes nothing at all.
pub proof fn law_keys_do_what_they_are_named(input: InputView, key: Seq<char>)
    ensures
        cursor(after_key(input, "home"@)) == 0,
        cursor(after_key(input, "end"@)) == text_index::utf8_len(input.content),
        after_key(input, "backspace"@) == erased_backward(input),
        after_key(input, "delete"@) == erased_forward(input),
        input.start != input.end ==> cursor(after_key(input, "left"@)) == input.start,
        input.start != input.end ==> cursor(after_key(input, "right"@)) == input.end,
        input.start == input.end ==> cursor(after_key(input, "left"@)) == before_cursor(input),
        input.start == input.end ==> cursor(after_key(input, "right"@)) == after_place(
            input,
            input.start,
        ),
        key != "backspace"@ && key != "delete"@ ==> after_key(input, key).content == input.content
            && after_key(input, key).marked == input.marked,
        after_key(input, key) != input ==> key == "backspace"@ || key == "delete"@ || key
            == "left"@ || key == "right"@ || key == "home"@ || key == "end"@,
        key == "left"@ || key == "right"@ || key == "home"@ || key == "end"@ ==> after_key(
            input,
            key,
        ).start == after_key(input, key).end,
{
    reveal_strlit("backspace");
    reveal_strlit("delete");
    reveal_strlit("left");
    reveal_strlit("right");
    reveal_strlit("home");
    reveal_strlit("end");
    assert("backspace"@.len() == 9 && "delete"@.len() == 6 && "left"@.len() == 4 && "right"@.len()
        == 5 && "home"@.len() == 4 && "end"@.len() == 3);
    assert("left"@[0] == 'l' && "home"@[0] == 'h');
}

/// A press of the mouse puts the cursor where it hit; with the shift key the anchor of the selection
/// stays, without it nothing is selected. A press beside the line hits the end that is nearer, and
/// one on a line that was never drawn hits its end.
pub proof fn law_mouse_puts_the_cursor_where_it_hit(input: InputView, hit: MouseHit)
    requires
        input_wf(input),
    ensures
        ({
            let place = place_of_hit(input, hit);
            let end = text_index::utf8_len(input.content) as int;
            &&& cursor(pressed(input, false, hit)) == place
            &&& anchor(pressed(input, false, hit)) == place
            &&& place != anchor(input) ==> cursor(pressed(input, true, hit)) == place
            &&& place != anchor(input) ==> anchor(pressed(input, true, hit)) == anchor(input)
            &&& pressed(input, false, hit).selecting && pressed(input, true, hit).selecting
            &&& pressed(input, false, hit).content == input.content
            &&& pressed(input, true, hit).content == input.content
            &&& input.has_layout && hit is Before ==> place == 0
            &&& input.has_layout && hit is Behind ==> place == end
            &&& !input.has_layout ==> place == end
        }),
{
    if input.content.len() == 0 {
        assert(input.content =~= Seq::empty());
    }
    let selecting = InputView { selecting: true, ..input };
    law_selecting_keeps_the_anchor(selecting, place_of_hit(input, hit));
}

/// An input begins empty and unmasked. Text that is set is there, with the cursor behind it and
/// nothing selected or being composed.
pub proof fn law_set_text_is_there(input: InputView, placeholder: Seq<char>, new_text: Seq<char>)
    ensures
        input_wf(with_text(input, new_text)),
        with_text(input, new_text).content == new_text,
        cursor(with_text(input, new_text)) == text_index::utf8_len(new_text),
        copied_from(with_text(input, new_text)) is None,
        with_text(input, new_text).marked is None,
        with_text(input, new_text).placeholder == input.placeholder,
        with_text(input, new_text).masked == input.masked,
        input_wf(empty_input(placeholder)),
        displayed(empty_input(placeholder)) == Seq::<char>::empty(),
        empty_input(placeholder).placeholder == placeholder,
        !empty_input(placeholder).masked,
        !input.masked ==> displayed(with_text(input, new_text)) == new_text,
{
    lemma_end_is_offset(new_text);
    lemma_end_is_offset(Seq::empty());
}

/// The placeholder is drawn exactly where nothing is shown, and then without a cursor; otherwise what
/// is shown is drawn, with a cursor. A selection is drawn exactly if something is selected.
pub proof fn law_placeholder_stands_for_nothing(input: InputView)
    ensures
        shows_placeholder(input) <==> cursor_drawn(input) is None,
        shows_placeholder(input) ==> text_drawn(input) == input.placeholder,
        !shows_placeholder(input) ==> text_drawn(input) == displayed(input),
        !input.masked ==> (shows_placeholder(input) <==> input.content.len() == 0),
        selection_drawn(input) is Some <==> input.start != input.end,
        input.content.len() == 0 ==> shows_placeholder(input),
{
}

/// The place in what is shown that stands for a cluster of the contents leads back to it, and so does
/// the end. Places keep their order.
pub proof fn law_shown_places_lead_back(input: InputView, index: int, other: int)
    requires
        are_cluster_starts(input.content, grapheme_offsets(input.content)),
        are_cluster_starts(displayed(input), grapheme_offsets(displayed(input))),
        grapheme_offsets(displayed(input)).len() == grapheme_offsets(input.content).len(),
        0 <= index <= grapheme_offsets(input.content).len(),
        0 <= other <= grapheme_offsets(displayed(input)).len(),
    ensures
        ({
            let starts = grapheme_offsets(input.content);
            let shown = grapheme_offsets(displayed(input));
            let place = start_at(starts, index, text_index::utf8_len(input.content) as int);
            let shown_place = start_at(shown, other, text_index::utf8_len(displayed(input)) as int);
            &&& display_place(input, place) == start_at(
                shown,
                index,
                text_index::utf8_len(displayed(input)) as int,
            )
            &&& content_place(input, display_place(input, place)) == place
            &&& display_place(input, content_place(input, shown_place)) == shown_place
        }),
{
    let starts = grapheme_offsets(input.content);
    let shown = grapheme_offsets(displayed(input));
    let end = text_index::utf8_len(input.content) as int;
    let shown_end = text_index::utf8_len(displayed(input)) as int;
    lemma_ordinal_of_start(starts, index, end);
    lemma_ordinal_of_start(shown, index, shown_end);
    lemma_ordinal_of_start(shown, other, shown_end);
    lemma_ordinal_of_start(starts, other, end);
}

proof fn lemma_ordinal_of_start(starts: Seq<usize>, index: int, end: int)
    requires
        0 <= index <= starts.len(),
        forall|i: int, j: int| 0 <= i < j < starts.len() ==> starts[i] < starts[j],
        forall|i: int| 0 <= i < starts.len() ==> (#[trigger] starts[i]) < end,
    ensures
        ordinal(starts, start_at(starts, index, end)) == index,
{
    lemma_ordinal(starts, start_at(starts, index, end), index);
}

} // verus!
