//! The setup tutorial: its steps, and how its text is laid out.

use crate::text;
use vstd::prelude::*;

verus! {

/// Sent when the tutorial is dismissed.
#[derive(Clone, Copy, Debug, PartialEq, Eq, Structural)]
pub struct TutorialDismissed;

/// How many steps the tutorial has.
pub const STEP_COUNT: usize = 4;

/// The title of a step.
pub open spec fn title_of(step: usize) -> Seq<char> {
    if step == 0 {
        "Install Zed"@
    } else if step == 1 {
        "Start Server"@
    } else if step == 2 {
        "SSH Setup"@
    } else {
        "Connect"@
    }
}

/// The step before one, or the first one.
pub open spec fn step_before(step: int) -> int {
    if step > 0 {
        step - 1
    } else {
        0
    }
}

/// The step behind one, or the last one.
pub open spec fn step_after(step: int) -> int {
    if step < STEP_COUNT - 1 {
        step + 1
    } else {
        STEP_COUNT - 1
    }
}

/// The step that is gone to: the one that was chosen, if there is one.
pub open spec fn step_chosen(current: int, chosen: int) -> int {
    if 0 <= chosen < STEP_COUNT {
        chosen
    } else {
        current
    }
}

/// Whether a step is the last one.
pub open spec fn is_last_step(step: int) -> bool {
    step == STEP_COUNT - 1
}

/// What stands on the button that goes on.
pub open spec fn next_label_at(step: int) -> Seq<char> {
    if is_last_step(step) {
        "Done"@
    } else {
        "Next"@
    }
}

/// What is told of how far the tutorial is.
pub open spec fn progress_at(step: usize) -> Seq<char> {
    "Step "@ + text::decimal((step + 1) as nat) + " of "@ + text::decimal(STEP_COUNT as nat) + " - "@
        + title_of(step)
}

/// The tutorial, at one of its steps.
#[derive(Clone, Copy, Debug, PartialEq, Eq, Structural)]
pub struct TutorialView {
    pub current_step: usize,
}

impl TutorialView {
    /// Whether the tutorial is at one of its steps.
    pub open spec fn wf(self) -> bool {
        self.current_step < STEP_COUNT
    }

    /// The tutorial at its first step.
    pub fn new() -> (view: Self)
        ensures
            view.wf(),
            view.current_step == 0,
    {
        TutorialView { current_step: 0 }
    }

    /// Goes to a step, if there is one with the number.
    pub fn go_to_step(&mut self, step: usize)
        requires
            old(self).wf(),
        ensures
            final(self).wf(),
            final(self).current_step == step_chosen(old(self).current_step as int, step as int),
    {
        if step < STEP_COUNT {
            self.current_step = step;
        }
    }

    /// Goes back one step, but not before the first one.
    pub fn previous_step(&mut self)
        requires
            old(self).wf(),
        ensures
            final(self).wf(),
            final(self).current_step == step_before(old(self).current_step as int),
    {
        if self.current_step > 0 {
            self.current_step = self.current_step - 1;
        }
    }

    /// Goes on one step, but not behind the last one.
    pub fn next_step(&mut self)
        requires
            old(self).wf(),
        ensures
            final(self).wf(),
            final(self).current_step == step_after(old(self).current_step as int),
    {
        if self.current_step < STEP_COUNT - 1 {
            self.current_step = self.current_step + 1;
        }
    }

    /// Dismisses the tutorial.
    pub fn dismiss(&self) -> (event: TutorialDismissed)
        ensures
            event == TutorialDismissed,
    {
        TutorialDismissed
    }

    /// Presses the button that goes on: at the last step it dismisses the tutorial.
    pub fn press_next(&mut self) -> (event: Option<TutorialDismissed>)
        requires
            old(self).wf(),
        ensures
            final(self).wf(),
            event is Some <==> is_last_step(old(self).current_step as int),
            final(self).current_step == step_after(old(self).current_step as int),
    {
        if self.current_step == STEP_COUNT - 1 {
            Some(self.dismiss())
        } else {
            self.next_step();
            None
        }
    }

    /// What stands on the button that goes on.
    pub fn next_label(&self) -> (label: &'static str)
        requires
            self.wf(),
        ensures
            label@ == next_label_at(self.current_step as int),
    {
        if self.current_step == STEP_COUNT - 1 {
            "Done"
        } else {
            "Next"
        }
    }

    /// The title of the step.
    pub fn title(&self) -> (title: &'static str)
        requires
            self.wf(),
        ensures
            title@ == title_of(self.current_step),
    {
        match self.current_step {
            0 => "Install Zed",
            1 => "Start Server",
            2 => "SSH Setup",
            _ => "Connect",
        }
    }

    /// What tells how far the tutorial is.
    pub fn progress_label(&self) -> (label: String)
        requires
            self.wf(),
        ensures
            label@ == progress_at(self.current_step),
    {
        let mut label = "Step ".to_owned();
        label.append(text::format_decimal(self.current_step as u64 + 1).as_str());
        label.append(" of ");
        label.append(text::format_decimal(STEP_COUNT as u64).as_str());
        label.append(" - ");
        label.append(self.title());
        label
    }
}

/// Going on and then back leads to the same step again unless it is the last one, and going
/// back and then on does unless it is the first one.
pub proof fn law_steps_undo_each_other(step: int)
    requires
        0 <= step < STEP_COUNT,
    ensures
        step < STEP_COUNT - 1 ==> step_before(step_after(step)) == step,
        step > 0 ==> step_after(step_before(step)) == step,
        0 <= step_before(step) < STEP_COUNT,
        0 <= step_after(step) < STEP_COUNT,
{
}

// How the text of a step is laid out.

/// A piece of the text of a step.
#[derive(Clone, Debug, PartialEq, Eq)]
pub enum TutorialBlock {
    Space,
    Heading1(String),
    Heading2(String),
    Heading3(String),
    Bullet(String),
    /// An item of a numbered list: its number with a dot, and its text.
    Numbered(String, String),
    Paragraph(String),
    /// A line with code in it.
    InlineCode(String),
    /// A line of a block of code.
    CodeLine(String),
    /// A line of nothing but signs.
    Signs(String),
}

/// A piece of the text of a step.
pub enum BlockView {
    Space,
    Heading1(Seq<char>),
    Heading2(Seq<char>),
    Heading3(Seq<char>),
    Bullet(Seq<char>),
    Numbered(Seq<char>, Seq<char>),
    Paragraph(Seq<char>),
    InlineCode(Seq<char>),
    CodeLine(Seq<char>),
    Signs(Seq<char>),
}

impl View for TutorialBlock {
    type V = BlockView;

    open spec fn view(&self) -> BlockView {
        match self {
            TutorialBlock::Space => BlockView::Space,
            TutorialBlock::Heading1(content) => BlockView::Heading1(content@),
            TutorialBlock::Heading2(content) => BlockView::Heading2(content@),
            TutorialBlock::Heading3(content) => BlockView::Heading3(content@),
            TutorialBlock::Bullet(content) => BlockView::Bullet(content@),
            TutorialBlock::Numbered(number, content) => BlockView::Numbered(number@, content@),
            TutorialBlock::Paragraph(content) => BlockView::Paragraph(content@),
            TutorialBlock::InlineCode(content) => BlockView::InlineCode(content@),
            TutorialBlock::CodeLine(content) => BlockView::CodeLine(content@),
            TutorialBlock::Signs(content) => BlockView::Signs(content@),
        }
    }
}

/// A text without a prefix, however often it stands in front.
pub open spec fn without_prefix(content: Seq<char>, prefix: Seq<char>) -> Seq<char>
    decreases content.len(),
{
    if prefix.len() > 0 && prefix.is_prefix_of(content) {
        without_prefix(content.skip(prefix.len() as int), prefix)
    } else {
        content
    }
}

fn strip_prefix(content: &str, prefix: &str) -> (result: String)
    ensures
        result@ == without_prefix(content@, prefix@),
{
    let chars = text::chars_of(content);
    let part = text::chars_of(prefix);
    let length: usize = chars.len();
    let mut from: usize = 0;
    assert(content@.skip(0) =~= content@);
    while part.len() > 0 && text::matches_at(chars.as_slice(), part.as_slice(), from)
        invariant
            chars@ == content@,
            part@ == prefix@,
            length == chars@.len(),
            from <= length,
            without_prefix(content@, prefix@) == without_prefix(
                content@.skip(from as int),
                prefix@,
            ),
        decreases chars@.len() - from,
    {
        proof {
            let left = content@.skip(from as int);
            assert(left.subrange(0, part@.len() as int) =~= content@.subrange(
                from as int,
                from + part@.len(),
            ));
            assert(prefix@.is_prefix_of(left));
            assert(left.skip(part@.len() as int) =~= content@.skip(from + part@.len()));
        }
        from = from + part.len();
    }
    proof {
        let left = content@.skip(from as int);
        if prefix@.len() > 0 && prefix@.is_prefix_of(left) {
            assert(content@.subrange(from as int, from + part@.len()) =~= prefix@);
        }
        assert(left =~= content@.subrange(from as int, content@.len() as int));
    }
    text::text_of(chars.as_slice(), from, length)
}

/// Where a part first stands in a text.
pub open spec fn first_place(content: Seq<char>, part: Seq<char>, from: int) -> Option<int>
    decreases content.len() + 1 - from,
{
    if from < 0 || from > content.len() {
        None
    } else if text::stands_at(content, part, from) {
        Some(from)
    } else {
        first_place(content, part, from + 1)
    }
}

fn find_part(content: &[char], part: &[char]) -> (place: Option<usize>)
    ensures
        match place {
            Some(place) => first_place(content@, part@, 0) == Some(place as int)
                && text::stands_at(content@, part@, place as int),
            None => first_place(content@, part@, 0) is None,
        },
{
    let mut i: usize = 0;
    while i < content.len()
        invariant
            i <= content@.len(),
            first_place(content@, part@, 0) == first_place(content@, part@, i as int),
        decreases content@.len() - i,
    {
        if text::matches_at(content, part, i) {
            return Some(i);
        }
        i = i + 1;
    }
    if text::matches_at(content, part, i) {
        Some(i)
    } else {
        assert(first_place(content@, part@, i + 1) is None);
        None
    }
}

/// Whether a text holds nothing but signs of ASCII: no letters, no digits, no spaces.
pub open spec fn is_signs(content: Seq<char>) -> bool {
    forall|i: int| 0 <= i < content.len() ==> is_sign(#[trigger] content[i])
}

/// Whether a character is a sign of ASCII.
pub open spec fn is_sign(c: char) -> bool {
    &&& c < '\u{80}'
    &&& !('a' <= c <= 'z' || 'A' <= c <= 'Z' || text::is_digit(c))
    &&& c != ' '
}

/// The item of a numbered list that a line is.
pub open spec fn numbered_item(line: Seq<char>) -> Option<(Seq<char>, Seq<char>)> {
    match first_place(line, ". "@, 0) {
        Some(place) => if text::all_digits(line.take(place)) {
            Some((line.take(place) + "."@, line.skip(place + 2)))
        } else {
            None
        },
        None => None,
    }
}

/// What a line outside of code is, without the white space at its ends.
pub open spec fn block_of(line: Seq<char>) -> BlockView {
    if line.len() == 0 {
        BlockView::Space
    } else if "# "@.is_prefix_of(line) {
        BlockView::Heading1(without_prefix(line, "# "@))
    } else if "## "@.is_prefix_of(line) {
        BlockView::Heading2(without_prefix(line, "## "@))
    } else if "### "@.is_prefix_of(line) {
        BlockView::Heading3(without_prefix(line, "### "@))
    } else if "- "@.is_prefix_of(line) || "* "@.is_prefix_of(line) {
        BlockView::Bullet(line.skip(2))
    } else if text::is_digit(line[0]) && text::has_part(line, ". "@) {
        match numbered_item(line) {
            Some((number, content)) => BlockView::Numbered(number, content),
            None => BlockView::Paragraph(line),
        }
    } else if line.contains('`') {
        BlockView::InlineCode(line)
    } else if is_signs(line) {
        BlockView::Signs(line)
    } else {
        BlockView::Paragraph(line)
    }
}

fn only_signs(chars: &[char]) -> (yes: bool)
    ensures
        yes == is_signs(chars@),
{
    let mut i: usize = 0;
    while i < chars.len()
        invariant
            i <= chars@.len(),
            forall|k: int| 0 <= k < i ==> is_sign(#[trigger] chars@[k]),
        decreases chars@.len() - i,
    {
        let c = chars[i];
        let letter = ('a' <= c && c <= 'z') || ('A' <= c && c <= 'Z');
        let digit = '0' <= c && c <= '9';
        if c >= '\u{80}' || letter || digit || c == ' ' {
            assert(!is_sign(chars@[i as int]));
            return false;
        }
        i = i + 1;
    }
    true
}

fn only_digits(chars: &[char], to: usize) -> (yes: bool)
    requires
        to <= chars@.len(),
    ensures
        yes == text::all_digits(chars@.take(to as int)),
{
    if to == 0 {
        return false;
    }
    let mut i: usize = 0;
    while i < to
        invariant
            i <= to <= chars@.len(),
            forall|k: int| 0 <= k < i ==> text::is_digit(#[trigger] chars@[k]),
        decreases to - i,
    {
        let c = chars[i];
        if c < '0' || c > '9' {
            assert(!text::is_digit(chars@.take(to as int)[i as int]));
            return false;
        }
        i = i + 1;
    }
    true
}

fn has_char(chars: &[char], c: char) -> (yes: bool)
    ensures
        yes == chars@.contains(c),
{
    let mut i: usize = 0;
    while i < chars.len()
        invariant
            i <= chars@.len(),
            forall|k: int| 0 <= k < i ==> chars@[k] != c,
        decreases chars@.len() - i,
    {
        if chars[i] == c {
            return true;
        }
        i = i + 1;
    }
    false
}

/// What a line that starts with a digit is.
fn number_block(line: &str) -> (block: TutorialBlock)
    ensures
        block@ == match numbered_item(line@) {
            Some((number, content)) => BlockView::Numbered(number, content),
            None => BlockView::Paragraph(line@),
        },
{
    let chars = text::chars_of(line);
    let part = text::chars_of(". ");
    let length: usize = chars.len();
    proof {
        reveal_strlit(". ");
    }
    if let Some(place) = find_part(chars.as_slice(), part.as_slice()) {
        if only_digits(chars.as_slice(), place) {
            let mut number = text::text_of(chars.as_slice(), 0, place);
            number.append(".");
            let content = text::text_of(chars.as_slice(), place + 2, length);
            assert(line@.subrange(0, place as int) =~= line@.take(place as int));
            assert(content@ =~= line@.skip(place + 2));
            return TutorialBlock::Numbered(number, content);
        }
    }
    TutorialBlock::Paragraph(line.to_owned())
}

fn plain_block(line: &str) -> (block: TutorialBlock)
    requires
        line@.len() > 0,
        !("# "@.is_prefix_of(line@)),
        !("## "@.is_prefix_of(line@)),
        !("### "@.is_prefix_of(line@)),
    ensures
        block@ == block_of(line@),
{
    let chars = text::chars_of(line);
    let length: usize = chars.len();
    if text::starts_with(line, "- ") || text::starts_with(line, "* ") {
        proof {
            reveal_strlit("- ");
            reveal_strlit("* ");
        }
        let content = text::text_of(chars.as_slice(), 2, length);
        assert(content@ =~= line@.skip(2));
        return TutorialBlock::Bullet(content);
    }
    let first = chars[0];
    if '0' <= first && first <= '9' && text::contains(line, ". ") {
        number_block(line)
    } else if has_char(chars.as_slice(), '`') {
        TutorialBlock::InlineCode(line.to_owned())
    } else if only_signs(chars.as_slice()) {
        TutorialBlock::Signs(line.to_owned())
    } else {
        TutorialBlock::Paragraph(line.to_owned())
    }
}

/// What a line outside of code is, without the white space at its ends.
fn line_block(line: &str) -> (block: TutorialBlock)
    ensures
        block@ == block_of(line@),
{
    if line.is_empty() {
        TutorialBlock::Space
    } else if text::starts_with(line, "# ") {
        TutorialBlock::Heading1(strip_prefix(line, "# "))
    } else if text::starts_with(line, "## ") {
        TutorialBlock::Heading2(strip_prefix(line, "## "))
    } else if text::starts_with(line, "### ") {
        TutorialBlock::Heading3(strip_prefix(line, "### "))
    } else {
        plain_block(line)
    }
}

/// Whether a line opens or closes a block of code.
pub open spec fn is_fence(line: Seq<char>) -> bool {
    "```"@.is_prefix_of(text::trimmed(line))
}

/// Whether what follows some lines is code.
pub open spec fn in_code(lines: Seq<Seq<char>>) -> bool
    decreases lines.len(),
{
    if lines.len() == 0 {
        false
    } else if is_fence(lines.last()) {
        !in_code(lines.drop_last())
    } else {
        in_code(lines.drop_last())
    }
}

/// The pieces that some lines make up.
pub open spec fn blocks_of(lines: Seq<Seq<char>>) -> Seq<BlockView>
    decreases lines.len(),
{
    if lines.len() == 0 {
        Seq::empty()
    } else {
        let before = blocks_of(lines.drop_last());
        if is_fence(lines.last()) {
            before
        } else if in_code(lines.drop_last()) {
            before.push(BlockView::CodeLine(lines.last()))
        } else {
            before.push(block_of(text::trimmed(lines.last())))
        }
    }
}

/// What a list of pieces holds.
pub open spec fn blocks(list: Seq<TutorialBlock>) -> Seq<BlockView> {
    Seq::new(list.len(), |i: int| list[i]@)
}

impl TutorialView {
    /// The pieces that the text of a step is shown as.
    pub fn render_content(content: &str) -> (result: Vec<TutorialBlock>)
        ensures
            blocks(result@) == blocks_of(text::lines_of(content@)),
    {
        let lines = text::lines(content);
        let ghost all = text::lines_of(content@);
        let mut result: Vec<TutorialBlock> = Vec::new();
        let mut code = false;
        let mut i: usize = 0;
        assert(blocks(result@) =~= blocks_of(all.take(0)));
        while i < lines.len()
            invariant
                i <= lines@.len(),
                text::texts(lines@) == all,
                code == in_code(all.take(i as int)),
                blocks(result@) == blocks_of(all.take(i as int)),
            decreases lines@.len() - i,
        {
            let ghost before = result@;
            proof {
                assert(all.take(i + 1).drop_last() =~= all.take(i as int));
                assert(all.take(i + 1).last() == lines@[i as int]@);
            }
            let line = lines[i].as_str();
            let trimmed = text::trim(line);
            if text::starts_with(trimmed.as_str(), "```") {
                code = !code;
            } else {
                let block = if code {
                    TutorialBlock::CodeLine(line.to_owned())
                } else {
                    line_block(trimmed.as_str())
                };
                result.push(block);
                assert(blocks(result@) =~= blocks(before).push(block@));
            }
            i = i + 1;
        }
        assert(all.take(i as int) =~= all);
        result
    }
}

/// A fence has no piece of its own: what lies between two of them is shown letter for letter,
/// and nothing else is.
pub proof fn law_fenced_lines_are_shown_as_they_are(
    before: Seq<Seq<char>>,
    fence: Seq<char>,
    line: Seq<char>,
)
    requires
        is_fence(fence),
        !is_fence(line),
    ensures
        blocks_of(before.push(fence)) == blocks_of(before),
        in_code(before.push(fence)) == !in_code(before),
        in_code(before) ==> blocks_of(before.push(line)) == blocks_of(before).push(
            BlockView::CodeLine(line),
        ),
        !in_code(before) ==> !(blocks_of(before.push(line)).last() is CodeLine),
{
    assert(before.push(fence).drop_last() =~= before);
    assert(before.push(line).drop_last() =~= before);
}

/// The tutorial can be gone through: pressing on leads through all steps in order, and dismisses it
/// exactly at the last one, where the button says so. A step that there is can be gone to from any
/// other.
pub proof fn law_tutorial_can_be_gone_through(step: int, chosen: int)
    requires
        0 <= step < STEP_COUNT,
    ensures
        !is_last_step(step) ==> step_after(step) == step + 1,
        is_last_step(step) <==> step_after(step) == step,
        is_last_step(step) <==> next_label_at(step) == "Done"@,
        !is_last_step(step) <==> next_label_at(step) == "Next"@,
        0 <= chosen < STEP_COUNT ==> step_chosen(step, chosen) == chosen,
        !(0 <= chosen < STEP_COUNT) ==> step_chosen(step, chosen) == step,
        step_after(step_after(step_after(0))) == STEP_COUNT - 1,
{
    reveal_strlit("Done");
    reveal_strlit("Next");
    assert("Done"@[0] == 'D' && "Next"@[0] == 'N');
}

/// Steps have titles of their own, and the line on how far the tutorial is tells the step, counted
/// from one, and its title.
pub proof fn law_steps_are_told_apart(step: usize, other: usize)
    requires
        step < STEP_COUNT,
        other < STEP_COUNT,
    ensures
        title_of(step) == title_of(other) ==> step == other,
        title_of(step).is_suffix_of(progress_at(step)),
        ("Step "@ + text::decimal((step + 1) as nat) + " of "@ + text::decimal(
            STEP_COUNT as nat,
        )).is_prefix_of(progress_at(step)),
{
    reveal_strlit("Install Zed");
    reveal_strlit("Start Server");
    reveal_strlit("SSH Setup");
    reveal_strlit("Connect");
    assert("Install Zed"@.len() == 11 && "Start Server"@.len() == 12 && "SSH Setup"@.len() == 9
        && "Connect"@.len() == 7);
    let line = progress_at(step);
    let title = title_of(step);
    let start = "Step "@ + text::decimal((step + 1) as nat) + " of "@ + text::decimal(
        STEP_COUNT as nat,
    );
    assert(line.subrange(0, start.len() as int) =~= start);
    assert(line.subrange(line.len() - title.len(), line.len() as int) =~= title);
}

/// A line that begins with one to three number signs and a space is a heading of that rank, with the
/// text behind them.
pub proof fn law_headings_have_their_rank(content: Seq<char>)
    requires
        content.len() > 0,
        content[0] != '#',
    ensures
        block_of("# "@ + content) == BlockView::Heading1(content),
        block_of("## "@ + content) == BlockView::Heading2(content),
        block_of("### "@ + content) == BlockView::Heading3(content),
{
    reveal_strlit("# ");
    reveal_strlit("## ");
    reveal_strlit("### ");
    let first = "# "@ + content;
    let second = "## "@ + content;
    let third = "### "@ + content;
    assert("# "@.is_prefix_of(first)) by {
        assert(first.subrange(0, 2) =~= "# "@);
    }
    assert("## "@.is_prefix_of(second)) by {
        assert(second.subrange(0, 3) =~= "## "@);
    }
    assert("### "@.is_prefix_of(third)) by {
        assert(third.subrange(0, 4) =~= "### "@);
    }
    assert(second[1] == '#' && third[1] == '#' && third[2] == '#');
    assert("# "@[1] == ' ' && "## "@[2] == ' ' && "# "@[0] == '#' && "## "@[0] == '#' && "### "@[0]
        == '#');
    assert(!"# "@.is_prefix_of(second)) by {
        if "# "@.is_prefix_of(second) {
            assert(second.subrange(0, 2)[1] == second[1]);
        }
    }
    assert(!"# "@.is_prefix_of(third) && !"## "@.is_prefix_of(third)) by {
        if "# "@.is_prefix_of(third) {
            assert(third.subrange(0, 2)[1] == third[1]);
        }
        if "## "@.is_prefix_of(third) {
            assert(third.subrange(0, 3)[2] == third[2]);
        }
    }
    lemma_prefix_stripped_once(content, "# "@);
    lemma_prefix_stripped_once(content, "## "@);
    lemma_prefix_stripped_once(content, "### "@);
}

proof fn lemma_prefix_stripped_once(content: Seq<char>, prefix: Seq<char>)
    requires
        prefix.len() > 0,
        content.len() > 0,
        content[0] != prefix[0],
    ensures
        without_prefix(prefix + content, prefix) == content,
{
    let whole = prefix + content;
    assert(whole.subrange(0, prefix.len() as int) =~= prefix);
    assert(whole.skip(prefix.len() as int) =~= content);
    if prefix.is_prefix_of(content) {
        assert(content.subrange(0, prefix.len() as int)[0] == content[0]);
    }
    assert(without_prefix(content, prefix) == content);
}

/// A line that begins with a hyphen or an asterisk and a space is an item of a list, with the text
/// behind them.
pub proof fn law_items_have_their_text(content: Seq<char>)
    ensures
        block_of("- "@ + content) == BlockView::Bullet(content),
        block_of("* "@ + content) == BlockView::Bullet(content),
{
    reveal_strlit("# ");
    reveal_strlit("## ");
    reveal_strlit("### ");
    reveal_strlit("- ");
    reveal_strlit("* ");
    let hyphen = "- "@ + content;
    let asterisk = "* "@ + content;
    assert(hyphen[0] == '-' && asterisk[0] == '*');
    assert("# "@[0] == '#' && "## "@[0] == '#' && "### "@[0] == '#');
    assert(hyphen.subrange(0, 2) =~= "- "@);
    assert(asterisk.subrange(0, 2) =~= "* "@);
    assert(hyphen.skip(2) =~= content);
    assert(asterisk.skip(2) =~= content);
    lemma_begins_otherwise(hyphen);
    lemma_begins_otherwise(asterisk);
}

proof fn lemma_begins_otherwise(line: Seq<char>)
    requires
        line.len() > 0,
        line[0] != '#',
    ensures
        !"# "@.is_prefix_of(line),
        !"## "@.is_prefix_of(line),
        !"### "@.is_prefix_of(line),
{
    reveal_strlit("# ");
    reveal_strlit("## ");
    reveal_strlit("### ");
    if "# "@.is_prefix_of(line) {
        assert(line.subrange(0, 2)[0] == line[0] && "# "@[0] == '#');
    }
    if "## "@.is_prefix_of(line) {
        assert(line.subrange(0, 3)[0] == line[0] && "## "@[0] == '#');
    }
    if "### "@.is_prefix_of(line) {
        assert(line.subrange(0, 4)[0] == line[0] && "### "@[0] == '#');
    }
}

proof fn lemma_first_place_found(content: Seq<char>, part: Seq<char>, from: int, place: int)
    requires
        0 <= from <= place <= content.len(),
        text::stands_at(content, part, place),
        forall|k: int| from <= k < place ==> !text::stands_at(content, part, k),
    ensures
        first_place(content, part, from) == Some(place),
    decreases place - from,
{
    if from < place {
        lemma_first_place_found(content, part, from + 1, place);
    }
}

/// A line that begins with a number, a dot and a space is an item of a numbered list, with that
/// number and the text behind it.
pub proof fn law_numbered_items_have_their_number(number: nat, content: Seq<char>)
    ensures
        block_of(text::decimal(number) + ". "@ + content) == BlockView::Numbered(
            text::decimal(number) + "."@,
            content,
        ),
{
    let digits = text::decimal(number);
    let line = digits + ". "@ + content;
    text::lemma_decimal_parses_back(number);
    reveal_strlit(". ");
    reveal_strlit(".");
    reveal_strlit("- ");
    reveal_strlit("* ");
    assert(line[0] == digits[0] && text::is_digit(digits[0]));
    lemma_begins_otherwise(line);
    assert(!"- "@.is_prefix_of(line) && !"* "@.is_prefix_of(line)) by {
        if "- "@.is_prefix_of(line) {
            assert(line.subrange(0, 2)[0] == line[0] && "- "@[0] == '-');
        }
        if "* "@.is_prefix_of(line) {
            assert(line.subrange(0, 2)[0] == line[0] && "* "@[0] == '*');
        }
    }
    let place = digits.len() as int;
    assert(line.subrange(place, place + 2) =~= ". "@);
    assert(text::stands_at(line, ". "@, place));
    assert forall|k: int| 0 <= k < place implies !text::stands_at(line, ". "@, k) by {
        assert(line[k] == digits[k] && text::is_digit(digits[k]));
        if text::stands_at(line, ". "@, k) {
            assert(line.subrange(k, k + 2)[0] == line[k] && ". "@[0] == '.');
        }
    }
    lemma_first_place_found(line, ". "@, 0, place);
    assert(line.take(place) =~= digits);
    assert(line.skip(place + 2) =~= content);
}

/// Every other line is shown as it is; only an empty one is a gap.
pub proof fn law_other_lines_are_shown_whole(line: Seq<char>)
    ensures
        block_of(line) is Space <==> line.len() == 0,
        block_of(line) matches BlockView::Paragraph(content) ==> content == line,
        block_of(line) matches BlockView::InlineCode(content) ==> content == line && line.contains(
            '`',
        ),
        block_of(line) matches BlockView::Signs(content) ==> content == line && is_signs(line),
        !(block_of(line) is CodeLine),
{
}

/// Texts that are put one behind the other are laid out one behind the other, unless the first ends
/// inside of code.
pub proof fn law_texts_are_laid_out_in_order(a: Seq<Seq<char>>, b: Seq<Seq<char>>)
    requires
        !in_code(a),
    ensures
        blocks_of(a + b) == blocks_of(a) + blocks_of(b),
        in_code(a + b) == in_code(b),
    decreases b.len(),
{
    if b.len() == 0 {
        assert(a + b =~= a);
        assert(blocks_of(a) + blocks_of(b) =~= blocks_of(a));
    } else {
        law_texts_are_laid_out_in_order(a, b.drop_last());
        assert((a + b).drop_last() =~= a + b.drop_last());
        assert((a + b).last() == b.last());
        assert(blocks_of(a + b) =~= blocks_of(a) + blocks_of(b));
    }
}

} // verus!
