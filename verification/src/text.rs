//! Text as a sequence of characters: the few string operations that the rest of
//! the crate is written with, each with an exact contract.

use vstd::prelude::*;
use vstd::utf8::*;

verus! {

/// `String::push` appends one character at the end.
pub assume_specification[ String::push ](s: &mut String, c: char)
    ensures
        final(s)@ == old(s)@.push(c),
;

/// Whether two texts hold the same characters.
pub fn same_text(a: &str, b: &str) -> (same: bool)
    ensures
        same == (a@ == b@),
{
    a.to_owned() == b.to_owned()
}

/// The characters of a text, one by one.
pub fn chars_of(text: &str) -> (chars: Vec<char>)
    ensures
        chars@ == text@,
{
    let mut chars: Vec<char> = Vec::new();
    for c in it: text.chars()
        invariant
            it.seq() == text@,
            chars@ == text@.take(it.index() as int),
    {
        chars.push(c);
    }
    assert(text@.take(text@.len() as int) =~= text@);
    chars
}

/// The text made of the characters `from..to` of `chars`.
pub fn text_of(chars: &[char], from: usize, to: usize) -> (text: String)
    requires
        from <= to <= chars@.len(),
    ensures
        text@ == chars@.subrange(from as int, to as int),
{
    let mut text = String::new();
    let mut i: usize = from;
    while i < to
        invariant
            from <= i <= to <= chars@.len(),
            text@ == chars@.subrange(from as int, i as int),
        decreases to - i,
    {
        text.push(chars[i]);
        i = i + 1;
        assert(chars@.subrange(from as int, i as int) =~= chars@.subrange(
            from as int,
            i - 1,
        ).push(chars@[i - 1]));
    }
    text
}


/// The characters with the Unicode property `White_Space`.
pub open spec fn is_white_space(c: char) -> bool {
    ||| '\u{9}' <= c <= '\u{d}'
    ||| c == ' '
    ||| c == '\u{85}'
    ||| c == '\u{a0}'
    ||| c == '\u{1680}'
    ||| '\u{2000}' <= c <= '\u{200a}'
    ||| c == '\u{2028}'
    ||| c == '\u{2029}'
    ||| c == '\u{202f}'
    ||| c == '\u{205f}'
    ||| c == '\u{3000}'
}

/// Whether a character has the Unicode property `White_Space`.
pub fn white_space(c: char) -> (yes: bool)
    ensures
        yes == is_white_space(c),
{
    ('\u{9}' <= c && c <= '\u{d}') || c == ' ' || c == '\u{85}' || c == '\u{a0}' || c == '\u{1680}'
        || ('\u{2000}' <= c && c <= '\u{200a}') || c == '\u{2028}' || c == '\u{2029}' || c
        == '\u{202f}' || c == '\u{205f}' || c == '\u{3000}'
}

/// A text without its leading white space.
pub open spec fn trimmed_start(text: Seq<char>) -> Seq<char>
    decreases text.len(),
{
    if text.len() > 0 && is_white_space(text[0]) {
        trimmed_start(text.skip(1))
    } else {
        text
    }
}

/// A text without its trailing white space.
pub open spec fn trimmed_end(text: Seq<char>) -> Seq<char>
    decreases text.len(),
{
    if text.len() > 0 && is_white_space(text.last()) {
        trimmed_end(text.drop_last())
    } else {
        text
    }
}

/// A text without the white space at its two ends.
pub open spec fn trimmed(text: Seq<char>) -> Seq<char> {
    trimmed_end(trimmed_start(text))
}

/// A text without the white space at its two ends.
pub fn trim(text: &str) -> (result: String)
    ensures
        result@ == trimmed(text@),
{
    let chars = chars_of(text);
    let mut from: usize = 0;
    assert(text@.skip(0) =~= text@);
    while from < chars.len() && white_space(chars[from])
        invariant
            chars@ == text@,
            from <= chars@.len(),
            trimmed_start(text@) == trimmed_start(text@.skip(from as int)),
        decreases chars@.len() - from,
    {
        assert(text@.skip(from as int).skip(1) =~= text@.skip(from + 1));
        from = from + 1;
    }
    assert(trimmed_start(text@) == text@.skip(from as int));
    let mut to: usize = chars.len();
    let ghost tail = text@.skip(from as int);
    assert(tail =~= text@.subrange(from as int, to as int));
    while from < to && white_space(chars[to - 1])
        invariant
            chars@ == text@,
            from <= to <= chars@.len(),
            tail == text@.skip(from as int),
            trimmed_end(tail) == trimmed_end(text@.subrange(from as int, to as int)),
        decreases to,
    {
        let ghost part = text@.subrange(from as int, to as int);
        assert(part.last() == text@[to - 1]);
        assert(part.drop_last() =~= text@.subrange(from as int, to - 1));
        to = to - 1;
    }
    assert(trimmed_end(tail) == text@.subrange(from as int, to as int)) by {
        let part = text@.subrange(from as int, to as int);
        if part.len() > 0 {
            assert(part.last() == text@[to - 1]);
        }
    }
    text_of(&chars, from, to)
}

/// Whether nothing is left of a text once it is trimmed.
pub open spec fn is_blank(text: Seq<char>) -> bool {
    trimmed(text).len() == 0
}

/// Whether `part` stands in `text` from position `at` on.
pub open spec fn stands_at(text: Seq<char>, part: Seq<char>, at: int) -> bool {
    0 <= at && at + part.len() <= text.len() && text.subrange(at, at + part.len()) == part
}

/// Whether `part` stands anywhere in `text`.
pub open spec fn has_part(text: Seq<char>, part: Seq<char>) -> bool {
    exists|at: int| stands_at(text, part, at)
}

/// Whether `part` stands in `text` from position `at` on.
pub fn matches_at(text: &[char], part: &[char], at: usize) -> (yes: bool)
    ensures
        yes == stands_at(text@, part@, at as int),
{
    if at > text.len() || text.len() - at < part.len() {
        return false;
    }
    let mut i: usize = 0;
    while i < part.len()
        invariant
            at + part.len() <= text.len(),
            i <= part@.len(),
            forall|k: int| 0 <= k < i ==> text@[at + k] == part@[k],
        decreases part@.len() - i,
    {
        if text[at + i] != part[i] {
            assert(text@.subrange(at as int, at + part@.len())[i as int] != part@[i as int]);
            return false;
        }
        i = i + 1;
    }
    assert(text@.subrange(at as int, at + part@.len()) =~= part@);
    true
}

/// Whether `part` stands anywhere in `text`.
pub fn contains(text: &str, part: &str) -> (yes: bool)
    ensures
        yes == has_part(text@, part@),
{
    let text_chars = chars_of(text);
    let part_chars = chars_of(part);
    let mut at: usize = 0;
    while at < text_chars.len()
        invariant
            text_chars@ == text@,
            part_chars@ == part@,
            at <= text_chars@.len(),
            forall|k: int| 0 <= k < at ==> !stands_at(text@, part@, k),
        decreases text_chars@.len() - at,
    {
        if matches_at(&text_chars, &part_chars, at) {
            return true;
        }
        at = at + 1;
    }
    let last = matches_at(&text_chars, &part_chars, at);
    assert(has_part(text@, part@) ==> last) by {
        if has_part(text@, part@) {
            let k = choose|k: int| stands_at(text@, part@, k);
            assert(k <= text@.len());
        }
    }
    last
}

/// Whether `text` begins with `part`.
pub fn starts_with(text: &str, part: &str) -> (yes: bool)
    ensures
        yes == part@.is_prefix_of(text@),
{
    let text_chars = chars_of(text);
    let part_chars = chars_of(part);
    matches_at(&text_chars, &part_chars, 0)
}

/// A copy of the Latin letters `A` to `Z` in lower case; any other character as it is.
pub open spec fn ascii_lower(c: char) -> char {
    if 'A' <= c <= 'Z' {
        ((c as u8) + 32) as char
    } else {
        c
    }
}

/// A text with the letters `A` to `Z` in lower case.
pub open spec fn ascii_lowered(text: Seq<char>) -> Seq<char> {
    text.map_values(|c: char| ascii_lower(c))
}

/// A text with the letters `A` to `Z` in lower case.
pub fn to_ascii_lower(text: &str) -> (result: String)
    ensures
        result@ == ascii_lowered(text@),
{
    let chars = chars_of(text);
    let mut result = String::new();
    let mut i: usize = 0;
    while i < chars.len()
        invariant
            chars@ == text@,
            i <= chars@.len(),
            result@ == ascii_lowered(text@.take(i as int)),
        decreases chars@.len() - i,
    {
        let c = chars[i];
        if 'A' <= c && c <= 'Z' {
            result.push(((c as u8) + 32) as char);
        } else {
            result.push(c);
        }
        assert(ascii_lowered(text@.take(i + 1)) =~= ascii_lowered(text@.take(i as int)).push(
            ascii_lower(c),
        ));
        i = i + 1;
    }
    assert(text@.take(text@.len() as int) =~= text@);
    result
}


/// The character of a decimal digit.
pub open spec fn digit_char(digit: nat) -> char
    recommends
        digit < 10,
{
    (48 + digit) as char
}

/// A number in decimal notation, without leading zeros.
pub open spec fn decimal(n: nat) -> Seq<char>
    decreases n,
{
    if n < 10 {
        seq![digit_char(n)]
    } else {
        decimal(n / 10).push(digit_char(n % 10))
    }
}

/// A whole number in decimal notation, with `-` in front of a negative one.
pub open spec fn signed_decimal(n: int) -> Seq<char> {
    if n < 0 {
        seq!['-'] + decimal((-n) as nat)
    } else {
        decimal(n as nat)
    }
}

/// A number in decimal notation, without leading zeros.
pub fn format_decimal(n: u64) -> (text: String)
    ensures
        text@ == decimal(n as nat),
    decreases n,
{
    let mut text = if n < 10 {
        String::new()
    } else {
        format_decimal(n / 10)
    };
    text.push((48u8 + (n % 10) as u8) as char);
    assert(text@ =~= decimal(n as nat));
    text
}

/// A whole number in decimal notation, with `-` in front of a negative one.
pub fn format_signed(n: i64) -> (text: String)
    ensures
        text@ == signed_decimal(n as int),
{
    if n >= 0 {
        format_decimal(n as u64)
    } else {
        let magnitude: u64 = (-(n as i128)) as u64;
        let digits = format_decimal(magnitude);
        let mut text = String::new();
        text.push('-');
        text.append(digits.as_str());
        assert(text@ =~= signed_decimal(n as int));
        text
    }
}

/// Whether a character is one of the ten decimal digits.
pub open spec fn is_digit(c: char) -> bool {
    '0' <= c <= '9'
}

/// The value of a decimal digit.
pub open spec fn digit_value(c: char) -> nat
    recommends
        is_digit(c),
{
    (c as u32 - '0' as u32) as nat
}

/// The value of a sequence of decimal digits.
pub open spec fn digits_value(digits: Seq<char>) -> nat
    decreases digits.len(),
{
    if digits.len() == 0 {
        0
    } else {
        digits_value(digits.drop_last()) * 10 + digit_value(digits.last())
    }
}

/// Whether a text is one or more decimal digits.
pub open spec fn all_digits(text: Seq<char>) -> bool {
    text.len() > 0 && forall|i: int| 0 <= i < text.len() ==> is_digit(#[trigger] text[i])
}

/// The digits of a decimal number that may have a plus sign in front.
pub open spec fn unsigned_digits(text: Seq<char>) -> Seq<char> {
    if text.len() > 0 && text[0] == '+' {
        text.skip(1)
    } else {
        text
    }
}

/// The number that a text denotes: digits with an optional plus sign in front, and
/// a value of at most `max`.
pub open spec fn parsed_number(text: Seq<char>, max: nat) -> Option<nat> {
    let digits = unsigned_digits(text);
    if all_digits(digits) && digits_value(digits) <= max {
        Some(digits_value(digits))
    } else {
        None
    }
}

/// Leading digits never make a number smaller.
proof fn lemma_prefix_value(digits: Seq<char>, n: int)
    requires
        0 <= n <= digits.len(),
    ensures
        digits_value(digits.take(n)) <= digits_value(digits),
    decreases digits.len() - n,
{
    if n == digits.len() {
        assert(digits.take(n) =~= digits);
    } else {
        lemma_prefix_value(digits, n + 1);
        assert(digits.take(n + 1).drop_last() =~= digits.take(n));
    }
}

/// The 16-bit number that a text denotes: digits with an optional plus sign in front.
pub fn parse_u16(text: &str) -> (result: Option<u16>)
    ensures
        match parsed_number(text@, 0xffff) {
            Some(n) => result == Some(n as u16),
            None => result is None,
        },
{
    let chars = chars_of(text);
    let from: usize = if chars.len() > 0 && chars[0] == '+' {
        1
    } else {
        0
    };
    let ghost digits = unsigned_digits(text@);
    assert(digits =~= text@.skip(from as int));
    if from == chars.len() {
        return None;
    }
    let mut value: u32 = 0;
    let mut i: usize = from;
    assert(digits.take(0) =~= Seq::<char>::empty());
    while i < chars.len()
        invariant
            chars@ == text@,
            from <= i <= chars@.len(),
            digits == text@.skip(from as int),
            value <= 0xffff,
            value == digits_value(digits.take(i - from)),
            forall|k: int| from <= k < i ==> is_digit(#[trigger] text@[k]),
            digits == unsigned_digits(text@),
        decreases chars@.len() - i,
    {
        let c = chars[i];
        if c < '0' || '9' < c {
            assert(digits[i - from] == c);
            return None;
        }
        let digit: u32 = (c as u32) - ('0' as u32);
        proof {
            assert(digits.take(i - from + 1).drop_last() =~= digits.take(i - from));
            lemma_prefix_value(digits, i - from + 1);
        }
        value = value * 10 + digit;
        if value > 0xffff {
            return None;
        }
        i = i + 1;
    }
    proof {
        assert(digits.take(digits.len() as int) =~= digits);
        assert forall|k: int| 0 <= k < digits.len() implies is_digit(#[trigger] digits[k]) by {
            assert(digits[k] == text@[k + from]);
        }
    }
    Some(value as u16)
}


/// Reading a number back from its decimal notation gives the number.
pub proof fn lemma_decimal_parses_back(n: nat)
    ensures
        all_digits(decimal(n)),
        digits_value(decimal(n)) == n,
        decimal(n)[0] != '+',
        unsigned_digits(decimal(n)) == decimal(n),
    decreases n,
{
    if n < 10 {
        assert(decimal(n).drop_last() =~= Seq::<char>::empty());
        assert(digits_value(Seq::<char>::empty()) == 0);
    } else {
        lemma_decimal_parses_back(n / 10);
        assert(decimal(n).drop_last() =~= decimal(n / 10));
        assert(decimal(n)[0] == decimal(n / 10)[0]);
    }
}

/// The parts of a text between the occurrences of a separator.
pub open spec fn split(text: Seq<char>, separator: char) -> Seq<Seq<char>>
    decreases text.len(),
{
    if text.len() == 0 {
        seq![Seq::empty()]
    } else {
        let before = split(text.drop_last(), separator);
        if text.last() == separator {
            before.push(Seq::empty())
        } else {
            before.update(before.len() - 1, before.last().push(text.last()))
        }
    }
}

/// Any text has at least one part.
pub proof fn lemma_split_nonempty(text: Seq<char>, separator: char)
    ensures
        split(text, separator).len() > 0,
    decreases text.len(),
{
    if text.len() > 0 {
        lemma_split_nonempty(text.drop_last(), separator);
    }
}

/// The contents of a list of texts.
pub open spec fn texts(list: Seq<String>) -> Seq<Seq<char>> {
    list.map_values(|text: String| text@)
}

/// The parts of a text between the occurrences of a separator.
pub fn split_on(text: &str, separator: char) -> (parts: Vec<String>)
    ensures
        texts(parts@) == split(text@, separator),
        parts@.len() > 0,
{
    let chars = chars_of(text);
    let mut parts: Vec<String> = Vec::new();
    let mut current = String::new();
    let mut i: usize = 0;
    assert(texts(parts@).push(current@) =~= split(text@.take(0), separator));
    while i < chars.len()
        invariant
            chars@ == text@,
            i <= chars@.len(),
            texts(parts@).push(current@) == split(text@.take(i as int), separator),
        decreases chars@.len() - i,
    {
        let c = chars[i];
        let ghost before = split(text@.take(i as int), separator);
        let ghost old_parts = parts@;
        let ghost old_current = current@;
        assert(text@.take(i + 1).drop_last() =~= text@.take(i as int));
        assert(text@.take(i + 1).last() == c);
        assert(before.last() == old_current);
        if c == separator {
            parts.push(current);
            current = String::new();
            assert(texts(parts@) =~= texts(old_parts).push(old_current));
            assert(texts(parts@).push(current@) =~= before.push(Seq::empty()));
        } else {
            current.push(c);
            assert(texts(parts@).push(current@) =~= before.update(
                before.len() - 1,
                before.last().push(c),
            ));
        }
        i = i + 1;
    }
    let ghost old_parts = parts@;
    let ghost last = current@;
    parts.push(current);
    assert(texts(parts@) =~= texts(old_parts).push(last));
    assert(text@.take(text@.len() as int) =~= text@);
    parts
}

/// The texts of a list one after the other, with a separator between them.
pub open spec fn joined(parts: Seq<Seq<char>>, separator: Seq<char>) -> Seq<char>
    decreases parts.len(),
{
    if parts.len() == 0 {
        Seq::empty()
    } else if parts.len() == 1 {
        parts[0]
    } else {
        joined(parts.drop_last(), separator) + separator + parts.last()
    }
}

/// The texts of a list one after the other, with a separator between them.
pub fn join(parts: &[String], separator: &str) -> (text: String)
    ensures
        text@ == joined(texts(parts@), separator@),
{
    let mut text = String::new();
    let mut i: usize = 0;
    while i < parts.len()
        invariant
            i <= parts@.len(),
            text@ == joined(texts(parts@.take(i as int)), separator@),
        decreases parts@.len() - i,
    {
        let ghost before = texts(parts@.take(i as int));
        let ghost after = texts(parts@.take(i + 1));
        assert(after.drop_last() =~= before);
        assert(after.last() == parts@[i as int]@);
        if i > 0 {
            text.append(separator);
        }
        text.append(parts[i].as_str());
        assert(text@ =~= joined(after, separator@));
        i = i + 1;
    }
    assert(parts@.take(parts@.len() as int) =~= parts@);
    text
}

/// Two texts one after the other.
pub fn concat(a: &str, b: &str) -> (text: String)
    ensures
        text@ == a@ + b@,
{
    let mut text = a.to_owned();
    text.append(b);
    text
}


/// The contents of a text that may be missing.
pub open spec fn optional(value: Option<String>) -> Option<Seq<char>> {
    match value {
        Some(value) => Some(value@),
        None => None,
    }
}

/// A copy of a text that may be missing.
pub fn copy_optional(value: &Option<String>) -> (copy: Option<String>)
    ensures
        optional(copy) == optional(*value),
{
    match value {
        Some(value) => Some(value.clone()),
        None => None,
    }
}

/// A copy of a list of texts.
pub fn copy_texts(list: &[String]) -> (copy: Vec<String>)
    ensures
        texts(copy@) == texts(list@),
{
    let mut copy: Vec<String> = Vec::new();
    let mut i: usize = 0;
    while i < list.len()
        invariant
            i <= list@.len(),
            texts(copy@) == texts(list@.take(i as int)),
        decreases list@.len() - i,
    {
        let ghost before = copy@;
        copy.push(list[i].clone());
        assert(texts(copy@) =~= texts(before).push(list@[i as int]@));
        assert(texts(list@.take(i + 1)) =~= texts(list@.take(i as int)).push(list@[i as int]@));
        i = i + 1;
    }
    assert(list@.take(list@.len() as int) =~= list@);
    copy
}


/// Whether a character stands nowhere in a text.
pub open spec fn is_free_of(text: Seq<char>, c: char) -> bool {
    forall|i: int| 0 <= i < text.len() ==> #[trigger] text[i] != c
}

/// Text without the separator is one part.
pub proof fn lemma_split_single(text: Seq<char>, separator: char)
    requires
        is_free_of(text, separator),
    ensures
        split(text, separator) == seq![text],
    decreases text.len(),
{
    if text.len() > 0 {
        let front = text.drop_last();
        assert forall|i: int| 0 <= i < front.len() implies #[trigger] front[i] != separator by {
            assert(front[i] == text[i]);
        }
        lemma_split_single(front, separator);
        assert(text.last() == text[text.len() - 1]);
        assert(front.push(text.last()) =~= text);
        assert(split(text, separator) =~= seq![text]);
    } else {
        assert(text =~= Seq::empty());
        assert(split(text, separator) =~= seq![text]);
    }
}

/// The parts of two texts with a separator between them are those of the one and then
/// those of the other.
pub proof fn lemma_split_concat(a: Seq<char>, separator: char, b: Seq<char>)
    ensures
        split(a + seq![separator] + b, separator) == split(a, separator) + split(b, separator),
    decreases b.len(),
{
    let whole = a + seq![separator] + b;
    if b.len() == 0 {
        assert(whole.drop_last() =~= a);
        assert(whole.last() == separator);
        assert(split(whole, separator) =~= split(a, separator) + split(b, separator));
    } else {
        lemma_split_concat(a, separator, b.drop_last());
        lemma_split_nonempty(b.drop_last(), separator);
        assert(whole.drop_last() =~= a + seq![separator] + b.drop_last());
        assert(whole.last() == b.last());
        assert(split(whole, separator) =~= split(a, separator) + split(b, separator));
    }
}

/// A text that neither begins nor ends with white space is what is left of it when it is
/// trimmed, also with a space in front.
pub proof fn lemma_trimmed_with_space(text: Seq<char>)
    requires
        text.len() > 0,
        !is_white_space(text[0]),
        !is_white_space(text.last()),
    ensures
        trimmed(text) == text,
        trimmed(seq![' '] + text) == text,
{
    let spaced = seq![' '] + text;
    assert(spaced.skip(1) =~= text);
    assert(trimmed_start(spaced) == trimmed_start(text));
}

/// `String::from_utf8` gives the text that the bytes encode if they are valid UTF-8,
/// and an error otherwise.
#[verifier::external_body]
pub(crate) fn text_from_utf8(bytes: Vec<u8>) -> (result: Option<String>)
    ensures
        match result {
            Some(text) => valid_utf8(bytes@) && text@ == decode_utf8(bytes@),
            None => !valid_utf8(bytes@),
        },
{
    String::from_utf8(bytes).ok()
}

/// What `String::from_utf8_lossy` makes of bytes.
pub uninterp spec fn lossy_text(bytes: Seq<u8>) -> Seq<char>;

/// `String::from_utf8_lossy` gives the text that the bytes encode if they are valid UTF-8;
/// where they are not, it puts replacement characters in, which is not spelled out here.
#[verifier::external_body]
pub(crate) fn text_from_utf8_lossy(bytes: &[u8]) -> (result: String)
    ensures
        result@ == lossy_text(bytes@),
        valid_utf8(bytes@) ==> result@ == decode_utf8(bytes@),
{
    String::from_utf8_lossy(bytes).into_owned()
}

/// Where an item stands first; the end if it stands nowhere.
pub open spec fn first_place<T>(items: Seq<T>, item: T) -> int
    decreases items.len(),
{
    if items.len() == 0 {
        0
    } else {
        let before = first_place(items.drop_last(), item);
        if before < items.len() - 1 || items.last() == item {
            before
        } else {
            items.len() as int
        }
    }
}

proof fn lemma_first_place<T>(items: Seq<T>, item: T, place: int)
    requires
        0 <= place <= items.len(),
        forall|i: int| 0 <= i < place ==> items[i] != item,
        place < items.len() ==> items[place] == item,
    ensures
        first_place(items, item) == place,
    decreases items.len(),
{
    if items.len() > 0 {
        let shorter = items.drop_last();
        let end = items.len() - 1;
        assert(items.last() == items[end]);
        if place < end {
            assert(shorter[place] == items[place]);
            lemma_first_place(shorter, item, place);
        } else {
            lemma_first_place(shorter, item, end);
        }
    }
}

/// What is left of a text that is read up to its first NUL.
pub open spec fn before_nul(text: Seq<char>) -> Seq<char> {
    text.take(first_place(text, '\0'))
}

/// A text up to its first NUL.
pub fn cut_at_nul(text: &str) -> (result: String)
    ensures
        result@ == before_nul(text@),
{
    let chars = chars_of(text);
    let mut i: usize = 0;
    while i < chars.len() && chars[i] != '\0'
        invariant
            i <= chars@.len(),
            forall|k: int| 0 <= k < i ==> chars@[k] != '\0',
        decreases chars@.len() - i,
    {
        i = i + 1;
    }
    proof {
        lemma_first_place(text@, '\0', i as int);
    }
    let result = text_of(chars.as_slice(), 0, i);
    assert(result@ =~= before_nul(text@));
    result
}

/// What is left of bytes that are read up to their first NUL.
pub open spec fn c_bytes(bytes: Seq<u8>) -> Seq<u8> {
    bytes.take(first_place(bytes, 0u8))
}

/// The text that bytes encode up to their first NUL, if they encode one.
pub fn text_from_c_bytes(bytes: Vec<u8>) -> (result: Option<String>)
    ensures
        match result {
            Some(text) => valid_utf8(c_bytes(bytes@)) && text@ == decode_utf8(c_bytes(bytes@)),
            None => !valid_utf8(c_bytes(bytes@)),
        },
{
    let mut cut: Vec<u8> = Vec::new();
    let mut i: usize = 0;
    while i < bytes.len() && bytes[i] != 0
        invariant
            i <= bytes@.len(),
            cut@ == bytes@.take(i as int),
            forall|k: int| 0 <= k < i ==> bytes@[k] != 0,
        decreases bytes@.len() - i,
    {
        cut.push(bytes[i]);
        assert(cut@ =~= bytes@.take(i + 1));
        i = i + 1;
    }
    proof {
        lemma_first_place(bytes@, 0u8, i as int);
    }
    text_from_utf8(cut)
}

/// A line without the carriage return at its end.
pub open spec fn without_return(line: Seq<char>) -> Seq<char> {
    if line.len() > 0 && line.last() == '\r' {
        line.drop_last()
    } else {
        line
    }
}

/// The lines of a text, without what ends them.
pub open spec fn lines_of(text: Seq<char>) -> Seq<Seq<char>> {
    let parts = split(text, '\n');
    let ended = parts.drop_last().map_values(|line: Seq<char>| without_return(line));
    if parts.last().len() > 0 {
        ended.push(parts.last())
    } else {
        ended
    }
}

fn drop_return(line: &str) -> (result: String)
    ensures
        result@ == without_return(line@),
{
    let chars = chars_of(line);
    let length: usize = chars.len();
    if length > 0 && chars[length - 1] == '\r' {
        let result = text_of(chars.as_slice(), 0, length - 1);
        assert(result@ =~= line@.drop_last());
        result
    } else {
        line.to_owned()
    }
}

/// The lines of a text, without what ends them.
pub fn lines(text: &str) -> (lines: Vec<String>)
    ensures
        texts(lines@) == lines_of(text@),
{
    let parts = split_on(text, '\n');
    let ghost all = split(text@, '\n');
    let ghost ended = all.drop_last().map_values(|line: Seq<char>| without_return(line));
    let mut lines: Vec<String> = Vec::new();
    let count: usize = parts.len() - 1;
    let mut i: usize = 0;
    assert(texts(lines@) =~= ended.take(0));
    while i < count
        invariant
            count == parts@.len() - 1,
            i <= count,
            texts(parts@) == all,
            ended == all.drop_last().map_values(|line: Seq<char>| without_return(line)),
            texts(lines@) == ended.take(i as int),
        decreases count - i,
    {
        let ghost before = lines@;
        let line = drop_return(parts[i].as_str());
        proof {
            assert(all[i as int] == parts@[i as int]@);
            assert(ended[i as int] == without_return(all[i as int]));
            assert(ended.take(i + 1) =~= ended.take(i as int).push(ended[i as int]));
        }
        lines.push(line);
        assert(texts(lines@) =~= texts(before).push(line@));
        i = i + 1;
    }
    assert(ended.take(count as int) =~= ended);
    assert(all.last() == parts@[count as int]@);
    if !parts[count].as_str().is_empty() {
        let ghost before = lines@;
        let last = parts[count].clone();
        lines.push(last);
        assert(texts(lines@) =~= texts(before).push(last@));
    }
    lines
}

// What the operations come to.

/// Whether a text is nothing but white space.
pub open spec fn all_white(text: Seq<char>) -> bool {
    forall|i: int| 0 <= i < text.len() ==> is_white_space(#[trigger] text[i])
}

proof fn lemma_trimmed_start_parts(text: Seq<char>) -> (blank: Seq<char>)
    ensures
        text == blank + trimmed_start(text),
        all_white(blank),
        trimmed_start(text).len() > 0 ==> !is_white_space(trimmed_start(text)[0]),
    decreases text.len(),
{
    if text.len() > 0 && is_white_space(text[0]) {
        let rest = lemma_trimmed_start_parts(text.skip(1));
        let blank = seq![text[0]] + rest;
        assert(seq![text[0]] + text.skip(1) =~= text);
        assert(blank + trimmed_start(text) =~= seq![text[0]] + (rest + trimmed_start(
            text.skip(1),
        )));
        assert forall|i: int| 0 <= i < blank.len() implies is_white_space(#[trigger] blank[i]) by {
            if i > 0 {
                assert(blank[i] == rest[i - 1]);
            }
        }
        blank
    } else {
        assert(Seq::<char>::empty() + text =~= text);
        Seq::empty()
    }
}

proof fn lemma_trimmed_end_parts(text: Seq<char>) -> (blank: Seq<char>)
    ensures
        text == trimmed_end(text) + blank,
        all_white(blank),
        trimmed_end(text).len() > 0 ==> !is_white_space(trimmed_end(text).last()),
    decreases text.len(),
{
    if text.len() > 0 && is_white_space(text.last()) {
        let rest = lemma_trimmed_end_parts(text.drop_last());
        let blank = rest.push(text.last());
        assert(text.drop_last().push(text.last()) =~= text);
        assert(trimmed_end(text) + blank =~= (trimmed_end(text.drop_last()) + rest).push(
            text.last(),
        ));
        assert forall|i: int| 0 <= i < blank.len() implies is_white_space(#[trigger] blank[i]) by {
            if i < rest.len() {
                assert(blank[i] == rest[i]);
            }
        }
        blank
    } else {
        assert(text + Seq::<char>::empty() =~= text);
        Seq::empty()
    }
}

/// Trimming takes white space from the two ends of a text and nothing else, and leaves none there;
/// trimming again changes nothing.
pub proof fn law_trimming_takes_white_space_alone(text: Seq<char>)
    ensures
        exists|before: Seq<char>, after: Seq<char>|
            #![trigger before + after]
            all_white(before) && all_white(after) && text == before + trimmed(text) + after,
        trimmed(text).len() > 0 ==> !is_white_space(trimmed(text)[0]) && !is_white_space(
            trimmed(text).last(),
        ),
        trimmed(trimmed(text)) == trimmed(text),
        trimmed(text).len() == 0 <==> all_white(text),
{
    let started = trimmed_start(text);
    let kept = trimmed(text);
    let before = lemma_trimmed_start_parts(text);
    let after = lemma_trimmed_end_parts(started);
    assert(text =~= before + kept + after);
    assert((before + after).len() >= 0);
    if kept.len() > 0 {
        assert(kept[0] == started[0]);
        lemma_trimmed_with_space(kept);
        assert(text[before.len() as int] == kept[0]);
    } else {
        assert(text =~= before + after);
        assert forall|i: int| 0 <= i < text.len() implies is_white_space(#[trigger] text[i]) by {
            if i < before.len() {
                assert(text[i] == before[i]);
            } else {
                assert(text[i] == after[i - before.len()]);
            }
        }
    }
}

/// Trimming twice is trimming once.
pub proof fn lemma_trimmed_twice(text: Seq<char>)
    ensures
        trimmed(trimmed(text)) == trimmed(text),
{
    law_trimming_takes_white_space_alone(text);
}

/// A text without a NUL is not cut.
pub proof fn lemma_before_nul_of_free(text: Seq<char>)
    requires
        is_free_of(text, '\0'),
    ensures
        before_nul(text) == text,
{
    lemma_first_place(text, '\0', text.len() as int);
    assert(before_nul(text) =~= text);
}

/// Bytes without a NUL are not cut.
pub proof fn lemma_c_bytes_of_free(bytes: Seq<u8>)
    requires
        forall|i: int| 0 <= i < bytes.len() ==> (#[trigger] bytes[i]) != 0,
    ensures
        c_bytes(bytes) == bytes,
{
    lemma_first_place(bytes, 0u8, bytes.len() as int);
    assert(c_bytes(bytes) =~= bytes);
}

/// A signed number is told by its decimal notation.
pub proof fn lemma_signed_decimal_tells(a: int, b: int)
    requires
        signed_decimal(a) == signed_decimal(b),
    ensures
        a == b,
{
    reveal_strlit("-");
    let m = if a < 0 {
        (-a) as nat
    } else {
        a as nat
    };
    let n = if b < 0 {
        (-b) as nat
    } else {
        b as nat
    };
    lemma_decimal_parses_back(m);
    lemma_decimal_parses_back(n);
    assert(is_digit(decimal(m)[0]) && is_digit(decimal(n)[0]));
    if a < 0 {
        assert(signed_decimal(a)[0] == '-');
        assert(decimal(m) =~= signed_decimal(a).skip(1));
    } else {
        assert(signed_decimal(a)[0] == decimal(m)[0]);
    }
    if b < 0 {
        assert(signed_decimal(b)[0] == '-');
        assert(decimal(n) =~= signed_decimal(b).skip(1));
    } else {
        assert(signed_decimal(b)[0] == decimal(n)[0]);
    }
}

/// Digits are the characters from 0 to 9, each with its own value; a number below ten is written with
/// one digit, and one more digit behind a number is ten times the number and the digit.
pub proof fn law_numbers_are_written_in_tens(n: nat, digit: nat)
    requires
        digit < 10,
    ensures
        decimal(digit).len() == 1,
        decimal(digit)[0] as int == '0' as int + digit,
        n > 0 ==> decimal(10 * n + digit) == decimal(n) + decimal(digit),
        digits_value(decimal(n)) == n,
{
    lemma_decimal_parses_back(n);
    if n > 0 {
        assert((10 * n + digit) / 10 == n && (10 * n + digit) % 10 == digit);
        assert(decimal(10 * n + digit) =~= decimal(n) + decimal(digit));
    }
}

/// Splitting a text and joining the parts with the separator gives the text back, and no part holds
/// the separator.
pub proof fn law_joining_undoes_splitting(text: Seq<char>, separator: char)
    ensures
        joined(split(text, separator), seq![separator]) == text,
        forall|i: int|
            0 <= i < split(text, separator).len() ==> is_free_of(
                #[trigger] split(text, separator)[i],
                separator,
            ),
    decreases text.len(),
{
    let parts = split(text, separator);
    if text.len() == 0 {
        assert(parts.len() == 1 && parts[0] == Seq::<char>::empty());
        assert(joined(parts, seq![separator]) =~= text);
    } else {
        let shorter = text.drop_last();
        let before = split(shorter, separator);
        law_joining_undoes_splitting(shorter, separator);
        lemma_split_nonempty(shorter, separator);
        assert(shorter.push(text.last()) =~= text);
        let sign = seq![separator];
        if text.last() == separator {
            assert(parts.drop_last() =~= before);
            assert(joined(parts, sign) =~= shorter + sign + Seq::<char>::empty());
            assert(joined(parts, sign) =~= text);
        } else {
            let last = before.last().push(text.last());
            assert(parts.drop_last() =~= before.drop_last());
            assert(parts.last() == last);
            if before.len() == 1 {
                assert(joined(parts, sign) =~= text);
            } else {
                assert(joined(parts, sign) =~= joined(before, sign).push(text.last()));
            }
        }
        assert forall|i: int| 0 <= i < parts.len() implies is_free_of(
            #[trigger] parts[i],
            separator,
        ) by {
            if i < before.len() {
                assert(is_free_of(before[i], separator));
            }
        }
    }
}

/// Lower case changes the letters from A to Z alone, each into its own small letter, and changes
/// nothing that is in lower case already.
pub proof fn law_lower_case_changes_capitals_alone(text: Seq<char>, c: char)
    ensures
        ascii_lowered(text).len() == text.len(),
        ascii_lowered(ascii_lowered(text)) == ascii_lowered(text),
        ascii_lower(c) != c <==> 'A' <= c <= 'Z',
        'A' <= c <= 'Z' ==> 'a' <= ascii_lower(c) <= 'z' && ascii_lower(c) as int - 'a' as int
            == c as int - 'A' as int,
        forall|i: int|
            0 <= i < text.len() ==> #[trigger] ascii_lowered(text)[i] == ascii_lower(text[i]),
{
    assert(ascii_lowered(ascii_lowered(text)) =~= ascii_lowered(text));
}

/// A line that is followed by a line break is read as it was written, but for a carriage return at
/// its end; what stands behind the last break is a line only if there is anything.
pub proof fn law_lines_end_with_a_break(line: Seq<char>, rest: Seq<char>)
    requires
        is_free_of(line, '\n'),
        is_free_of(rest, '\n'),
    ensures
        lines_of(line + seq!['\n'] + rest) == if rest.len() > 0 {
            seq![without_return(line), rest]
        } else {
            seq![without_return(line)]
        },
        without_return(line.push('\r')) == line,
        line.len() == 0 || line.last() != '\r' ==> without_return(line) == line,
{
    lemma_split_single(line, '\n');
    lemma_split_single(rest, '\n');
    lemma_split_concat(line, '\n', rest);
    let whole = line + seq!['\n'] + rest;
    assert(split(whole, '\n') =~= seq![line, rest]);
    assert(line.push('\r').drop_last() =~= line);
    assert(split(whole, '\n').drop_last().map_values(|line: Seq<char>| without_return(line))
        =~= seq![without_return(line)]);
    assert(lines_of(whole) =~= if rest.len() > 0 {
        seq![without_return(line), rest]
    } else {
        seq![without_return(line)]
    });
}

/// What is read up to the first NUL holds none, and what follows the NUL has no say.
pub proof fn law_reading_stops_at_the_first_nul(text: Seq<char>, rest: Seq<char>)
    requires
        is_free_of(text, '\0'),
    ensures
        before_nul(text) == text,
        before_nul(text + seq!['\0'] + rest) == text,
{
    lemma_before_nul_of_free(text);
    let whole = text + seq!['\0'] + rest;
    lemma_first_place(whole, '\0', text.len() as int);
    assert(before_nul(whole) =~= text);
}

/// A number is read from its digits exactly if it is not too large; a plus sign in front of them has
/// no say, and a text that holds anything but digits is no number.
pub proof fn law_numbers_are_read_from_digits(n: nat, max: nat, other: Seq<char>)
    ensures
        parsed_number(decimal(n), max) is Some <==> n <= max,
        n <= max ==> parsed_number(decimal(n), max) == Some(n),
        parsed_number(seq!['+'] + decimal(n), max) == parsed_number(decimal(n), max),
        parsed_number(Seq::empty(), max) is None,
        parsed_number(other, max) is Some ==> parsed_number(other, max)->0 <= max,
        forall|i: int|
            0 < i < other.len() && !is_digit(#[trigger] other[i]) ==> parsed_number(
                other,
                max,
            ) is None,
        other.len() > 0 && !is_digit(other[0]) && other[0] != '+' ==> parsed_number(
            other,
            max,
        ) is None,
{
    lemma_decimal_parses_back(n);
    let signed = seq!['+'] + decimal(n);
    assert(signed.skip(1) =~= decimal(n));
    assert(unsigned_digits(signed) =~= decimal(n));
    let digits = unsigned_digits(other);
    assert forall|i: int| 0 < i < other.len() && !is_digit(
        #[trigger] other[i],
    ) implies parsed_number(other, max) is None by {
        if other[0] == '+' {
            assert(digits[i - 1] == other[i]);
        } else {
            assert(digits[i] == other[i]);
        }
    }
    if other.len() > 0 && other[0] != '+' {
        assert(digits[0] == other[0]);
    }
}

} // verus!
