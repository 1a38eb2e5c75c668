//! Editing a line of text, and the places in it.

use zed_ios::font_registry::FontRegistry;
use zed_ios::line_layout::{layout_line, NativeGlyph, NativeRun, ShapedGlyph};
use zed_ios::text;
use zed_ios::text_index::{byte_length, range_from_utf16, range_to_utf16};
use zed_ios::text_input::{MouseHit, TextInput};
use zed_ios::text_system::{
    font_spans, glyph_offsets, FontRun, FontSpan, StringIndexConverter,
};

#[test]
fn converter_counts_both_ways() {
    let mut converter = StringIndexConverter::new("a𐐷b");
    converter.advance_to_utf8_ix(1);
    assert_eq!((converter.utf8_ix, converter.utf16_ix), (1, 1));
    converter.advance_to_utf16_ix(3);
    assert_eq!((converter.utf8_ix, converter.utf16_ix), (5, 3));
    converter.advance_to_utf16_ix(9);
    assert_eq!((converter.utf8_ix, converter.utf16_ix), (6, 4));
}

#[test]
fn ranges_go_to_utf16_and_back() {
    assert_eq!(range_to_utf16("a𐐷b", 1..5), 1..3);
    assert_eq!(range_from_utf16("a𐐷b", 1..3), Some(1..5));
    assert_eq!(byte_length("a𐐷b"), 6);
}

#[test]
fn lines_without_characters_of_their_own_have_no_spans() {
    let spans = font_spans("ab", &[FontRun { font_id: 3, len: 1 }, FontRun { font_id: 4, len: 1 }], 2);
    assert_eq!(
        spans,
        vec![
            FontSpan { font_id: 3, start: 0, length: 1 },
            FontSpan { font_id: 4, start: 1, length: 1 },
        ]
    );
    assert_eq!(glyph_offsets("a𐐷b", &[0, 1, 3]), vec![0, 1, 5]);
}

#[test]
fn typing_moving_and_deleting() {
    let mut input = TextInput::new("Name").with_label("Name");
    input.replace_text_in_range(None, "ab\nc");
    assert_eq!(input.text(), text_of(&input));
    input.set_text("héllo".into());
    assert_eq!(input.cursor_offset(), 6);
    input.left();
    input.backspace();
    assert_eq!(input.text(), "hélo");
    input.home();
    input.delete();
    assert_eq!(input.text(), "élo");
    input.select_all();
    assert_eq!(input.copy().as_deref(), Some("élo"));
    assert_eq!(input.cut().as_deref(), Some("élo"));
    assert_eq!(input.text(), "");
    input.paste(Some("one\ntwo"));
    assert_eq!(input.text(), "one two");
    input.end();
    input.on_key_down("backspace");
    assert_eq!(input.text(), "one tw");
}

fn text_of(input: &TextInput) -> &str {
    input.content.as_str()
}

#[test]
fn cursor_moves_over_whole_clusters() {
    let mut input = TextInput::new("");
    // An e with a combining accent is one cluster of three bytes.
    input.set_text("ae\u{301}b".into());
    assert_eq!(input.previous_boundary(4), 1);
    assert_eq!(input.next_boundary(1), 4);
    input.end();
    input.left();
    input.left();
    assert_eq!(input.cursor_offset(), 1);
    input.select_right();
    assert_eq!(input.selected_text_range().range, 1..3);
    input.right();
    assert_eq!(input.cursor_offset(), 4);
}

#[test]
fn masked_contents_are_not_shown() {
    let mut input = TextInput::new("").with_masked(true);
    input.set_text("sécret".into());
    assert_eq!(input.display_text().chars().count(), 6);
    assert!(!input.display_text().contains('s'));
    let clear = TextInput::new("").with_secure(false);
    assert_eq!(clear.display_text(), "");
}

#[test]
fn marked_text_is_replaced_until_it_is_accepted() {
    let mut input = TextInput::new("");
    input.replace_and_mark_text_in_range(None, "に", Some(1..1));
    assert_eq!(input.marked_text_range(), Some(0..1));
    input.replace_and_mark_text_in_range(None, "日本", None);
    assert_eq!(input.text(), "日本");
    input.unmark_text();
    assert_eq!(input.marked_text_range(), None);
    assert_eq!(
        input.text_for_range(0..1),
        Some((0..1, "日".to_string()))
    );
}

#[test]
fn clicks_place_the_cursor() {
    let mut input = TextInput::new("");
    input.set_text("abc".into());
    input.painted();
    input.on_mouse_down(false, MouseHit::Over(1));
    assert_eq!(input.cursor_offset(), 1);
    input.on_mouse_down(true, MouseHit::Behind);
    assert_eq!(input.selected_text_range().range, 1..3);
    input.on_mouse_down(false, MouseHit::Before);
    assert_eq!(input.cursor_offset(), 0);
}

#[test]
fn texts_are_cut_and_joined() {
    assert_eq!(text::trim(" \ta b\n"), "a b");
    assert_eq!(text::split_on("a,b,", ','), vec!["a", "b", ""]);
    assert_eq!(text::join(&["a".into(), "b".into()], ", "), "a, b");
    assert_eq!(text::lines("a\r\nb\n\nc\r"), vec!["a", "b", "", "c\r"]);
    assert_eq!(text::lines(""), Vec::<String>::new());
    assert_eq!(text::format_signed(-120), "-120");
    assert_eq!(text::parse_u16("+65535"), Some(65535));
    assert_eq!(text::parse_u16("65536"), None);
    assert_eq!(text::parse_u16(""), None);
    assert_eq!(text::to_ascii_lower("ÀBc"), "Àbc");
}

#[test]
fn lines_are_laid_out_by_the_fonts_that_were_taken() {
    let mut registry = FontRegistry::new();
    let empty = layout_line::<(i32, i32)>(&mut registry, "\u{feff}", &[]);
    assert_eq!(empty.len, "\u{feff}".len());
    assert!(empty.runs.is_empty());

    let line = "a\u{feff}b";
    let glyph = |id, utf16_ix| NativeGlyph { id, position: (id as i32, 0), utf16_ix };
    let native = [
        NativeRun { postscript_name: "Helvetica".into(), glyphs: vec![glyph(68, 0), glyph(69, 2)] },
        NativeRun { postscript_name: "AppleColorEmoji".into(), glyphs: vec![glyph(5, 1)] },
    ];
    let layout = layout_line(&mut registry, line, &native);
    assert_eq!(layout.len, line.len());
    assert_eq!(layout.runs.len(), 2);
    assert_eq!(layout.runs[0].font_id, 0);
    assert_eq!(
        layout.runs[0].glyphs,
        vec![
            ShapedGlyph { id: 68, position: (68, 0), index: 0, is_emoji: false },
            ShapedGlyph { id: 69, position: (69, 0), index: 4, is_emoji: false },
        ]
    );
    assert_eq!(layout.runs[1].font_id, 1);
    assert!(layout.runs[1].glyphs[0].is_emoji);
    assert_eq!(layout.runs[1].glyphs[0].index, 1);
}

#[test]
fn lines_are_shown_with_their_selection() {
    let mut input = TextInput::new("Host");
    let line = input.line_state();
    assert!(line.is_placeholder);
    assert_eq!(line.text, "Host");
    assert_eq!(line.cursor, None);
    input.set_text("a𐐷b".into());
    assert_eq!(input.range_to_measure(0..1), None);
    assert_eq!(input.character_index_for_point(5), None);
    input.painted();
    assert_eq!(input.range_to_measure(1..3), Some(1..5));
    assert_eq!(input.character_index_for_point(5), Some(3));
    assert_eq!(input.character_index_for_point(2), None);
    input.select_left();
    input.select_left();
    let line = input.line_state();
    assert_eq!(line.text, "a𐐷b");
    assert_eq!(line.selection, Some(1..6));
    assert_eq!(line.cursor, Some(1));
}

#[test]
fn arrows_undo_each_other() {
    let mut input = TextInput::new("");
    // The flag is one cluster of two characters.
    input.set_text("ae\u{301}\u{1F1E9}\u{1F1EA}b".into());
    let mut places = vec![0];
    while *places.last().unwrap() < input.text().len() {
        places.push(input.next_boundary(*places.last().unwrap()));
    }
    assert_eq!(places, vec![0, 1, 4, 12, 13]);
    for pair in places.windows(2) {
        assert_eq!(input.previous_boundary(pair[1]), pair[0]);
        assert_eq!(input.next_boundary(pair[0]), pair[1]);
    }
    assert_eq!(input.previous_boundary(8), 4);
    assert_eq!(input.next_boundary(8), 12);
}
