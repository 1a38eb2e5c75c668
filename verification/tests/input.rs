//! Keys, touches and ranges of text.

use zed_ios::key_input::{
    characters_to_keystroke, handle_presses, handle_touches, key_code_to_key_name,
    key_code_to_string, keystroke_for, press_goes_down, translate_key_press,
    translate_modifiers_changed, translate_pan_to_scroll, translate_touch_to_mouse, Modifiers,
    PlatformInput, Press, PressedKey, Touch, TouchPhase, UIKeyModifierFlags, UIPressPhase,
    UITouchPhase,
};
use zed_ios::text_range::{NSRange, TextRange};

#[test]
fn test_key_code_mapping() {
    assert_eq!(key_code_to_key_name(0x04), Some("a"));
    assert_eq!(key_code_to_key_name(0x1E), Some("1"));
    assert_eq!(key_code_to_key_name(0x28), Some("enter"));
    assert_eq!(key_code_to_key_name(0x2A), Some("backspace"));
    assert_eq!(key_code_to_key_name(0x4F), Some("right"));
    assert_eq!(key_code_to_key_name(0xFF), None);
}

#[test]
fn test_text_range() {
    let range = TextRange::new(5, 10);
    assert_eq!(range.len(), 5);
    assert!(!range.is_empty());

    let empty = TextRange::empty(5);
    assert!(empty.is_empty());
    assert_eq!(empty.len(), 0);
}

#[test]
fn ranges_come_back() {
    assert_eq!(NSRange::from(3..7).to_range(), Some(3..7));
    assert_eq!(NSRange { location: 3, length: 4 }, NSRange::from(3..7));
    assert!(!NSRange::invalid().is_valid());
    assert_eq!(NSRange::invalid().to_range(), None);
    assert_eq!(TextRange::from(2..9).to_std_range(), 2..9);
}

fn no_modifiers() -> Modifiers {
    Modifiers {
        control: false,
        alt: false,
        shift: false,
        platform: false,
        function: false,
    }
}

#[test]
fn each_flag_stands_for_one_modifier() {
    assert_eq!(UIKeyModifierFlags(0).to_modifiers(), no_modifiers());
    assert_eq!(
        UIKeyModifierFlags(0x2_0000).to_modifiers(),
        Modifiers { shift: true, ..no_modifiers() }
    );
    assert_eq!(
        UIKeyModifierFlags(0x4_0000 | 0x10_0000).to_modifiers(),
        Modifiers { control: true, platform: true, ..no_modifiers() }
    );
    assert_eq!(
        UIKeyModifierFlags(0x8_0000).to_modifiers(),
        Modifiers { alt: true, ..no_modifiers() }
    );
    assert!(UIKeyModifierFlags(0x1_0000).contains(UIKeyModifierFlags::ALPHA_SHIFT));
    assert!(!UIKeyModifierFlags(0x1_0000).contains(UIKeyModifierFlags::NUMERIC_PAD));
}

#[test]
fn touches_press_and_release_the_button() {
    let none = no_modifiers();
    assert_eq!(
        translate_touch_to_mouse(0, (1, 2), 1, none),
        Some(PlatformInput::MouseDown { position: (1, 2), click_count: 1, modifiers: none })
    );
    assert_eq!(
        translate_touch_to_mouse(1, (3, 4), 1, none),
        Some(PlatformInput::MouseMove { position: (3, 4), modifiers: none })
    );
    assert_eq!(translate_touch_to_mouse(2, (3, 4), 1, none), None);
    assert_eq!(
        translate_touch_to_mouse(3, (5, 6), 2, none),
        Some(PlatformInput::MouseUp { position: (5, 6), click_count: 2, modifiers: none })
    );
    assert_eq!(
        translate_touch_to_mouse(4, (5, 6), 2, none),
        Some(PlatformInput::MouseUp { position: (5, 6), click_count: 2, modifiers: none })
    );
    assert_eq!(translate_touch_to_mouse(7, (0, 0), 1, none), None);
    assert_eq!(UITouchPhase::from_number(2), Some(UITouchPhase::Stationary));
    assert_eq!(UITouchPhase::from_number(9), None);
}

#[test]
fn touches_are_told_in_order() {
    let touches = [
        Touch { phase: 0, position: 10u32, tap_count: 1 },
        Touch { phase: 2, position: 20, tap_count: 1 },
        Touch { phase: 3, position: 30, tap_count: 1 },
    ];
    let inputs = handle_touches(&touches, no_modifiers());
    assert_eq!(inputs.len(), 2);
    assert!(matches!(inputs[0], PlatformInput::MouseDown { position: 10, .. }));
    assert!(matches!(inputs[1], PlatformInput::MouseUp { position: 30, .. }));
}

#[test]
fn panning_scrolls() {
    let none = no_modifiers();
    assert_eq!(
        translate_pan_to_scroll(1, 5, -3, none),
        Some(PlatformInput::ScrollWheel {
            position: 5,
            delta: -3,
            modifiers: none,
            touch_phase: TouchPhase::Started,
        })
    );
    assert_eq!(translate_pan_to_scroll(0, 5, -3, none), None);
}

fn key(key_code: i64, characters: Option<&str>) -> PressedKey {
    PressedKey {
        key_code,
        characters: characters.map(|characters| characters.to_string()),
        modifier_flags: 0x2_0000,
    }
}

#[test]
fn keys_are_called_by_their_characters_or_their_code() {
    let input = translate_key_press::<u8>(Some(key(0x04, Some("A"))), true, true);
    match input {
        Some(PlatformInput::KeyDown { keystroke, is_held }) => {
            assert_eq!(keystroke.key, "A");
            assert_eq!(keystroke.key_char.as_deref(), Some("A"));
            assert!(keystroke.modifiers.shift);
            assert!(is_held);
        }
        other => panic!("unexpected input: {other:?}"),
    }
    let input = translate_key_press::<u8>(Some(key(0x28, Some(""))), false, false);
    match input {
        Some(PlatformInput::KeyUp { keystroke }) => {
            assert_eq!(keystroke.key, key_code_to_string(0x28));
            assert_eq!(keystroke.key_char, None);
        }
        other => panic!("unexpected input: {other:?}"),
    }
    let input = translate_key_press::<u8>(Some(key(0x04, Some("a\0b"))), false, false);
    assert!(matches!(
        input,
        Some(PlatformInput::KeyUp { keystroke })
            if keystroke.key == "a" && keystroke.key_char.as_deref() == Some("a")
    ));
    let input = translate_key_press::<u8>(Some(key(0x04, Some("\0"))), false, false);
    assert!(matches!(
        input,
        Some(PlatformInput::KeyUp { keystroke })
            if keystroke.key.is_empty() && keystroke.key_char.as_deref() == Some("")
    ));
    assert_eq!(translate_key_press::<u8>(None, true, false), None);
}

#[test]
fn presses_without_a_key_tell_nothing() {
    let presses = [
        Press { key: None, is_repeating: true },
        Press { key: Some(key(0x04, Some("a"))), is_repeating: false },
    ];
    let inputs = handle_presses::<u8>(&presses, true);
    assert_eq!(inputs.len(), 1);
    assert!(matches!(&inputs[0], PlatformInput::KeyDown { keystroke, is_held: false } if keystroke.key == "a"));
    assert_eq!(press_goes_down(UIPressPhase::Changed), Some(true));
    assert_eq!(press_goes_down(UIPressPhase::Cancelled), Some(false));
    assert_eq!(press_goes_down(UIPressPhase::Stationary), None);
}

#[test]
fn modifiers_are_told_when_they_change() {
    assert_eq!(
        translate_modifiers_changed::<u8>(0x1_0000 | 0x10_0000),
        PlatformInput::ModifiersChanged {
            modifiers: Modifiers { platform: true, ..no_modifiers() },
            capslock: true,
        }
    );
}

#[test]
fn keystrokes_of_typed_characters_are_in_lower_case() {
    let keystroke = characters_to_keystroke("Ä", None, no_modifiers()).unwrap();
    assert_eq!(keystroke.key, "ä");
    assert_eq!(keystroke.key_char.as_deref(), Some("Ä"));
    let given = keystroke_for("Ä", "ä".to_string(), None, no_modifiers()).unwrap();
    assert_eq!(given, keystroke);
    let enter = characters_to_keystroke("", Some(0x28), no_modifiers()).unwrap();
    assert_eq!(enter.key, "enter");
}

#[test]
fn keys_have_their_own_names() {
    let mut names: Vec<&str> = (0..0xE0).filter_map(key_code_to_key_name).collect();
    let count = names.len();
    assert_eq!(count, 0x64 - 0x04 - 1);
    names.sort();
    names.dedup();
    assert_eq!(names.len(), count);
    for code in 0xE0..0xE4 {
        assert_eq!(key_code_to_key_name(code), key_code_to_key_name(code + 4));
        assert!(!names.contains(&key_code_to_key_name(code).unwrap()));
    }
}
