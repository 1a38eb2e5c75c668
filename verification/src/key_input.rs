//! Keyboard and touch input: the names of keys, and what a touch, a pan or a key press
//! comes to.

use crate::text;
use crate::text_index;
use crate::text_input;
use crate::text_input::InputView;
use vstd::prelude::*;

verus! {

/// The name of a key that is neither a letter nor a digit.
pub open spec fn special_key_name(code: int) -> Option<Seq<char>> {
    if code == 0x28 {
        Some("enter"@)
    } else if code == 0x29 {
        Some("escape"@)
    } else if code == 0x2A {
        Some("backspace"@)
    } else if code == 0x2B {
        Some("tab"@)
    } else if code == 0x2C {
        Some("space"@)
    } else if code == 0x2D {
        Some("-"@)
    } else if code == 0x2E {
        Some("="@)
    } else if code == 0x2F {
        Some("["@)
    } else if code == 0x30 {
        Some("]"@)
    } else if code == 0x31 {
        Some("\\"@)
    } else if code == 0x33 {
        Some(";"@)
    } else if code == 0x34 {
        Some("'"@)
    } else if code == 0x35 {
        Some("`"@)
    } else if code == 0x36 {
        Some(","@)
    } else if code == 0x37 {
        Some("."@)
    } else if code == 0x38 {
        Some("/"@)
    } else if code == 0x39 {
        Some("capslock"@)
    } else if code == 0x3A {
        Some("f1"@)
    } else if code == 0x3B {
        Some("f2"@)
    } else if code == 0x3C {
        Some("f3"@)
    } else if code == 0x3D {
        Some("f4"@)
    } else if code == 0x3E {
        Some("f5"@)
    } else if code == 0x3F {
        Some("f6"@)
    } else if code == 0x40 {
        Some("f7"@)
    } else if code == 0x41 {
        Some("f8"@)
    } else if code == 0x42 {
        Some("f9"@)
    } else if code == 0x43 {
        Some("f10"@)
    } else if code == 0x44 {
        Some("f11"@)
    } else if code == 0x45 {
        Some("f12"@)
    } else if code == 0x46 {
        Some("printscreen"@)
    } else if code == 0x47 {
        Some("scrolllock"@)
    } else if code == 0x48 {
        Some("pause"@)
    } else if code == 0x49 {
        Some("insert"@)
    } else if code == 0x4A {
        Some("home"@)
    } else if code == 0x4B {
        Some("pageup"@)
    } else if code == 0x4C {
        Some("delete"@)
    } else if code == 0x4D {
        Some("end"@)
    } else if code == 0x4E {
        Some("pagedown"@)
    } else if code == 0x4F {
        Some("right"@)
    } else if code == 0x50 {
        Some("left"@)
    } else if code == 0x51 {
        Some("down"@)
    } else if code == 0x52 {
        Some("up"@)
    } else if code == 0x53 {
        Some("numlock"@)
    } else if code == 0x54 {
        Some("numpad_divide"@)
    } else if code == 0x55 {
        Some("numpad_multiply"@)
    } else if code == 0x56 {
        Some("numpad_subtract"@)
    } else if code == 0x57 {
        Some("numpad_add"@)
    } else if code == 0x58 {
        Some("numpad_enter"@)
    } else if code == 0x59 {
        Some("numpad1"@)
    } else if code == 0x5A {
        Some("numpad2"@)
    } else if code == 0x5B {
        Some("numpad3"@)
    } else if code == 0x5C {
        Some("numpad4"@)
    } else if code == 0x5D {
        Some("numpad5"@)
    } else if code == 0x5E {
        Some("numpad6"@)
    } else if code == 0x5F {
        Some("numpad7"@)
    } else if code == 0x60 {
        Some("numpad8"@)
    } else if code == 0x61 {
        Some("numpad9"@)
    } else if code == 0x62 {
        Some("numpad0"@)
    } else if code == 0x63 {
        Some("numpad_decimal"@)
    } else if code == 0xE0 {
        Some("control"@)
    } else if code == 0xE1 {
        Some("shift"@)
    } else if code == 0xE2 {
        Some("alt"@)
    } else if code == 0xE3 {
        Some("cmd"@)
    } else if code == 0xE4 {
        Some("control"@)
    } else if code == 0xE5 {
        Some("shift"@)
    } else if code == 0xE6 {
        Some("alt"@)
    } else if code == 0xE7 {
        Some("cmd"@)
    } else {
        None
    }
}

/// The name of the key with a code of the USB keyboard table: letters and digits are named
/// by themselves.
pub open spec fn key_name(code: int) -> Option<Seq<char>> {
    if 0x04 <= code <= 0x1D {
        Some(seq![(97 + (code - 0x04)) as char])
    } else if 0x1E <= code <= 0x26 {
        Some(seq![(49 + (code - 0x1E)) as char])
    } else if code == 0x27 {
        Some(seq!['0'])
    } else {
        special_key_name(code)
    }
}

/// The name of the key with a code, if it has one.
pub fn key_code_to_key_name(key_code: i64) -> (name: Option<&'static str>)
    ensures
        match name {
            Some(name) => key_name(key_code as int) == Some(name@),
            None => key_name(key_code as int) is None,
        },
{
    proof {
        reveal_strlit("a");
        reveal_strlit("b");
        reveal_strlit("c");
        reveal_strlit("d");
        reveal_strlit("e");
        reveal_strlit("f");
        reveal_strlit("g");
        reveal_strlit("h");
        reveal_strlit("i");
        reveal_strlit("j");
        reveal_strlit("k");
        reveal_strlit("l");
        reveal_strlit("m");
        reveal_strlit("n");
        reveal_strlit("o");
        reveal_strlit("p");
        reveal_strlit("q");
        reveal_strlit("r");
        reveal_strlit("s");
        reveal_strlit("t");
        reveal_strlit("u");
        reveal_strlit("v");
        reveal_strlit("w");
        reveal_strlit("x");
        reveal_strlit("y");
        reveal_strlit("z");
        reveal_strlit("1");
        reveal_strlit("2");
        reveal_strlit("3");
        reveal_strlit("4");
        reveal_strlit("5");
        reveal_strlit("6");
        reveal_strlit("7");
        reveal_strlit("8");
        reveal_strlit("9");
        reveal_strlit("0");
    }
    match key_code {
        0x04 => Some("a"),
        0x05 => Some("b"),
        0x06 => Some("c"),
        0x07 => Some("d"),
        0x08 => Some("e"),
        0x09 => Some("f"),
        0x0A => Some("g"),
        0x0B => Some("h"),
        0x0C => Some("i"),
        0x0D => Some("j"),
        0x0E => Some("k"),
        0x0F => Some("l"),
        0x10 => Some("m"),
        0x11 => Some("n"),
        0x12 => Some("o"),
        0x13 => Some("p"),
        0x14 => Some("q"),
        0x15 => Some("r"),
        0x16 => Some("s"),
        0x17 => Some("t"),
        0x18 => Some("u"),
        0x19 => Some("v"),
        0x1A => Some("w"),
        0x1B => Some("x"),
        0x1C => Some("y"),
        0x1D => Some("z"),
        0x1E => Some("1"),
        0x1F => Some("2"),
        0x20 => Some("3"),
        0x21 => Some("4"),
        0x22 => Some("5"),
        0x23 => Some("6"),
        0x24 => Some("7"),
        0x25 => Some("8"),
        0x26 => Some("9"),
        0x27 => Some("0"),
        0x28 => Some("enter"),
        0x29 => Some("escape"),
        0x2A => Some("backspace"),
        0x2B => Some("tab"),
        0x2C => Some("space"),
        0x2D => Some("-"),
        0x2E => Some("="),
        0x2F => Some("["),
        0x30 => Some("]"),
        0x31 => Some("\\"),
        0x33 => Some(";"),
        0x34 => Some("'"),
        0x35 => Some("`"),
        0x36 => Some(","),
        0x37 => Some("."),
        0x38 => Some("/"),
        0x39 => Some("capslock"),
        0x3A => Some("f1"),
        0x3B => Some("f2"),
        0x3C => Some("f3"),
        0x3D => Some("f4"),
        0x3E => Some("f5"),
        0x3F => Some("f6"),
        0x40 => Some("f7"),
        0x41 => Some("f8"),
        0x42 => Some("f9"),
        0x43 => Some("f10"),
        0x44 => Some("f11"),
        0x45 => Some("f12"),
        0x46 => Some("printscreen"),
        0x47 => Some("scrolllock"),
        0x48 => Some("pause"),
        0x49 => Some("insert"),
        0x4A => Some("home"),
        0x4B => Some("pageup"),
        0x4C => Some("delete"),
        0x4D => Some("end"),
        0x4E => Some("pagedown"),
        0x4F => Some("right"),
        0x50 => Some("left"),
        0x51 => Some("down"),
        0x52 => Some("up"),
        0x53 => Some("numlock"),
        0x54 => Some("numpad_divide"),
        0x55 => Some("numpad_multiply"),
        0x56 => Some("numpad_subtract"),
        0x57 => Some("numpad_add"),
        0x58 => Some("numpad_enter"),
        0x59 => Some("numpad1"),
        0x5A => Some("numpad2"),
        0x5B => Some("numpad3"),
        0x5C => Some("numpad4"),
        0x5D => Some("numpad5"),
        0x5E => Some("numpad6"),
        0x5F => Some("numpad7"),
        0x60 => Some("numpad8"),
        0x61 => Some("numpad9"),
        0x62 => Some("numpad0"),
        0x63 => Some("numpad_decimal"),
        0xE0 => Some("control"),
        0xE1 => Some("shift"),
        0xE2 => Some("alt"),
        0xE3 => Some("cmd"),
        0xE4 => Some("control"),
        0xE5 => Some("shift"),
        0xE6 => Some("alt"),
        0xE7 => Some("cmd"),
        _ => None,
    }
}

/// Whether a key press names the key with a code, if it tells no character.
pub open spec fn is_named_key(code: int) -> bool {
    ||| 0x04 <= code <= 0x31
    ||| 0x33 <= code <= 0x38
    ||| 0x3A <= code <= 0x45
    ||| 0x49 <= code <= 0x52
    ||| 0xE0 <= code <= 0xE7
}

/// What the key with a code is called in a key press: by its name, or by its number.
pub open spec fn key_string(code: int) -> Seq<char> {
    if is_named_key(code) {
        key_name(code)->0
    } else {
        "unknown-"@ + text::signed_decimal(code)
    }
}

/// What the key with a code is called in a key press.
pub fn key_code_to_string(key_code: i64) -> (name: String)
    ensures
        name@ == key_string(key_code as int),
{
    let named = 0x04 <= key_code && key_code <= 0x31 || 0x33 <= key_code && key_code <= 0x38 || 0x3A
        <= key_code && key_code <= 0x45 || 0x49 <= key_code && key_code <= 0x52 || 0xE0 <= key_code
        && key_code <= 0xE7;
    if named {
        match key_code_to_key_name(key_code) {
            Some(name) => {
                return name.to_owned();
            },
            None => {},
        }
    }
    text::concat("unknown-", text::format_signed(key_code).as_str())
}

/// The keys of the table are those with the codes 0x04 to 0x63, but for 0x32, and the eight
/// modifier keys. Each has a name of its own, but for the modifier keys: the left one and the
/// right one share theirs.
pub proof fn law_keys_have_their_own_names(a: int, b: int)
    requires
        a < b,
    ensures
        key_name(a) is Some <==> 0x04 <= a <= 0x63 && a != 0x32 || 0xE0 <= a <= 0xE7,
        key_name(a) is Some && key_name(b) is Some ==> (key_name(a) == key_name(b) <==> 0xE0 <= a
            && b == a + 4),
{
    reveal_strlit("enter");
    reveal_strlit("escape");
    reveal_strlit("backspace");
    reveal_strlit("tab");
    reveal_strlit("space");
    reveal_strlit("-");
    reveal_strlit("=");
    reveal_strlit("[");
    reveal_strlit("]");
    reveal_strlit("\\");
    reveal_strlit(";");
    reveal_strlit("'");
    reveal_strlit("`");
    reveal_strlit(",");
    reveal_strlit(".");
    reveal_strlit("/");
    reveal_strlit("capslock");
    reveal_strlit("f1");
    reveal_strlit("f2");
    reveal_strlit("f3");
    reveal_strlit("f4");
    reveal_strlit("f5");
    reveal_strlit("f6");
    reveal_strlit("f7");
    reveal_strlit("f8");
    reveal_strlit("f9");
    reveal_strlit("f10");
    reveal_strlit("f11");
    reveal_strlit("f12");
    reveal_strlit("printscreen");
    reveal_strlit("scrolllock");
    reveal_strlit("pause");
    reveal_strlit("insert");
    reveal_strlit("home");
    reveal_strlit("pageup");
    reveal_strlit("delete");
    reveal_strlit("end");
    reveal_strlit("pagedown");
    reveal_strlit("right");
    reveal_strlit("left");
    reveal_strlit("down");
    reveal_strlit("up");
    reveal_strlit("numlock");
    reveal_strlit("numpad_divide");
    reveal_strlit("numpad_multiply");
    reveal_strlit("numpad_subtract");
    reveal_strlit("numpad_add");
    reveal_strlit("numpad_enter");
    reveal_strlit("numpad1");
    reveal_strlit("numpad2");
    reveal_strlit("numpad3");
    reveal_strlit("numpad4");
    reveal_strlit("numpad5");
    reveal_strlit("numpad6");
    reveal_strlit("numpad7");
    reveal_strlit("numpad8");
    reveal_strlit("numpad9");
    reveal_strlit("numpad0");
    reveal_strlit("numpad_decimal");
    reveal_strlit("control");
    reveal_strlit("shift");
    reveal_strlit("alt");
    reveal_strlit("cmd");
    if key_name(a) is Some && key_name(b) is Some {
        let (x, y) = (key_name(a)->0, key_name(b)->0);
        if x == y {
            assert(x.len() == y.len());
            assert(x[0] == y[0]);
            assert(x[1] == y[1]);
            assert(x[2] == y[2]);
            assert(x[6] == y[6]);
            assert(x[7] == y[7]);
            assert(x[8] == y[8]);
        }
    }
}

/// The keys that are held down with another one.
#[derive(Clone, Copy, Debug, PartialEq, Eq, Structural)]
pub struct Modifiers {
    pub control: bool,
    pub alt: bool,
    pub shift: bool,
    /// The command key.
    pub platform: bool,
    pub function: bool,
}

/// The flags with which the system tells the keys that are held down.
#[derive(Clone, Copy, Debug, PartialEq, Eq, Structural)]
pub struct UIKeyModifierFlags(pub i64);

/// The keys that flags tell.
pub open spec fn modifiers_of(flags: i64) -> Modifiers {
    Modifiers {
        control: flags & 0x4_0000 != 0,
        alt: flags & 0x8_0000 != 0,
        shift: flags & 0x2_0000 != 0,
        platform: flags & 0x10_0000 != 0,
        function: false,
    }
}

impl UIKeyModifierFlags {
    /// Caps lock.
    pub const ALPHA_SHIFT: i64 = 0x1_0000;

    pub const SHIFT: i64 = 0x2_0000;

    pub const CONTROL: i64 = 0x4_0000;

    /// The option key.
    pub const ALTERNATE: i64 = 0x8_0000;

    pub const COMMAND: i64 = 0x10_0000;

    pub const NUMERIC_PAD: i64 = 0x20_0000;

    /// Whether one of the flags is set.
    pub fn contains(&self, flag: i64) -> (yes: bool)
        ensures
            yes == (self.0 & flag != 0),
    {
        (self.0 & flag) != 0
    }

    /// The keys that the flags tell.
    pub fn to_modifiers(&self) -> (modifiers: Modifiers)
        ensures
            modifiers == modifiers_of(self.0),
    {
        Modifiers {
            control: self.contains(Self::CONTROL),
            alt: self.contains(Self::ALTERNATE),
            shift: self.contains(Self::SHIFT),
            platform: self.contains(Self::COMMAND),
            function: false,
        }
    }
}

/// Each key has a flag of its own: setting the flag of one tells that key and changes none
/// of the others.
pub proof fn law_flags_are_independent(flags: i64)
    ensures
        modifiers_of(flags | 0x2_0000) == (Modifiers { shift: true, ..modifiers_of(flags) }),
        modifiers_of(flags | 0x4_0000) == (Modifiers { control: true, ..modifiers_of(flags) }),
        modifiers_of(flags | 0x8_0000) == (Modifiers { alt: true, ..modifiers_of(flags) }),
        modifiers_of(flags | 0x10_0000) == (Modifiers { platform: true, ..modifiers_of(flags) }),
{
    assert((flags | 0x2_0000) & 0x2_0000 != 0 && (flags | 0x2_0000) & 0x4_0000 == flags & 0x4_0000
        && (flags | 0x2_0000) & 0x8_0000 == flags & 0x8_0000 && (flags | 0x2_0000) & 0x10_0000
        == flags & 0x10_0000) by (bit_vector);
    assert((flags | 0x4_0000) & 0x4_0000 != 0 && (flags | 0x4_0000) & 0x2_0000 == flags & 0x2_0000
        && (flags | 0x4_0000) & 0x8_0000 == flags & 0x8_0000 && (flags | 0x4_0000) & 0x10_0000
        == flags & 0x10_0000) by (bit_vector);
    assert((flags | 0x8_0000) & 0x8_0000 != 0 && (flags | 0x8_0000) & 0x2_0000 == flags & 0x2_0000
        && (flags | 0x8_0000) & 0x4_0000 == flags & 0x4_0000 && (flags | 0x8_0000) & 0x10_0000
        == flags & 0x10_0000) by (bit_vector);
    assert((flags | 0x10_0000) & 0x10_0000 != 0 && (flags | 0x10_0000) & 0x2_0000 == flags
        & 0x2_0000 && (flags | 0x10_0000) & 0x4_0000 == flags & 0x4_0000 && (flags | 0x10_0000)
        & 0x8_0000 == flags & 0x8_0000) by (bit_vector);
}

/// How far a touch is.
#[derive(Clone, Copy, Debug, PartialEq, Eq, Structural)]
pub enum UITouchPhase {
    Began,
    Moved,
    Stationary,
    Ended,
    Cancelled,
}

/// How far a key press is.
#[derive(Clone, Copy, Debug, PartialEq, Eq, Structural)]
pub enum UIPressPhase {
    Began,
    Changed,
    Stationary,
    Ended,
    Cancelled,
}

/// The phase with a number.
pub open spec fn touch_phase_of(number: i64) -> Option<UITouchPhase> {
    if number == 0 {
        Some(UITouchPhase::Began)
    } else if number == 1 {
        Some(UITouchPhase::Moved)
    } else if number == 2 {
        Some(UITouchPhase::Stationary)
    } else if number == 3 {
        Some(UITouchPhase::Ended)
    } else if number == 4 {
        Some(UITouchPhase::Cancelled)
    } else {
        None
    }
}

impl UITouchPhase {
    /// The phase with a number.
    pub fn from_number(number: i64) -> (phase: Option<Self>)
        ensures
            phase == touch_phase_of(number),
    {
        match number {
            0 => Some(UITouchPhase::Began),
            1 => Some(UITouchPhase::Moved),
            2 => Some(UITouchPhase::Stationary),
            3 => Some(UITouchPhase::Ended),
            4 => Some(UITouchPhase::Cancelled),
            _ => None,
        }
    }
}

/// How far a scroll is.
#[derive(Clone, Copy, Debug, PartialEq, Eq, Structural)]
pub enum TouchPhase {
    Started,
    Moved,
    Ended,
}

/// A key, with the ones that are held down and the character that it types.
#[derive(Clone, Debug, PartialEq, Eq)]
pub struct Keystroke {
    pub key: String,
    pub modifiers: Modifiers,
    pub key_char: Option<String>,
}

/// A key, with the ones that are held down and the character that it types.
pub struct KeystrokeView {
    pub key: Seq<char>,
    pub modifiers: Modifiers,
    pub key_char: Option<Seq<char>>,
}

impl View for Keystroke {
    type V = KeystrokeView;

    open spec fn view(&self) -> KeystrokeView {
        KeystrokeView {
            key: self.key@,
            modifiers: self.modifiers,
            key_char: text::optional(self.key_char),
        }
    }
}

/// An input, with places of some sort.
#[derive(Clone, Debug, PartialEq, Eq)]
pub enum PlatformInput<P> {
    /// The left button goes down.
    MouseDown { position: P, click_count: usize, modifiers: Modifiers },
    /// The pointer moves with the left button down.
    MouseMove { position: P, modifiers: Modifiers },
    /// The left button goes up.
    MouseUp { position: P, click_count: usize, modifiers: Modifiers },
    ScrollWheel { position: P, delta: P, modifiers: Modifiers, touch_phase: TouchPhase },
    KeyDown { keystroke: Keystroke, is_held: bool },
    KeyUp { keystroke: Keystroke },
    ModifiersChanged { modifiers: Modifiers, capslock: bool },
}

/// What a touch comes to: a single touch stands for the left button of a mouse.
pub open spec fn mouse_input<P>(
    phase: i64,
    position: P,
    tap_count: usize,
    modifiers: Modifiers,
) -> Option<PlatformInput<P>> {
    match touch_phase_of(phase) {
        Some(UITouchPhase::Began) => Some(
            PlatformInput::MouseDown { position, click_count: tap_count, modifiers },
        ),
        Some(UITouchPhase::Moved) => Some(PlatformInput::MouseMove { position, modifiers }),
        Some(UITouchPhase::Ended) => Some(
            PlatformInput::MouseUp { position, click_count: tap_count, modifiers },
        ),
        Some(UITouchPhase::Cancelled) => Some(
            PlatformInput::MouseUp { position, click_count: tap_count, modifiers },
        ),
        Some(UITouchPhase::Stationary) => None,
        None => None,
    }
}

/// What a touch comes to.
pub fn translate_touch_to_mouse<P>(
    phase: i64,
    position: P,
    tap_count: usize,
    modifiers: Modifiers,
) -> (input: Option<PlatformInput<P>>)
    ensures
        input == mouse_input(phase, position, tap_count, modifiers),
{
    match UITouchPhase::from_number(phase) {
        Some(phase) => match phase {
            UITouchPhase::Began => Some(
                PlatformInput::MouseDown { position, click_count: tap_count, modifiers },
            ),
            UITouchPhase::Moved => Some(PlatformInput::MouseMove { position, modifiers }),
            UITouchPhase::Ended => Some(
                PlatformInput::MouseUp { position, click_count: tap_count, modifiers },
            ),
            UITouchPhase::Cancelled => Some(
                PlatformInput::MouseUp { position, click_count: tap_count, modifiers },
            ),
            UITouchPhase::Stationary => None,
        },
        None => None,
    }
}

/// How far a scroll is whose gesture is in a state.
pub open spec fn scroll_phase_of(state: i64) -> Option<TouchPhase> {
    if state == 1 {
        Some(TouchPhase::Started)
    } else if state == 2 {
        Some(TouchPhase::Moved)
    } else if state == 3 || state == 4 {
        Some(TouchPhase::Ended)
    } else {
        None
    }
}

/// What a pan comes to.
pub open spec fn scroll_input<P>(
    state: i64,
    position: P,
    delta: P,
    modifiers: Modifiers,
) -> Option<PlatformInput<P>> {
    match scroll_phase_of(state) {
        Some(touch_phase) => Some(
            PlatformInput::ScrollWheel { position, delta, modifiers, touch_phase },
        ),
        None => None,
    }
}

/// What a pan comes to: a scroll by the way that it went since it was last asked.
pub fn translate_pan_to_scroll<P>(
    state: i64,
    position: P,
    delta: P,
    modifiers: Modifiers,
) -> (input: Option<PlatformInput<P>>)
    ensures
        input == scroll_input(state, position, delta, modifiers),
{
    let touch_phase = match state {
        1 => TouchPhase::Started,
        2 => TouchPhase::Moved,
        3 => TouchPhase::Ended,
        4 => TouchPhase::Ended,
        _ => {
            return None;
        },
    };
    Some(PlatformInput::ScrollWheel { position, delta, modifiers, touch_phase })
}

/// What the system tells of a pressed key.
#[derive(Clone, Debug, PartialEq, Eq)]
pub struct PressedKey {
    pub key_code: i64,
    /// The characters that it types, if they can be read.
    pub characters: Option<String>,
    pub modifier_flags: i64,
}

/// The keystroke of a pressed key: it is called by its characters, up to the first NUL, or by its
/// code if it has none.
pub open spec fn keystroke_of(key: PressedKey) -> KeystrokeView {
    let characters = match text::optional(key.characters) {
        Some(characters) => if characters.len() > 0 {
            Some(text::before_nul(characters))
        } else {
            None
        },
        None => None,
    };
    KeystrokeView {
        key: match characters {
            Some(characters) => characters,
            None => key_string(key.key_code as int),
        },
        modifiers: modifiers_of(key.modifier_flags),
        key_char: characters,
    }
}

/// What a key press comes to, if there is a key with it.
pub fn translate_key_press<P>(press: Option<PressedKey>, is_key_down: bool, is_repeat: bool) -> (input:
    Option<PlatformInput<P>>)
    ensures
        match press {
            None => input is None,
            Some(key) => input is Some && is_key_input(
                input->0,
                (keystroke_of(key), is_repeat),
                is_key_down,
            ),
        },
{
    let key = match press {
        Some(key) => key,
        None => {
            return None;
        },
    };
    let modifiers = UIKeyModifierFlags(key.modifier_flags).to_modifiers();
    let key_char = match &key.characters {
        Some(characters) => if characters.as_str().is_empty() {
            None
        } else {
            Some(text::cut_at_nul(characters.as_str()))
        },
        None => None,
    };
    let name = match &key_char {
        Some(characters) => characters.clone(),
        None => key_code_to_string(key.key_code),
    };
    let keystroke = Keystroke { key: name, modifiers, key_char };
    if is_key_down {
        Some(PlatformInput::KeyDown { keystroke, is_held: is_repeat })
    } else {
        Some(PlatformInput::KeyUp { keystroke })
    }
}

/// What a change of the keys that are held down comes to.
pub open spec fn modifiers_input<P>(modifier_flags: i64) -> PlatformInput<P> {
    PlatformInput::<P>::ModifiersChanged {
        modifiers: modifiers_of(modifier_flags),
        capslock: modifier_flags & 0x1_0000 != 0,
    }
}

/// What a change of the keys that are held down comes to.
pub fn translate_modifiers_changed<P>(modifier_flags: i64) -> (input: PlatformInput<P>)
    ensures
        input == modifiers_input::<P>(modifier_flags),
{
    let flags = UIKeyModifierFlags(modifier_flags);
    PlatformInput::ModifiersChanged {
        modifiers: flags.to_modifiers(),
        capslock: flags.contains(UIKeyModifierFlags::ALPHA_SHIFT),
    }
}

/// Whether a text holds nothing but characters of ASCII.
pub open spec fn is_ascii_text(content: Seq<char>) -> bool {
    forall|i: int| 0 <= i < content.len() ==> (#[trigger] content[i]) < '\u{80}'
}

/// What `str::to_lowercase` makes of a text.
pub uninterp spec fn lowercased(content: Seq<char>) -> Seq<char>;

/// `str::to_lowercase` gives a text in lower case, by the rules of Unicode; on the letters of
/// ASCII alone these are plain.
#[verifier::external_body]
fn to_lowercase(content: &str) -> (lowered: String)
    ensures
        lowered@ == lowercased(content@),
        is_ascii_text(content@) ==> lowered@ == text::ascii_lowered(content@),
{
    content.to_lowercase()
}

/// The keystroke of characters: the key is called by the name of its code if it has one,
/// else by its characters in lower case; there is none without either.
pub open spec fn keystroke_from(
    characters: Seq<char>,
    lowered: Seq<char>,
    key_code: Option<i64>,
    modifiers: Modifiers,
) -> Option<KeystrokeView> {
    let name = match key_code {
        Some(code) => key_name(code as int),
        None => None,
    };
    let key_char = if characters.len() == 0 {
        None
    } else {
        Some(characters)
    };
    match name {
        Some(name) => Some(KeystrokeView { key: name, modifiers, key_char }),
        None => if characters.len() == 0 {
            None
        } else {
            Some(KeystrokeView { key: lowered, modifiers, key_char })
        },
    }
}

/// The contents of a keystroke, if there is one.
pub open spec fn keystroke_view(keystroke: Option<Keystroke>) -> Option<KeystrokeView> {
    match keystroke {
        Some(keystroke) => Some(keystroke@),
        None => None,
    }
}

/// The keystroke of characters, given them in lower case.
pub fn keystroke_for(
    characters: &str,
    lowered: String,
    key_code: Option<i64>,
    modifiers: Modifiers,
) -> (keystroke: Option<Keystroke>)
    ensures
        keystroke_view(keystroke) == keystroke_from(characters@, lowered@, key_code, modifiers),
{
    let name = match key_code {
        Some(code) => key_code_to_key_name(code),
        None => None,
    };
    let key_char = if characters.is_empty() {
        None
    } else {
        Some(characters.to_owned())
    };
    match name {
        Some(name) => Some(Keystroke { key: name.to_owned(), modifiers, key_char }),
        None => if characters.is_empty() {
            None
        } else {
            Some(Keystroke { key: lowered, modifiers, key_char })
        },
    }
}

/// The keystroke of characters.
pub fn characters_to_keystroke(characters: &str, key_code: Option<i64>, modifiers: Modifiers) -> (keystroke:
    Option<Keystroke>)
    ensures
        keystroke_view(keystroke) == keystroke_from(
            characters@,
            lowercased(characters@),
            key_code,
            modifiers,
        ),
{
    keystroke_for(characters, to_lowercase(characters), key_code, modifiers)
}

/// A touch as the system tells it.
#[derive(Clone, Copy, Debug, PartialEq, Eq, Structural)]
pub struct Touch<P> {
    pub phase: i64,
    pub position: P,
    pub tap_count: usize,
}

/// What touches come to, in their order.
pub open spec fn mouse_inputs<P>(touches: Seq<Touch<P>>, modifiers: Modifiers) -> Seq<
    PlatformInput<P>,
>
    decreases touches.len(),
{
    if touches.len() == 0 {
        Seq::empty()
    } else {
        let before = mouse_inputs(touches.drop_last(), modifiers);
        let touch = touches.last();
        match mouse_input(touch.phase, touch.position, touch.tap_count, modifiers) {
            Some(input) => before.push(input),
            None => before,
        }
    }
}

/// What touches come to, in their order.
pub fn handle_touches<P: Copy>(touches: &[Touch<P>], modifiers: Modifiers) -> (inputs: Vec<
    PlatformInput<P>,
>)
    ensures
        inputs@ == mouse_inputs(touches@, modifiers),
{
    let mut inputs: Vec<PlatformInput<P>> = Vec::new();
    let mut i: usize = 0;
    assert(touches@.take(0) =~= Seq::empty());
    while i < touches.len()
        invariant
            i <= touches@.len(),
            inputs@ == mouse_inputs(touches@.take(i as int), modifiers),
        decreases touches@.len() - i,
    {
        proof {
            let taken = touches@.take(i + 1);
            assert(taken.drop_last() =~= touches@.take(i as int));
            assert(taken.last() == touches@[i as int]);
        }
        let touch = &touches[i];
        match translate_touch_to_mouse(touch.phase, touch.position, touch.tap_count, modifiers) {
            Some(input) => {
                inputs.push(input);
            },
            None => {},
        }
        i = i + 1;
    }
    assert(touches@.take(touches@.len() as int) =~= touches@);
    inputs
}

/// Whether a key press goes down or comes up in a phase, if it does either.
pub open spec fn press_direction(phase: UIPressPhase) -> Option<bool> {
    match phase {
        UIPressPhase::Began => Some(true),
        UIPressPhase::Changed => Some(true),
        UIPressPhase::Stationary => None,
        UIPressPhase::Ended => Some(false),
        UIPressPhase::Cancelled => Some(false),
    }
}

/// Whether a key press goes down or comes up in a phase: a change of its pressure counts as
/// going down.
pub fn press_goes_down(phase: UIPressPhase) -> (down: Option<bool>)
    ensures
        down == press_direction(phase),
{
    match phase {
        UIPressPhase::Began => Some(true),
        UIPressPhase::Changed => Some(true),
        UIPressPhase::Stationary => None,
        UIPressPhase::Ended => Some(false),
        UIPressPhase::Cancelled => Some(false),
    }
}

/// A key press as the system tells it.
#[derive(Clone, Debug, PartialEq, Eq)]
pub struct Press {
    /// The key, if there is one with it.
    pub key: Option<PressedKey>,
    pub is_repeating: bool,
}

/// The presses that have a key with them.
pub open spec fn presses_with_key(presses: Seq<Press>) -> Seq<(KeystrokeView, bool)>
    decreases presses.len(),
{
    if presses.len() == 0 {
        Seq::empty()
    } else {
        let before = presses_with_key(presses.drop_last());
        match presses.last().key {
            Some(key) => before.push((keystroke_of(key), presses.last().is_repeating)),
            None => before,
        }
    }
}

/// Whether an input is that of a keystroke.
pub open spec fn is_key_input<P>(
    input: PlatformInput<P>,
    told: (KeystrokeView, bool),
    is_key_down: bool,
) -> bool {
    if is_key_down {
        input matches PlatformInput::KeyDown { keystroke, is_held } && keystroke@ == told.0
            && is_held == told.1
    } else {
        input matches PlatformInput::KeyUp { keystroke } && keystroke@ == told.0
    }
}

/// What key presses come to, in their order.
pub fn handle_presses<P>(presses: &[Press], is_key_down: bool) -> (inputs: Vec<PlatformInput<P>>)
    ensures
        inputs@.len() == presses_with_key(presses@).len(),
        forall|i: int|
            0 <= i < inputs@.len() ==> is_key_input(
                #[trigger] inputs@[i],
                presses_with_key(presses@)[i],
                is_key_down,
            ),
{
    let mut inputs: Vec<PlatformInput<P>> = Vec::new();
    let mut i: usize = 0;
    while i < presses.len()
        invariant
            i <= presses@.len(),
            inputs@.len() == presses_with_key(presses@.take(i as int)).len(),
            forall|k: int|
                0 <= k < inputs@.len() ==> is_key_input(
                    #[trigger] inputs@[k],
                    presses_with_key(presses@.take(i as int))[k],
                    is_key_down,
                ),
        decreases presses@.len() - i,
    {
        proof {
            let taken = presses@.take(i + 1);
            assert(taken.drop_last() =~= presses@.take(i as int));
            assert(taken.last() == presses@[i as int]);
        }
        let key = match &presses[i].key {
            Some(key) => Some(
                PressedKey {
                    key_code: key.key_code,
                    characters: text::copy_optional(&key.characters),
                    modifier_flags: key.modifier_flags,
                },
            ),
            None => None,
        };
        match translate_key_press(key, is_key_down, presses[i].is_repeating) {
            Some(input) => {
                inputs.push(input);
            },
            None => {},
        }
        i = i + 1;
    }
    assert(presses@.take(presses@.len() as int) =~= presses@);
    inputs
}

/// The button goes down where a touch begins and up where it ends; a touch that is cancelled
/// ends like any other, and one that does not move tells nothing.
pub proof fn law_touch_presses_and_releases<P>(
    position: P,
    end: P,
    tap_count: usize,
    modifiers: Modifiers,
)
    ensures
        mouse_input(0, position, tap_count, modifiers) matches Some(
            PlatformInput::MouseDown { .. },
        ),
        mouse_input(3, end, tap_count, modifiers) matches Some(PlatformInput::MouseUp { .. }),
        mouse_input(4, end, tap_count, modifiers) == mouse_input(3, end, tap_count, modifiers),
        mouse_input(2, position, tap_count, modifiers) is None,
{
}

/// A touch is told with the place, the count and the keys that it came with. The button goes down
/// exactly where it begins, the pointer moves exactly where it moves, and whatever else is told of it
/// brings the button up.
pub proof fn law_touches_are_told_as_they_came<P>(
    phase: i64,
    position: P,
    tap_count: usize,
    modifiers: Modifiers,
)
    ensures
        ({
            let input = mouse_input(phase, position, tap_count, modifiers);
            &&& input is Some <==> 0 <= phase <= 4 && phase != 2
            &&& phase == 0 <==> input == Some(
                PlatformInput::MouseDown { position, click_count: tap_count, modifiers },
            )
            &&& phase == 1 <==> input == Some(PlatformInput::MouseMove { position, modifiers })
            &&& phase == 3 || phase == 4 <==> input == Some(
                PlatformInput::MouseUp { position, click_count: tap_count, modifiers },
            )
        }),
{
}

/// Touches that come one after the other are told one after the other.
pub proof fn law_touches_are_told_in_order<P>(
    a: Seq<Touch<P>>,
    b: Seq<Touch<P>>,
    modifiers: Modifiers,
)
    ensures
        mouse_inputs(a + b, modifiers) == mouse_inputs(a, modifiers) + mouse_inputs(b, modifiers),
    decreases b.len(),
{
    if b.len() == 0 {
        assert(a + b =~= a);
        assert(mouse_inputs(a, modifiers) + mouse_inputs(b, modifiers) =~= mouse_inputs(
            a,
            modifiers,
        ));
    } else {
        law_touches_are_told_in_order(a, b.drop_last(), modifiers);
        assert((a + b).drop_last() =~= a + b.drop_last());
        assert((a + b).last() == b.last());
        assert(mouse_inputs(a + b, modifiers) =~= mouse_inputs(a, modifiers) + mouse_inputs(
            b,
            modifiers,
        ));
    }
}

/// Key presses that come one after the other are told one after the other; a press without a key is
/// left out, and one with a key is told as its keystroke.
pub proof fn law_presses_are_told_in_order(a: Seq<Press>, b: Seq<Press>, press: Press)
    ensures
        presses_with_key(a + b) == presses_with_key(a) + presses_with_key(b),
        press.key is None ==> presses_with_key(a.push(press)) == presses_with_key(a),
        press.key is Some ==> presses_with_key(a.push(press)).len() == presses_with_key(a).len() + 1
            && presses_with_key(a.push(press)).last() == (
            keystroke_of(press.key->0),
            press.is_repeating,
        ),
    decreases b.len(),
{
    assert(a.push(press).drop_last() =~= a);
    if b.len() == 0 {
        assert(a + b =~= a);
        assert(presses_with_key(a) + presses_with_key(b) =~= presses_with_key(a));
    } else {
        law_presses_are_told_in_order(a, b.drop_last(), press);
        assert((a + b).drop_last() =~= a + b.drop_last());
        assert((a + b).last() == b.last());
        assert(presses_with_key(a + b) =~= presses_with_key(a) + presses_with_key(b));
    }
}

/// A pan is told as a scroll by the way that it went, from the state in which it begins to one of
/// those in which it is over; in any other state nothing is told.
pub proof fn law_pans_are_scrolls<P>(state: i64, position: P, delta: P, modifiers: Modifiers)
    ensures
        ({
            let input = scroll_input(state, position, delta, modifiers);
            &&& input is Some <==> 1 <= state <= 4
            &&& input matches Some(
                PlatformInput::ScrollWheel {
                    position: place,
                    delta: way,
                    modifiers: held,
                    touch_phase,
                },
            ) ==> {
                &&& place == position
                &&& way == delta
                &&& held == modifiers
                &&& touch_phase is Started <==> state == 1
                &&& touch_phase is Ended <==> state >= 3
            }
            &&& input is Some ==> input->0 is ScrollWheel
        }),
{
}

/// A key press goes down and comes up once: it comes up exactly in the phases in which it is over,
/// and a resting one does neither.
pub proof fn law_presses_come_up_when_they_are_over(phase: UIPressPhase)
    ensures
        press_direction(phase) == Some(false) <==> phase is Ended || phase is Cancelled,
        press_direction(phase) is None <==> phase is Stationary,
        press_direction(phase) == Some(true) <==> phase is Began || phase is Changed,
{
}

/// The keystroke of a key that types something is called by what it types, and tells it; one that
/// types nothing is called by its code. The keys held down are those of its flags, whatever it types.
pub proof fn law_keystrokes_are_called_by_what_they_type(key: PressedKey)
    ensures
        ({
            let stroke = keystroke_of(key);
            let typed = text::optional(key.characters);
            let types = typed is Some && typed->0.len() > 0;
            &&& stroke.key_char is Some <==> types
            &&& types ==> stroke.key_char == Some(stroke.key)
            &&& types && text::is_free_of(typed->0, '\0') ==> stroke.key == typed->0
            &&& !types ==> stroke.key == key_string(key.key_code as int)
            &&& stroke.modifiers == modifiers_of(key.modifier_flags)
        }),
{
    let typed = text::optional(key.characters);
    if typed is Some && text::is_free_of(typed->0, '\0') {
        text::lemma_before_nul_of_free(typed->0);
    }
}

/// A keystroke is told going down or coming up, never both, with what was told of its key; only one
/// that goes down can be held.
pub proof fn law_keys_go_down_or_come_up<P>(
    input: PlatformInput<P>,
    told: (KeystrokeView, bool),
    is_key_down: bool,
)
    requires
        is_key_input(input, told, is_key_down),
    ensures
        input is KeyDown <==> is_key_down,
        input is KeyUp <==> !is_key_down,
        input matches PlatformInput::KeyDown { keystroke, is_held } ==> keystroke@ == told.0
            && is_held == told.1,
        input matches PlatformInput::KeyUp { keystroke } ==> keystroke@ == told.0,
{
}

/// Caps lock is told by its own flag, apart from the keys that are held down.
pub proof fn law_caps_lock_is_told_apart<P>(flags: i64)
    ensures
        modifiers_input::<P>(flags | 0x1_0000) == (PlatformInput::<P>::ModifiersChanged {
            modifiers: modifiers_of(flags),
            capslock: true,
        }),
        modifiers_input::<P>(flags & !0x1_0000) == (PlatformInput::<P>::ModifiersChanged {
            modifiers: modifiers_of(flags),
            capslock: false,
        }),
        modifiers_of(0) == (Modifiers {
            control: false,
            alt: false,
            shift: false,
            platform: false,
            function: false,
        }),
{
    assert((flags | 0x1_0000) & 0x1_0000 != 0 && (flags | 0x1_0000) & 0x2_0000 == flags & 0x2_0000
        && (flags | 0x1_0000) & 0x4_0000 == flags & 0x4_0000 && (flags | 0x1_0000) & 0x8_0000
        == flags & 0x8_0000 && (flags | 0x1_0000) & 0x10_0000 == flags & 0x10_0000)
        by (bit_vector);
    assert((flags & !0x1_0000) & 0x1_0000 == 0 && (flags & !0x1_0000) & 0x2_0000 == flags & 0x2_0000
        && (flags & !0x1_0000) & 0x4_0000 == flags & 0x4_0000 && (flags & !0x1_0000) & 0x8_0000
        == flags & 0x8_0000 && (flags & !0x1_0000) & 0x10_0000 == flags & 0x10_0000)
        by (bit_vector);
    assert(0i64 & 0x2_0000 == 0 && 0i64 & 0x4_0000 == 0 && 0i64 & 0x8_0000 == 0 && 0i64 & 0x10_0000
        == 0) by (bit_vector);
}

/// Characters are a keystroke exactly if there are any or the code has a name; the name goes before
/// the characters, and what is typed is told as it is.
pub proof fn law_characters_make_a_keystroke(
    characters: Seq<char>,
    lowered: Seq<char>,
    key_code: Option<i64>,
    modifiers: Modifiers,
)
    ensures
        ({
            let stroke = keystroke_from(characters, lowered, key_code, modifiers);
            let named = key_code is Some && key_name(key_code->0 as int) is Some;
            &&& stroke is Some <==> named || characters.len() > 0
            &&& stroke is Some ==> {
                &&& stroke->0.modifiers == modifiers
                &&& stroke->0.key_char is Some <==> characters.len() > 0
                &&& characters.len() > 0 ==> stroke->0.key_char == Some(characters)
                &&& named ==> Some(stroke->0.key) == key_name(key_code->0 as int)
                &&& !named ==> stroke->0.key == lowered
            }
        }),
{
}

/// Letters and digits come in their order, from the code 0x04 on, and are named by themselves; the
/// digit 0 comes behind the 9.
pub proof fn law_letters_and_digits_are_named_by_themselves(i: int)
    ensures
        0 <= i < 26 ==> key_name(0x04 + i) is Some && key_name(0x04 + i)->0.len() == 1 && key_name(
            0x04 + i,
        )->0[0] as int == 'a' as int + i,
        1 <= i <= 9 ==> key_name(0x1D + i) == Some(text::decimal(i as nat)),
        key_name(0x27) == Some(text::decimal(0)),
{
    if 1 <= i <= 9 {
        assert(key_name(0x1D + i)->0 =~= text::decimal(i as nat));
    }
    assert(key_name(0x27)->0 =~= text::decimal(0));
}

/// The function keys come in their order and are named by their numbers, and so are the digits of the
/// number pad.
pub proof fn law_numbered_keys_are_named_by_their_numbers(i: int)
    ensures
        1 <= i <= 12 ==> key_name(0x39 + i) == Some("f"@ + text::decimal(i as nat)),
        1 <= i <= 9 ==> key_name(0x58 + i) == Some("numpad"@ + text::decimal(i as nat)),
        key_name(0x62) == Some("numpad"@ + text::decimal(0)),
{
    reveal_strlit("f");
    reveal_strlit("f1");
    reveal_strlit("f2");
    reveal_strlit("f3");
    reveal_strlit("f4");
    reveal_strlit("f5");
    reveal_strlit("f6");
    reveal_strlit("f7");
    reveal_strlit("f8");
    reveal_strlit("f9");
    reveal_strlit("f10");
    reveal_strlit("f11");
    reveal_strlit("f12");
    reveal_strlit("numpad");
    reveal_strlit("numpad0");
    reveal_strlit("numpad1");
    reveal_strlit("numpad2");
    reveal_strlit("numpad3");
    reveal_strlit("numpad4");
    reveal_strlit("numpad5");
    reveal_strlit("numpad6");
    reveal_strlit("numpad7");
    reveal_strlit("numpad8");
    reveal_strlit("numpad9");
    reveal_with_fuel(text::decimal, 3);
    if 1 <= i <= 12 {
        assert(key_name(0x39 + i)->0 =~= "f"@ + text::decimal(i as nat));
    }
    if 1 <= i <= 9 {
        assert(key_name(0x58 + i)->0 =~= "numpad"@ + text::decimal(i as nat));
    }
    assert(key_name(0x62)->0 =~= "numpad"@ + text::decimal(0));
}

/// The keys that edit a line do in it what they are there for: a key press without characters is
/// taken by the input under the name of its key.
pub proof fn law_editing_keys_edit(input: InputView, key: PressedKey)
    requires
        key.characters is None,
    ensures
        ({
            let after = text_input::after_key(input, keystroke_of(key).key);
            &&& key.key_code == 0x2A ==> after == text_input::erased_backward(input)
            &&& key.key_code == 0x4C ==> after == text_input::erased_forward(input)
            &&& key.key_code == 0x50 ==> after == text_input::moved_left(input)
            &&& key.key_code == 0x4F ==> after == text_input::moved_right(input)
            &&& key.key_code == 0x4A ==> text_input::cursor(after) == 0
            &&& key.key_code == 0x4D ==> text_input::cursor(after) == text_index::utf8_len(
                input.content,
            )
        }),
{
    reveal_strlit("backspace");
    reveal_strlit("delete");
    reveal_strlit("left");
    reveal_strlit("right");
    reveal_strlit("home");
    reveal_strlit("end");
    assert("backspace"@.len() == 9 && "delete"@.len() == 6 && "left"@.len() == 4 && "right"@.len()
        == 5 && "home"@.len() == 4 && "end"@.len() == 3);
    assert("left"@[0] == 'l' && "home"@[0] == 'h');
}

/// The keys that are held down come in the same order on both sides of the keyboard.
pub proof fn law_both_sides_are_named_alike(code: int)
    requires
        0xE0 <= code <= 0xE3,
    ensures
        key_name(code) == key_name(code + 4),
        key_name(code) is Some,
        key_name(0xE0) == Some("control"@),
        key_name(0xE1) == Some("shift"@),
        key_name(0xE2) == Some("alt"@),
        key_name(0xE3) == Some("cmd"@),
{
}

/// A key that a press names is called by its name; any other is called by its number, so that no two
/// of those are taken for one another.
pub proof fn law_unnamed_keys_are_called_by_number(code: int, other: int)
    ensures
        is_named_key(code) ==> key_name(code) == Some(key_string(code)),
        !is_named_key(code) ==> text::signed_decimal(code).is_suffix_of(key_string(code)),
        !is_named_key(code) && !is_named_key(other) && key_string(code) == key_string(other)
            ==> code == other,
        is_named_key(code) ==> key_name(code) is Some,
        0x46 <= code <= 0x48 || 0x53 <= code <= 0x63 || code == 0x39 || code == 0x32
            ==> !is_named_key(code),
{
    let name = key_string(code);
    let digits = text::signed_decimal(code);
    if !is_named_key(code) {
        assert(name.subrange(name.len() - digits.len(), name.len() as int) =~= digits);
        if !is_named_key(other) && name == key_string(other) {
            let start = "unknown-"@;
            assert(digits =~= name.skip(start.len() as int));
            assert(text::signed_decimal(other) =~= name.skip(start.len() as int));
            text::lemma_signed_decimal_tells(code, other);
        }
    }
}

} // verus!
