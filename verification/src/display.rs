//! The screens of the device.

use crate::text;
use vstd::prelude::*;
use vstd::utf8::*;

verus! {

/// What identifies a screen: its size in pixels, and its scale in hundredths.
#[derive(Clone, Copy, Debug, PartialEq, Eq, Structural)]
pub struct IosDisplay {
    pub native_width: u32,
    pub native_height: u32,
    pub scale_hundredths: u32,
}

/// The name that a screen is identified by.
pub open spec fn screen_name(display: IosDisplay) -> Seq<char> {
    "ios-screen-"@ + text::decimal(display.native_width as nat) + "-"@ + text::decimal(
        display.native_height as nat,
    ) + "-"@ + text::decimal(display.scale_hundredths as nat)
}

/// The UUID of version 5 that `uuid` makes of a name, in the name space of object
/// identifiers.
pub uninterp spec fn name_uuid(name: Seq<u8>) -> Seq<u8>;

/// `Uuid::new_v5` of the crate `uuid`, in the name space `NAMESPACE_OID`: 16 bytes that tell
/// the version 5 and the common variant, and otherwise depend on the name alone.
#[verifier::external_body]
fn uuid_v5_of(name: &[u8]) -> (bytes: Vec<u8>)
    ensures
        bytes@ == name_uuid(name@),
        bytes@.len() == 16,
        bytes@[6] & 0xf0 == 0x50,
        bytes@[8] & 0xc0 == 0x80,
{
    uuid::Uuid::new_v5(&uuid::Uuid::NAMESPACE_OID, name).as_bytes().to_vec()
}

impl IosDisplay {
    /// The screen with a size and a scale.
    pub fn new(native_width: u32, native_height: u32, scale_hundredths: u32) -> (display: Self)
        ensures
            display.native_width == native_width,
            display.native_height == native_height,
            display.scale_hundredths == scale_hundredths,
    {
        IosDisplay { native_width, native_height, scale_hundredths }
    }

    /// The name that the screen is identified by.
    pub fn name(&self) -> (name: String)
        ensures
            name@ == screen_name(*self),
    {
        let mut name = "ios-screen-".to_owned();
        name.append(text::format_decimal(self.native_width as u64).as_str());
        name.append("-");
        name.append(text::format_decimal(self.native_height as u64).as_str());
        name.append("-");
        name.append(text::format_decimal(self.scale_hundredths as u64).as_str());
        name
    }

    /// The bytes of the UUID that stands for the screen, the same whenever its size and its
    /// scale are the same.
    pub fn uuid(&self) -> (bytes: Vec<u8>)
        ensures
            bytes@ == name_uuid(encode_utf8(screen_name(*self))),
            bytes@.len() == 16,
    {
        let name = self.name();
        uuid_v5_of(name.as_str().as_bytes())
    }
}

/// Screens have the same name only if they have the same size and scale.
pub proof fn law_screens_have_their_own_names(a: IosDisplay, b: IosDisplay)
    requires
        screen_name(a) == screen_name(b),
    ensures
        a == b,
{
    reveal_strlit("ios-screen-");
    reveal_strlit("-");
    lemma_numbers_of_name(a);
    lemma_numbers_of_name(b);
    text::lemma_decimal_parses_back(a.native_width as nat);
    text::lemma_decimal_parses_back(b.native_width as nat);
    text::lemma_decimal_parses_back(a.native_height as nat);
    text::lemma_decimal_parses_back(b.native_height as nat);
    text::lemma_decimal_parses_back(a.scale_hundredths as nat);
    text::lemma_decimal_parses_back(b.scale_hundredths as nat);
}

proof fn lemma_free_of_sign(n: nat)
    ensures
        text::is_free_of(text::decimal(n), '-'),
{
    text::lemma_decimal_parses_back(n);
    let digits = text::decimal(n);
    assert forall|i: int| 0 <= i < digits.len() implies (#[trigger] digits[i]) != '-' by {
        assert(text::is_digit(digits[i]));
    }
}

proof fn lemma_numbers_of_name(display: IosDisplay)
    ensures
        text::split(screen_name(display).skip(11), '-') == seq![
            text::decimal(display.native_width as nat),
            text::decimal(display.native_height as nat),
            text::decimal(display.scale_hundredths as nat),
        ],
{
    reveal_strlit("ios-screen-");
    reveal_strlit("-");
    let width = text::decimal(display.native_width as nat);
    let height = text::decimal(display.native_height as nat);
    let scale = text::decimal(display.scale_hundredths as nat);
    lemma_free_of_sign(display.native_width as nat);
    lemma_free_of_sign(display.native_height as nat);
    lemma_free_of_sign(display.scale_hundredths as nat);
    text::lemma_split_single(width, '-');
    text::lemma_split_single(height, '-');
    text::lemma_split_single(scale, '-');
    text::lemma_split_concat(width, '-', height);
    text::lemma_split_concat(width + seq!['-'] + height, '-', scale);
    assert(screen_name(display).skip(11) =~= width + seq!['-'] + height + seq!['-'] + scale);
    assert(text::split(screen_name(display).skip(11), '-') =~= seq![width, height, scale]);
}

} // verus!
