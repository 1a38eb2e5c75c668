//! The welcome screen: the name of the app, what it is, and a button that counts its taps.
use vstd::prelude::*;

use crate::text;

verus! {

/// The welcome screen.
#[derive(Clone, Debug, PartialEq, Eq)]
pub struct WelcomeView {
    pub title: String,
    pub subtitle: String,
    pub tap_count: usize,
}

/// The text of the button after some taps.
pub open spec fn tap_text_after(tap_count: nat) -> Seq<char> {
    if tap_count == 0 {
        "Tap to test input"@
    } else if tap_count == 1 {
        "Tapped "@ + text::decimal(tap_count) + " time"@
    } else {
        "Tapped "@ + text::decimal(tap_count) + " times"@
    }
}

/// The screen after one more tap.
pub open spec fn tapped(view: WelcomeView) -> WelcomeView {
    WelcomeView { tap_count: (view.tap_count + 1) as usize, ..view }
}

impl WelcomeView {
    /// The screen before any tap.
    pub fn new() -> (view: Self)
        ensures
            view.title@ == "Zed"@,
            view.subtitle@ == "Code at the speed of thought"@,
            view.tap_count == 0,
    {
        WelcomeView {
            title: "Zed".to_owned(),
            subtitle: "Code at the speed of thought".to_owned(),
            tap_count: 0,
        }
    }

    /// Takes note of a tap on the button.
    pub fn tap(&mut self)
        requires
            old(self).tap_count < usize::MAX,
        ensures
            *final(self) == tapped(*old(self)),
    {
        self.tap_count = self.tap_count + 1;
    }

    /// The text of the button.
    pub fn tap_text(&self) -> (label: String)
        ensures
            label@ == tap_text_after(self.tap_count as nat),
    {
        if self.tap_count == 0 {
            return "Tap to test input".to_owned();
        }
        let mut label = "Tapped ".to_owned();
        label.append(text::format_decimal(self.tap_count as u64).as_str());
        if self.tap_count == 1 {
            label.append(" time");
        } else {
            label.append(" times");
        }
        label
    }
}

impl Default for WelcomeView {
    fn default() -> (view: Self)
        ensures
            view.title@ == "Zed"@,
            view.subtitle@ == "Code at the speed of thought"@,
            view.tap_count == 0,
    {
        Self::new()
    }
}

/// Each tap is counted once, and the text of the button tells how many there were, in the plural
/// unless there was one.
pub proof fn law_taps_are_counted(view: WelcomeView, count: nat, other: nat)
    requires
        view.tap_count < usize::MAX,
    ensures
        tapped(view).tap_count == view.tap_count + 1,
        tapped(view).title == view.title,
        tapped(view).subtitle == view.subtitle,
        tap_text_after(count) == tap_text_after(other) ==> count == other,
        count > 0 ==> ("Tapped "@ + text::decimal(count) + " time"@).is_prefix_of(
            tap_text_after(count),
        ),
        count > 0 ==> (tap_text_after(count).last() == 's' <==> count != 1),
        tap_text_after(0) == "Tap to test input"@,
{
    reveal_strlit("Tap to test input");
    reveal_strlit("Tapped ");
    reveal_strlit(" time");
    reveal_strlit(" times");
    let start = "Tapped "@ + text::decimal(count) + " time"@;
    let label = tap_text_after(count);
    let other_label = tap_text_after(other);
    text::lemma_decimal_parses_back(count);
    text::lemma_decimal_parses_back(other);
    if count > 0 {
        assert(label.subrange(0, start.len() as int) =~= start);
        assert(label[3] == 'p');
        assert(label.last() == if count == 1 {
            'e'
        } else {
            's'
        });
    }
    if other > 0 {
        assert(other_label[3] == 'p');
        assert(other_label.last() == if other == 1 {
            'e'
        } else {
            's'
        });
    }
    assert("Tap to test input"@[3] == ' ');
    if label == other_label && count > 1 && other > 1 {
        assert(text::decimal(count) =~= label.subrange(7, label.len() - 6));
        assert(text::decimal(other) =~= label.subrange(7, label.len() - 6));
    }
}

} // verus!
