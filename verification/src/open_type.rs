//! What a font is asked to do beyond its shapes: its OpenType features, and the fonts that
//! step in for characters that it lacks.

use crate::numbers;
use crate::text;
use vstd::prelude::*;

verus! {

/// A font that steps in.
#[derive(Clone, Debug, PartialEq, Eq)]
pub enum FallbackFont {
    /// A font that the user named.
    Named(String),
    /// A font of the system's own list, by its place there.
    System(usize),
}

/// A font that steps in.
pub enum FallbackView {
    Named(Seq<char>),
    System(usize),
}

impl View for FallbackFont {
    type V = FallbackView;

    open spec fn view(&self) -> FallbackView {
        match self {
            FallbackFont::Named(name) => FallbackView::Named(name@),
            FallbackFont::System(place) => FallbackView::System(*place),
        }
    }
}

/// The fonts of a list.
pub open spec fn fallback_views(list: Seq<FallbackFont>) -> Seq<FallbackView> {
    Seq::new(list.len(), |i: int| list[i]@)
}

/// The fonts that the user named.
pub open spec fn named_fallbacks(names: Seq<Seq<char>>) -> Seq<FallbackView> {
    Seq::new(names.len(), |i: int| FallbackView::Named(names[i]))
}

/// The fonts of the system's list that have a file.
pub open spec fn system_fallbacks(has_path: Seq<bool>) -> Seq<FallbackView>
    decreases has_path.len(),
{
    if has_path.len() == 0 {
        Seq::empty()
    } else {
        let before = system_fallbacks(has_path.drop_last());
        if has_path.last() {
            before.push(FallbackView::System((has_path.len() - 1) as usize))
        } else {
            before
        }
    }
}

/// The fonts that step in, if any are named: those first, and then the system's.
pub open spec fn cascade_of(
    names: Option<Seq<Seq<char>>>,
    has_path: Seq<bool>,
) -> Option<Seq<FallbackView>> {
    match names {
        Some(names) => if names.len() == 0 {
            None
        } else {
            Some(named_fallbacks(names) + system_fallbacks(has_path))
        },
        None => None,
    }
}

/// The fonts that step in. `system` tells of each font in the system's list whether it has a
/// file; the others cannot be used.
pub fn generate_fallback_array(names: &[String], system: &[bool]) -> (list: Vec<FallbackFont>)
    ensures
        fallback_views(list@) == named_fallbacks(text::texts(names@)) + system_fallbacks(system@),
{
    let ghost named = named_fallbacks(text::texts(names@));
    let mut list: Vec<FallbackFont> = Vec::new();
    let mut i: usize = 0;
    while i < names.len()
        invariant
            i <= names@.len(),
            named == named_fallbacks(text::texts(names@)),
            fallback_views(list@) == named.take(i as int),
        decreases names@.len() - i,
    {
        let ghost before = list@;
        let font = FallbackFont::Named(names[i].clone());
        list.push(font);
        proof {
            assert(font@ == named[i as int]);
            assert(fallback_views(list@) =~= fallback_views(before).push(font@));
            assert(named.take(i + 1) =~= named.take(i as int).push(named[i as int]));
        }
        i = i + 1;
    }
    let mut place: usize = 0;
    assert(named.take(i as int) =~= named);
    assert(named + system_fallbacks(system@.take(0)) =~= named);
    while place < system.len()
        invariant
            place <= system@.len(),
            fallback_views(list@) == named + system_fallbacks(system@.take(place as int)),
        decreases system@.len() - place,
    {
        let ghost before = list@;
        proof {
            assert(system@.take(place + 1).drop_last() =~= system@.take(place as int));
        }
        if system[place] {
            let font = FallbackFont::System(place);
            list.push(font);
            assert(fallback_views(list@) =~= fallback_views(before).push(font@));
            assert(fallback_views(list@) =~= named + system_fallbacks(system@.take(place + 1)));
        }
        place = place + 1;
    }
    assert(system@.take(place as int) =~= system@);
    list
}

/// A font's features: the tag of each, and the number that is set for it.
pub open spec fn features_of(features: Seq<(String, u32)>) -> Seq<(Seq<char>, i32)> {
    Seq::new(
        features.len(),
        |i: int| (features[i].0@, numbers::signed_of(features[i].1) as i32),
    )
}

/// The features of a list that is handed on.
pub open spec fn feature_views(features: Seq<(String, i32)>) -> Seq<(Seq<char>, i32)> {
    Seq::new(features.len(), |i: int| (features[i].0@, features[i].1))
}

/// A font's features, each number as a signed one.
pub fn generate_feature_array(features: &[(String, u32)]) -> (list: Vec<(String, i32)>)
    ensures
        feature_views(list@) == features_of(features@),
{
    let mut list: Vec<(String, i32)> = Vec::new();
    let mut i: usize = 0;
    while i < features.len()
        invariant
            i <= features@.len(),
            feature_views(list@) == features_of(features@).take(i as int),
        decreases features@.len() - i,
    {
        let ghost before = list@;
        let feature = (features[i].0.clone(), numbers::to_signed(features[i].1));
        list.push(feature);
        proof {
            let all = features_of(features@);
            assert(all[i as int] == (feature.0@, feature.1));
            assert(feature_views(list@) =~= feature_views(before).push((feature.0@, feature.1)));
            assert(all.take(i + 1) =~= all.take(i as int).push(all[i as int]));
        }
        i = i + 1;
    }
    assert(features_of(features@).take(i as int) =~= features_of(features@));
    list
}

/// What a font is asked to do.
pub struct FontAttributes {
    pub features: Vec<(String, i32)>,
    /// The fonts that step in, if any are named.
    pub cascade: Option<Vec<FallbackFont>>,
}

/// What a font is asked to do: its features, and the fonts that step in if any are named.
pub fn apply_features_and_fallbacks(
    features: &[(String, u32)],
    fallbacks: Option<&[String]>,
    system: &[bool],
) -> (attributes: FontAttributes)
    ensures
        feature_views(attributes.features@) == features_of(features@),
        match attributes.cascade {
            Some(list) => Some(fallback_views(list@)),
            None => None,
        } == cascade_of(
            match fallbacks {
                Some(names) => Some(text::texts(names@)),
                None => None,
            },
            system@,
        ),
{
    let cascade = match fallbacks {
        Some(names) => if names.len() == 0 {
            None
        } else {
            Some(generate_fallback_array(names, system))
        },
        None => None,
    };
    FontAttributes { features: generate_feature_array(features), cascade }
}

/// Fonts step in exactly if the user named any: the named ones come first, in their order.
pub proof fn law_named_fonts_step_in_first(names: Seq<Seq<char>>, has_path: Seq<bool>, i: int)
    ensures
        cascade_of(None, has_path) is None,
        cascade_of(Some(names), has_path) is Some <==> names.len() > 0,
        0 <= i < names.len() ==> cascade_of(Some(names), has_path)->0[i] == FallbackView::Named(
            names[i],
        ),
        names.len() > 0 ==> cascade_of(Some(names), has_path)->0.skip(names.len() as int)
            == system_fallbacks(has_path),
{
    if names.len() > 0 {
        assert(cascade_of(Some(names), has_path)->0.skip(names.len() as int) =~= system_fallbacks(
            has_path,
        ));
    }
}

/// A font of the system steps in exactly if it has a file, and the fonts of the system step in in
/// their order, each once.
pub proof fn law_fonts_with_a_file_step_in(has_path: Seq<bool>)
    requires
        has_path.len() <= usize::MAX,
    ensures
        forall|k: int|
            0 <= k < has_path.len() ==> (#[trigger] has_path[k] <==> system_fallbacks(
                has_path,
            ).contains(FallbackView::System(k as usize))),
        forall|i: int|
            0 <= i < system_fallbacks(has_path).len() ==> {
                let font = #[trigger] system_fallbacks(has_path)[i];
                font is System && font->System_0 < has_path.len()
            },
        forall|i: int, j: int|
            0 <= i < j < system_fallbacks(has_path).len() ==> (#[trigger] system_fallbacks(
                has_path,
            )[i])->System_0 < (#[trigger] system_fallbacks(has_path)[j])->System_0,
    decreases has_path.len(),
{
    if has_path.len() > 0 {
        let front = has_path.drop_last();
        let before = system_fallbacks(front);
        let after = system_fallbacks(has_path);
        law_fonts_with_a_file_step_in(front);
        let last = has_path.len() - 1;
        assert forall|k: int| 0 <= k < has_path.len() implies (#[trigger] has_path[k]
            <==> after.contains(FallbackView::System(k as usize))) by {
            let font = FallbackView::System(k as usize);
            if k < last {
                assert(front[k] == has_path[k]);
                if before.contains(font) {
                    let i = before.index_of(font);
                    assert(after[i] == font);
                }
                if after.contains(font) {
                    let i = after.index_of(font);
                    assert(after[i] == font);
                    if i < before.len() {
                        assert(before[i] == font);
                    }
                }
            } else {
                if has_path[k] {
                    assert(after[before.len() as int] == font);
                } else if after.contains(font) {
                    let i = after.index_of(font);
                    assert(before[i] == font);
                }
            }
        }
    }
}

/// Every feature is asked for under its own tag, in its order; a number that a signed one can hold is
/// asked for as it is.
pub proof fn law_features_are_asked_for(features: Seq<(String, u32)>, i: int)
    requires
        0 <= i < features.len(),
    ensures
        features_of(features).len() == features.len(),
        features_of(features)[i].0 == features[i].0@,
        features[i].1 <= i32::MAX ==> features_of(features)[i].1 == features[i].1,
        numbers::unsigned_of(features_of(features)[i].1) == features[i].1,
{
    numbers::law_signs_read_back(0, features[i].1);
}

} // verus!
