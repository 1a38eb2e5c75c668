//! The fonts that are loaded, and which of them is taken for a request.

use crate::line_layout;
use crate::text;
use std::collections::HashMap;
use vstd::prelude::*;

verus! {

/// What is known of a font of a family.
#[derive(Clone, Debug, PartialEq, Eq)]
pub struct FontCandidate {
    pub full_name: String,
    /// Whether it has a glyph for `m`, by which text is measured.
    pub has_m_glyph: bool,
    /// Whether its traits can be read.
    pub traits_readable: bool,
    pub postscript_name: Option<String>,
}

/// What is known of a font of a family.
pub struct CandidateView {
    pub full_name: Seq<char>,
    pub has_m_glyph: bool,
    pub traits_readable: bool,
    pub postscript_name: Option<Seq<char>>,
}

impl View for FontCandidate {
    type V = CandidateView;

    open spec fn view(&self) -> CandidateView {
        CandidateView {
            full_name: self.full_name@,
            has_m_glyph: self.has_m_glyph,
            traits_readable: self.traits_readable,
            postscript_name: text::optional(self.postscript_name),
        }
    }
}

/// The family that is looked for under a name.
pub open spec fn family_sought(name: Seq<char>) -> Seq<char> {
    if name == ".SystemUIFont"@ {
        ".AppleSystemUIFont"@
    } else {
        name
    }
}

/// The family that is looked for: the font of the system goes by another name.
pub fn family_to_load(name: &str) -> (family: String)
    ensures
        family@ == family_sought(name@),
{
    if text::same_text(name, ".SystemUIFont") {
        ".AppleSystemUIFont".to_owned()
    } else {
        name.to_owned()
    }
}

/// Whether a font can be used: text can be measured by it or it is the one font of icons
/// that needs no measuring, its traits can be read, and it has a name.
pub open spec fn is_loadable(font: CandidateView) -> bool {
    &&& font.has_m_glyph || font.full_name == "Segoe Fluent Icons"@
    &&& font.traits_readable
    &&& font.postscript_name is Some
}

/// The name under which a font is loaded, if it can be used.
pub fn loadable_name(font: &FontCandidate) -> (name: Option<String>)
    ensures
        text::optional(name) == if is_loadable(font@) {
            font@.postscript_name
        } else {
            None
        },
{
    if !font.has_m_glyph && !text::same_text(font.full_name.as_str(), "Segoe Fluent Icons") {
        return None;
    }
    if !font.traits_readable {
        return None;
    }
    text::copy_optional(&font.postscript_name)
}

/// The names of the fonts that are loaded, each at the place that is its number.
#[derive(Clone, Debug, PartialEq, Eq)]
pub struct FontRegistry {
    pub postscript_names: Vec<String>,
}

/// The number of the font that was loaded last under a name.
pub open spec fn last_with_name(names: Seq<Seq<char>>, name: Seq<char>) -> Option<int>
    decreases names.len(),
{
    if names.len() == 0 {
        None
    } else if names.last() == name {
        Some(names.len() - 1)
    } else {
        last_with_name(names.drop_last(), name)
    }
}

/// The names of the fonts of a family that can be used, in their order.
pub open spec fn loadable_names(fonts: Seq<FontCandidate>) -> Seq<Seq<char>>
    decreases fonts.len(),
{
    if fonts.len() == 0 {
        Seq::empty()
    } else {
        let before = loadable_names(fonts.drop_last());
        if is_loadable(fonts.last()@) {
            before.push(fonts.last()@.postscript_name->0)
        } else {
            before
        }
    }
}

impl FontRegistry {
    /// The names of the fonts that are loaded.
    pub open spec fn names(self) -> Seq<Seq<char>> {
        text::texts(self.postscript_names@)
    }

    /// No fonts are loaded.
    pub fn new() -> (registry: Self)
        ensures
            registry.names().len() == 0,
    {
        FontRegistry { postscript_names: Vec::new() }
    }

    fn add(&mut self, name: String) -> (id: usize)
        ensures
            id == old(self).names().len(),
            final(self).names() == old(self).names().push(name@),
    {
        let ghost before = self.postscript_names@;
        let id: usize = self.postscript_names.len();
        self.postscript_names.push(name);
        assert(text::texts(self.postscript_names@) =~= text::texts(before).push(name@));
        id
    }

    /// Loads the fonts of a family that can be used; their numbers.
    pub fn load_family(&mut self, fonts: &[FontCandidate]) -> (ids: Vec<usize>)
        ensures
            final(self).names() == old(self).names() + loadable_names(fonts@),
            ids@.len() == loadable_names(fonts@).len(),
            forall|i: int|
                0 <= i < ids@.len() ==> #[trigger] ids@[i] == old(self).names().len() + i,
    {
        let mut ids: Vec<usize> = Vec::new();
        let mut i: usize = 0;
        let ghost before = self.names();
        assert(fonts@.take(0) =~= Seq::empty());
        assert(before + loadable_names(fonts@.take(0)) =~= before);
        while i < fonts.len()
            invariant
                i <= fonts@.len(),
                before == old(self).names(),
                self.names() == before + loadable_names(fonts@.take(i as int)),
                ids@.len() == loadable_names(fonts@.take(i as int)).len(),
                forall|j: int| 0 <= j < ids@.len() ==> #[trigger] ids@[j] == before.len() + j,
            decreases fonts@.len() - i,
        {
            proof {
                let taken = fonts@.take(i + 1);
                assert(taken.drop_last() =~= fonts@.take(i as int));
                assert(taken.last() == fonts@[i as int]);
            }
            let ghost loaded = loadable_names(fonts@.take(i as int));
            match loadable_name(&fonts[i]) {
                Some(name) => {
                    let ghost spelled = name@;
                    let id: usize = self.add(name);
                    ids.push(id);
                    assert((before + loaded).push(spelled) =~= before + loaded.push(spelled));
                },
                None => {},
            }
            i = i + 1;
        }
        assert(fonts@.take(fonts@.len() as int) =~= fonts@);
        ids
    }

    fn find(&self, name: &str) -> (id: Option<usize>)
        ensures
            match id {
                Some(id) => last_with_name(self.names(), name@) == Some(id as int),
                None => last_with_name(self.names(), name@) is None,
            },
    {
        let mut i: usize = self.postscript_names.len();
        assert(self.names().take(i as int) =~= self.names());
        while i > 0
            invariant
                i <= self.postscript_names@.len(),
                last_with_name(self.names(), name@) == last_with_name(
                    self.names().take(i as int),
                    name@,
                ),
            decreases i,
        {
            proof {
                let taken = self.names().take(i as int);
                assert(taken.drop_last() =~= self.names().take(i - 1));
                assert(taken.last() == self.postscript_names@[i - 1]@);
            }
            i = i - 1;
            if text::same_text(self.postscript_names[i].as_str(), name) {
                return Some(i);
            }
        }
        None
    }

    /// The number of the font with a name; one that is not loaded yet is.
    pub fn id_for_native_font(&mut self, postscript_name: String) -> (id: usize)
        ensures
            id == line_layout::number_of(old(self).names(), postscript_name@),
            final(self).names() == line_layout::names_with(old(self).names(), postscript_name@),
    {
        match self.find(postscript_name.as_str()) {
            Some(id) => id,
            None => self.add(postscript_name),
        }
    }

    /// Whether the font with a number is one of the two that hold coloured emoji.
    pub fn is_emoji(&self, id: usize) -> (yes: bool)
        ensures
            yes == (id < self.names().len() && line_layout::is_emoji_font(
                self.names()[id as int],
            )),
    {
        if id >= self.postscript_names.len() {
            return false;
        }
        let name = self.postscript_names[id].as_str();
        text::same_text(name, "AppleColorEmoji") || text::same_text(name, ".AppleColorEmojiUI")
    }
}

proof fn lemma_last_with_name(names: Seq<Seq<char>>, name: Seq<char>)
    ensures
        match last_with_name(names, name) {
            Some(i) => 0 <= i < names.len() && names[i] == name,
            None => !names.contains(name),
        },
    decreases names.len(),
{
    if names.len() > 0 {
        let shorter = names.drop_last();
        lemma_last_with_name(shorter, name);
        if last_with_name(names, name) is None && names.contains(name) {
            let i = choose|i: int| 0 <= i < names.len() && names[i] == name;
            assert(shorter[i] == name);
            assert(shorter.contains(name));
        }
    }
}

/// A font keeps its number: the one that was found or loaded under a name is found under it
/// the next time, and it is the one with that name.
pub proof fn law_font_keeps_its_number(names: Seq<Seq<char>>, name: Seq<char>)
    ensures
        ({
            let (id, after) = match last_with_name(names, name) {
                Some(known) => (known, names),
                None => (names.len() as int, names.push(name)),
            };
            &&& last_with_name(after, name) == Some(id)
            &&& 0 <= id < after.len()
            &&& after[id] == name
        }),
{
    lemma_last_with_name(names, name);
    if last_with_name(names, name) is None {
        assert(names.push(name).last() == name);
    }
}

/// The names of all font families: those that the system tells, and those in memory. If the
/// system tells nothing at all, there are none.
pub open spec fn family_names(
    descriptors: Option<Seq<Option<String>>>,
    in_memory: Option<Seq<String>>,
) -> Seq<Seq<char>> {
    match descriptors {
        None => Seq::empty(),
        Some(descriptors) => known_names(descriptors) + match in_memory {
            Some(names) => text::texts(names),
            None => Seq::empty(),
        },
    }
}

/// The names that are told.
pub open spec fn known_names(descriptors: Seq<Option<String>>) -> Seq<Seq<char>>
    decreases descriptors.len(),
{
    if descriptors.len() == 0 {
        Seq::empty()
    } else {
        match descriptors.last() {
            Some(name) => known_names(descriptors.drop_last()).push(name@),
            None => known_names(descriptors.drop_last()),
        }
    }
}

/// The names of all font families.
pub fn all_font_names(descriptors: Option<Vec<Option<String>>>, in_memory: Option<Vec<String>>) -> (names:
    Vec<String>)
    ensures
        text::texts(names@) == family_names(
            match descriptors {
                Some(descriptors) => Some(descriptors@),
                None => None,
            },
            match in_memory {
                Some(names) => Some(names@),
                None => None,
            },
        ),
{
    let mut names: Vec<String> = Vec::new();
    assert(text::texts(names@) =~= Seq::empty());
    let told = match descriptors {
        Some(told) => told,
        None => {
            return names;
        },
    };
    let mut i: usize = 0;
    assert(told@.take(0) =~= Seq::empty());
    while i < told.len()
        invariant
            i <= told@.len(),
            text::texts(names@) == known_names(told@.take(i as int)),
        decreases told@.len() - i,
    {
        proof {
            let taken = told@.take(i + 1);
            assert(taken.drop_last() =~= told@.take(i as int));
            assert(taken.last() == told@[i as int]);
        }
        match &told[i] {
            Some(name) => {
                let ghost before = names@;
                names.push(name.clone());
                assert(text::texts(names@) =~= text::texts(before).push(name@));
            },
            None => {},
        }
        i = i + 1;
    }
    assert(told@.take(told@.len() as int) =~= told@);
    match in_memory {
        Some(in_memory) => {
            let ghost before = names@;
            let mut rest = in_memory;
            names.append(&mut rest);
            assert(text::texts(names@) =~= text::texts(before) + text::texts(in_memory@));
        },
        None => {
            assert(text::texts(names@) + Seq::<Seq<char>>::empty() =~= text::texts(names@));
        },
    }
    names
}

/// The picture of a glyph.
#[derive(Clone, Copy, Debug, PartialEq, Eq, Structural)]
pub struct GlyphBitmap {
    pub width: i32,
    pub height: i32,
    /// How many bytes a row takes.
    pub row_bytes: usize,
    pub bytes: usize,
}

/// The width and the height of the picture of a glyph, the bytes of a row and all its bytes; there is
/// none if the glyph has no extent.
pub open spec fn bitmap_of(
    width: int,
    height: int,
    subpixel_x: int,
    subpixel_y: int,
    is_emoji: bool,
) -> Option<(int, int, int, int)> {
    let w = width + if subpixel_x > 0 {
        1int
    } else {
        0
    };
    let h = height + if subpixel_y > 0 {
        1int
    } else {
        0
    };
    let depth = if is_emoji {
        4int
    } else {
        1
    };
    if width == 0 || height == 0 {
        None
    } else {
        Some((w, h, w * depth, w * depth * h))
    }
}

/// The picture of a glyph with bounds: one more column or row if it does not stand exactly
/// on a pixel, to make room for its soft edges; four bytes for each pixel of an emoji, and
/// one for each of any other glyph.
pub fn glyph_bitmap(
    width: i32,
    height: i32,
    subpixel_x: u8,
    subpixel_y: u8,
    is_emoji: bool,
) -> (result: Result<GlyphBitmap, String>)
    requires
        0 <= width < i32::MAX,
        0 <= height < i32::MAX,
        (width + 1) * 4 * (height + 1) <= usize::MAX,
    ensures
        match result {
            Ok(bitmap) => bitmap_of(
                width as int,
                height as int,
                subpixel_x as int,
                subpixel_y as int,
                is_emoji,
            ) == Some((
                bitmap.width as int,
                bitmap.height as int,
                bitmap.row_bytes as int,
                bitmap.bytes as int,
            )),
            Err(message) => bitmap_of(
                width as int,
                height as int,
                subpixel_x as int,
                subpixel_y as int,
                is_emoji,
            ) is None && message@ == "glyph bounds are empty"@,
        },
{
    if width == 0 || height == 0 {
        return Err("glyph bounds are empty".to_owned());
    }
    let bitmap_width: i32 = if subpixel_x > 0 {
        width + 1
    } else {
        width
    };
    let bitmap_height: i32 = if subpixel_y > 0 {
        height + 1
    } else {
        height
    };
    let depth: usize = if is_emoji {
        4
    } else {
        1
    };
    proof {
        let (w, h, d) = (bitmap_width as int, bitmap_height as int, depth as int);
        let (most_w, most_h) = (width + 1, height + 1);
        assert(w * d <= most_w * 4) by (nonlinear_arith)
            requires
                0 <= w <= most_w,
                1 <= d <= 4,
        ;
        assert(0 <= w * d) by (nonlinear_arith)
            requires
                0 <= w,
                1 <= d,
        ;
        let (row, most_row) = (w * d, most_w * 4);
        assert(row * h <= most_row * most_h) by (nonlinear_arith)
            requires
                0 <= row <= most_row,
                0 <= h <= most_h,
        ;
        assert(row <= row * h) by (nonlinear_arith)
            requires
                0 <= row,
                1 <= h,
        ;
    }
    let row_bytes: usize = bitmap_width as usize * depth;
    let bytes: usize = row_bytes * bitmap_height as usize;
    Ok(GlyphBitmap { width: bitmap_width, height: bitmap_height, row_bytes, bytes })
}

/// Which fonts were taken for requests, and which ones there are to take for a family. A
/// request and a family go by numbers.
pub struct FontSelections {
    pub selections: HashMap<u64, usize>,
    pub families: HashMap<u64, Vec<usize>>,
}

impl FontSelections {
    /// The fonts that were taken for requests.
    pub open spec fn taken(self) -> Map<u64, usize> {
        self.selections@
    }

    /// The fonts that there are to take for a family.
    pub open spec fn loaded(self, family: u64) -> Option<Seq<usize>> {
        if self.families@.dom().contains(family) {
            Some(self.families@[family]@)
        } else {
            None
        }
    }

    /// Nothing was taken or loaded yet.
    pub fn new() -> (selections: Self)
        ensures
            selections.taken() == Map::<u64, usize>::empty(),
            forall|family: u64| selections.loaded(family) is None,
    {
        FontSelections { selections: HashMap::new(), families: HashMap::new() }
    }

    /// The font that was taken for a request before.
    pub fn cached(&self, request: u64) -> (id: Option<usize>)
        ensures
            id == if self.taken().dom().contains(request) {
                Some(self.taken()[request])
            } else {
                None
            },
    {
        broadcast use vstd::std_specs::hash::group_hash_axioms;

        match self.selections.get(&request) {
            Some(id) => Some(*id),
            None => None,
        }
    }

    /// Whether the fonts of a family are loaded.
    pub fn is_loaded(&self, family: u64) -> (yes: bool)
        ensures
            yes == (self.loaded(family) is Some),
    {
        broadcast use vstd::std_specs::hash::group_hash_axioms;

        self.families.contains_key(&family)
    }

    /// Notes the fonts of a family.
    pub fn family_loaded(&mut self, family: u64, ids: Vec<usize>)
        ensures
            final(self).loaded(family) == Some(ids@),
            forall|other: u64| other != family ==> final(self).loaded(other) == old(self).loaded(other),
            final(self).taken() == old(self).taken(),
    {
        broadcast use vstd::std_specs::hash::group_hash_axioms;

        self.families.insert(family, ids);
    }

    /// Takes the font at a place among those of a family, and keeps to it.
    pub fn select(&mut self, request: u64, family: u64, index: usize) -> (id: Option<usize>)
        ensures
            match old(self).loaded(family) {
                Some(ids) => if index < ids.len() {
                    &&& id == Some(ids[index as int])
                    &&& final(self).taken() == old(self).taken().insert(request, ids[index as int])
                } else {
                    id is None && final(self).taken() == old(self).taken()
                },
                None => id is None && final(self).taken() == old(self).taken(),
            },
            forall|other: u64| final(self).loaded(other) == old(self).loaded(other),
    {
        broadcast use vstd::std_specs::hash::group_hash_axioms;

        let id: usize = match self.families.get(&family) {
            Some(ids) => if index < ids.len() {
                ids[index]
            } else {
                return None;
            },
            None => {
                return None;
            },
        };
        self.selections.insert(request, id);
        Some(id)
    }
}

/// Any family but that of the system is looked for under its own name, and that of the system under
/// another.
pub proof fn law_families_are_sought_by_name(name: Seq<char>)
    ensures
        name != ".SystemUIFont"@ ==> family_sought(name) == name,
        family_sought(".SystemUIFont"@) == ".AppleSystemUIFont"@,
        family_sought(family_sought(name)) == family_sought(name),
{
    reveal_strlit(".SystemUIFont");
    reveal_strlit(".AppleSystemUIFont");
    assert(".SystemUIFont"@.len() == 13 && ".AppleSystemUIFont"@.len() == 18);
}

/// Of two families put together, those fonts are loaded that are loaded of each, in their order. A
/// font without a name, without readable traits, or without a glyph to measure by is left out; the
/// one font of icons needs no such glyph.
pub proof fn law_usable_fonts_are_loaded(a: Seq<FontCandidate>, b: Seq<FontCandidate>)
    ensures
        loadable_names(a + b) == loadable_names(a) + loadable_names(b),
        forall|font: CandidateView|
            #[trigger] is_loadable(font) ==> font.traits_readable && font.postscript_name is Some,
        forall|font: CandidateView|
            font.has_m_glyph && font.traits_readable && font.postscript_name is Some
                ==> #[trigger] is_loadable(font),
        forall|font: CandidateView|
            #[trigger] is_loadable(font) && !font.has_m_glyph ==> font.full_name
                == "Segoe Fluent Icons"@,
        a.len() == 1 && is_loadable(a[0]@) ==> loadable_names(a) == seq![
            a[0]@.postscript_name->0,
        ],
        a.len() == 1 && !is_loadable(a[0]@) ==> loadable_names(a) == Seq::<Seq<char>>::empty(),
    decreases b.len(),
{
    if a.len() == 1 {
        assert(a.drop_last().len() == 0);
        assert(loadable_names(a.drop_last()) == Seq::<Seq<char>>::empty());
        if is_loadable(a[0]@) {
            assert(loadable_names(a) =~= seq![a[0]@.postscript_name->0]);
        }
    }
    if b.len() == 0 {
        assert(a + b =~= a);
        assert(loadable_names(a) + loadable_names(b) =~= loadable_names(a));
    } else {
        law_usable_fonts_are_loaded(a, b.drop_last());
        assert((a + b).drop_last() =~= a + b.drop_last());
        assert((a + b).last() == b.last());
        assert(loadable_names(a + b) =~= loadable_names(a) + loadable_names(b));
    }
}

/// Every name that is told is listed, in its order, and those in memory come behind; if the system
/// tells nothing, nothing is listed.
pub proof fn law_told_names_are_listed(
    a: Seq<Option<String>>,
    b: Seq<Option<String>>,
    name: String,
    in_memory: Seq<String>,
)
    ensures
        known_names(a.push(Some(name))) == known_names(a).push(name@),
        known_names(a.push(None)) == known_names(a),
        known_names(a + b) == known_names(a) + known_names(b),
        known_names(a).is_prefix_of(family_names(Some(a), Some(in_memory))),
        text::texts(in_memory).is_suffix_of(family_names(Some(a), Some(in_memory))),
        family_names(Some(a), None) == known_names(a),
        family_names(None, Some(in_memory)) == Seq::<Seq<char>>::empty(),
    decreases b.len(),
{
    assert(a.push(Some(name)).drop_last() =~= a);
    assert(a.push(None).drop_last() =~= a);
    let all = family_names(Some(a), Some(in_memory));
    let rest = text::texts(in_memory);
    assert(all.subrange(0, known_names(a).len() as int) =~= known_names(a));
    assert(all.subrange(all.len() - rest.len(), all.len() as int) =~= rest);
    assert(family_names(Some(a), None) =~= known_names(a));
    if b.len() == 0 {
        assert(a + b =~= a);
        assert(known_names(a) + known_names(b) =~= known_names(a));
    } else {
        law_told_names_are_listed(a, b.drop_last(), name, in_memory);
        assert((a + b).drop_last() =~= a + b.drop_last());
        assert((a + b).last() == b.last());
        assert(known_names(a + b) =~= known_names(a) + known_names(b));
    }
}

/// A glyph has a picture exactly if it has an extent. The picture holds the whole glyph, with one
/// column or row more exactly if the glyph does not stand on a pixel, and four bytes for each pixel
/// of an emoji, but one for each of any other glyph.
pub proof fn law_pictures_hold_their_glyphs(
    width: int,
    height: int,
    subpixel_x: int,
    subpixel_y: int,
)
    requires
        0 <= width,
        0 <= height,
    ensures
        ({
            let plain = bitmap_of(width, height, subpixel_x, subpixel_y, false);
            let emoji = bitmap_of(width, height, subpixel_x, subpixel_y, true);
            let (w, h, row, bytes) = plain->0;
            let (emoji_w, emoji_h, emoji_row, emoji_bytes) = emoji->0;
            &&& plain is Some <==> width > 0 && height > 0
            &&& emoji is Some <==> width > 0 && height > 0
            &&& plain is Some ==> {
                &&& w - width == if subpixel_x > 0 {
                    1int
                } else {
                    0
                }
                &&& h - height == if subpixel_y > 0 {
                    1int
                } else {
                    0
                }
                &&& row == w
                &&& bytes == w * h
                &&& emoji_w == w
                &&& emoji_h == h
                &&& emoji_row == 4 * row
                &&& emoji_bytes == 4 * bytes
            }
        }),
{
    let (w, h, _, _) = bitmap_of(width, height, subpixel_x, subpixel_y, false)->0;
    assert(w * 4 * h == 4 * (w * 1 * h)) by (nonlinear_arith);
}

/// The font that was loaded last under a name is the one that is found, and none is found exactly if
/// none was loaded under it.
pub proof fn law_last_loaded_font_is_found(names: Seq<Seq<char>>, name: Seq<char>, other: Seq<char>)
    ensures
        last_with_name(names.push(name), name) == Some(names.len() as int),
        other != name ==> last_with_name(names.push(other), name) == last_with_name(names, name),
        last_with_name(names, name) is None <==> !names.contains(name),
{
    assert(names.push(other).drop_last() =~= names);
    lemma_last_with_name(names, name);
    if last_with_name(names, name) is Some {
        assert(names[last_with_name(names, name)->0] == name);
    }
}

} // verus!
