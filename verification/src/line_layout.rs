//! A shaped line of text: its glyphs, by the fonts that they are taken from.

use crate::font_registry;
use crate::font_registry::FontRegistry;
use crate::text_index;
use crate::text_system;
use vstd::prelude::*;

verus! {

/// A glyph, as the system shapes it.
#[derive(Clone, Copy, Debug, PartialEq, Eq, Structural)]
pub struct NativeGlyph<P> {
    pub id: u16,
    pub position: P,
    /// Where the character begins that the glyph stands for, in UTF-16 units.
    pub utf16_ix: usize,
}

/// Glyphs of one font, as the system shapes them.
#[derive(Clone, Debug, PartialEq, Eq)]
pub struct NativeRun<P> {
    /// The name of the font.
    pub postscript_name: String,
    pub glyphs: Vec<NativeGlyph<P>>,
}

/// A shaped glyph.
#[derive(Clone, Copy, Debug, PartialEq, Eq, Structural)]
pub struct ShapedGlyph<P> {
    pub id: u32,
    pub position: P,
    /// Where the character begins that the glyph stands for, in bytes.
    pub index: usize,
    pub is_emoji: bool,
}

/// Shaped glyphs of one font.
#[derive(Clone, Debug, PartialEq, Eq)]
pub struct ShapedRun<P> {
    pub font_id: usize,
    pub glyphs: Vec<ShapedGlyph<P>>,
}

/// A shaped line.
#[derive(Clone, Debug, PartialEq, Eq)]
pub struct LineLayout<P> {
    pub runs: Vec<ShapedRun<P>>,
    /// How many bytes the line has.
    pub len: usize,
}

/// The fonts that are loaded once the font with a name was asked for.
pub open spec fn names_with(names: Seq<Seq<char>>, name: Seq<char>) -> Seq<Seq<char>> {
    match font_registry::last_with_name(names, name) {
        Some(_) => names,
        None => names.push(name),
    }
}

/// The number of the font with a name.
pub open spec fn number_of(names: Seq<Seq<char>>, name: Seq<char>) -> int {
    match font_registry::last_with_name(names, name) {
        Some(known) => known,
        None => names.len() as int,
    }
}

/// The fonts that are loaded once the fonts of some runs were asked for.
pub open spec fn names_with_all<P>(names: Seq<Seq<char>>, runs: Seq<NativeRun<P>>) -> Seq<Seq<char>>
    decreases runs.len(),
{
    if runs.len() == 0 {
        names
    } else {
        names_with(names_with_all(names, runs.drop_last()), runs.last().postscript_name@)
    }
}

/// Whether a font is one of the two that hold coloured emoji.
pub open spec fn is_emoji_font(name: Seq<char>) -> bool {
    name == "AppleColorEmoji"@ || name == ".AppleColorEmojiUI"@
}

/// The shaped glyphs of a run.
pub open spec fn shaped<P>(line: Seq<char>, run: NativeRun<P>) -> Seq<ShapedGlyph<P>> {
    Seq::new(
        run.glyphs@.len(),
        |i: int|
            ShapedGlyph {
                id: run.glyphs@[i].id as u32,
                position: run.glyphs@[i].position,
                index: text_system::glyph_offset(line, run.glyphs@[i].utf16_ix as int) as usize,
                is_emoji: is_emoji_font(run.postscript_name@),
            },
    )
}

/// Whether shaped runs are those of a line: each has the number of its font among those that
/// were loaded before it, and its own glyphs.
pub open spec fn are_shaped<P>(
    line: Seq<char>,
    names: Seq<Seq<char>>,
    native: Seq<NativeRun<P>>,
    runs: Seq<ShapedRun<P>>,
) -> bool {
    &&& runs.len() == native.len()
    &&& forall|i: int|
        #![trigger runs[i]]
        0 <= i < runs.len() ==> runs[i].font_id == number_of(
            names_with_all(names, native.take(i)),
            native[i].postscript_name@,
        ) && runs[i].glyphs@ == shaped(line, native[i])
}

fn shape_glyphs<P: Copy>(line: &str, glyphs: &[NativeGlyph<P>], is_emoji: bool) -> (shaped: Vec<
    ShapedGlyph<P>,
>)
    ensures
        shaped@.len() == glyphs@.len(),
        forall|i: int|
            0 <= i < shaped@.len() ==> #[trigger] shaped@[i] == (ShapedGlyph {
                id: glyphs@[i].id as u32,
                position: glyphs@[i].position,
                index: text_system::glyph_offset(line@, glyphs@[i].utf16_ix as int) as usize,
                is_emoji,
            }),
{
    let mut places: Vec<usize> = Vec::new();
    let mut i: usize = 0;
    while i < glyphs.len()
        invariant
            i <= glyphs@.len(),
            places@.len() == i,
            forall|k: int| 0 <= k < i ==> #[trigger] places@[k] == glyphs@[k].utf16_ix,
        decreases glyphs@.len() - i,
    {
        places.push(glyphs[i].utf16_ix);
        i = i + 1;
    }
    let offsets = text_system::glyph_offsets(line, places.as_slice());
    let mut shaped: Vec<ShapedGlyph<P>> = Vec::new();
    let mut k: usize = 0;
    while k < glyphs.len()
        invariant
            k <= glyphs@.len(),
            shaped@.len() == k,
            offsets@.len() == glyphs@.len(),
            forall|j: int|
                0 <= j < offsets@.len() ==> #[trigger] offsets@[j] == text_system::glyph_offset(
                    line@,
                    glyphs@[j].utf16_ix as int,
                ),
            forall|j: int|
                0 <= j < k ==> #[trigger] shaped@[j] == (ShapedGlyph {
                    id: glyphs@[j].id as u32,
                    position: glyphs@[j].position,
                    index: text_system::glyph_offset(
                        line@,
                        glyphs@[j].utf16_ix as int,
                    ) as usize,
                    is_emoji,
                }),
        decreases glyphs@.len() - k,
    {
        shaped.push(
            ShapedGlyph {
                id: glyphs[k].id as u32,
                position: glyphs[k].position,
                index: offsets[k],
                is_emoji,
            },
        );
        k = k + 1;
    }
    shaped
}

/// The shaped line, from what the system made of it. Fonts that the system took from elsewhere
/// are loaded on the way.
pub fn layout_line<P: Copy>(registry: &mut FontRegistry, line: &str, native: &[NativeRun<P>]) -> (layout:
    LineLayout<P>)
    ensures
        layout.len == text_index::utf8_len(line@),
        are_shaped(line@, old(registry).names(), native@, layout.runs@),
        final(registry).names() == names_with_all(old(registry).names(), native@),
{
    let mut runs: Vec<ShapedRun<P>> = Vec::new();
    let ghost names = registry.names();
    let mut i: usize = 0;
    assert(native@.take(0) =~= Seq::empty());
    while i < native.len()
        invariant
            i <= native@.len(),
            runs@.len() == i,
            names == old(registry).names(),
            registry.names() == names_with_all(names, native@.take(i as int)),
            forall|k: int|
                #![trigger runs@[k]]
                0 <= k < i ==> runs@[k].font_id == number_of(
                    names_with_all(names, native@.take(k)),
                    native@[k].postscript_name@,
                ) && runs@[k].glyphs@ == shaped(line@, native@[k]),
        decreases native@.len() - i,
    {
        let run = &native[i];
        let ghost before = registry.names();
        proof {
            assert(native@.take(i + 1).drop_last() =~= native@.take(i as int));
            assert(native@.take(i + 1).last() == native@[i as int]);
            font_registry::law_font_keeps_its_number(before, run.postscript_name@);
        }
        let font_id = registry.id_for_native_font(run.postscript_name.clone());
        let is_emoji = registry.is_emoji(font_id);
        let glyphs = shape_glyphs(line, run.glyphs.as_slice(), is_emoji);
        assert(glyphs@ =~= shaped(line@, *run));
        runs.push(ShapedRun { font_id, glyphs });
        i = i + 1;
    }
    assert(native@.take(native@.len() as int) =~= native@);
    LineLayout { runs, len: text_index::byte_length(line) }
}

/// A font that the system took is found under its name afterwards, with the number that its run has,
/// and no font loses its number.
pub proof fn law_taken_fonts_are_loaded(names: Seq<Seq<char>>, name: Seq<char>)
    ensures
        ({
            let after = names_with(names, name);
            &&& 0 <= number_of(names, name) < after.len()
            &&& after[number_of(names, name)] == name
            &&& names.is_prefix_of(after)
            &&& after.len() <= names.len() + 1
            &&& number_of(after, name) == number_of(names, name)
            &&& names_with(after, name) == after
        }),
{
    font_registry::law_font_keeps_its_number(names, name);
    assert(names_with(names, name).subrange(0, names.len() as int) =~= names);
}

/// The fonts of all runs are loaded by their names, and those that were loaded before keep their
/// numbers.
pub proof fn law_fonts_of_all_runs_are_loaded<P>(names: Seq<Seq<char>>, runs: Seq<NativeRun<P>>)
    ensures
        names.is_prefix_of(names_with_all(names, runs)),
        forall|i: int|
            0 <= i < runs.len() ==> names_with_all(names, runs).contains(
                (#[trigger] runs[i]).postscript_name@,
            ),
    decreases runs.len(),
{
    let after = names_with_all(names, runs);
    if runs.len() == 0 {
        assert(names.subrange(0, names.len() as int) =~= names);
    } else {
        let before = names_with_all(names, runs.drop_last());
        let last = runs.last().postscript_name@;
        law_fonts_of_all_runs_are_loaded(names, runs.drop_last());
        law_taken_fonts_are_loaded(before, last);
        assert(after.subrange(0, names.len() as int) =~= names);
        assert forall|i: int| 0 <= i < runs.len() implies after.contains(
            (#[trigger] runs[i]).postscript_name@,
        ) by {
            if i < runs.len() - 1 {
                let name = runs[i].postscript_name@;
                assert(runs.drop_last()[i] == runs[i]);
                assert(before.contains(name));
                let k = before.index_of(name);
                assert(after[k] == name);
            } else {
                assert(after[number_of(before, last)] == last);
            }
        }
    }
}

/// A shaped run has the glyphs that the system placed, each where it was placed, with its number and
/// the place in the line that it stands for. They are emoji exactly if their font is one of emoji.
pub proof fn law_glyphs_stay_where_they_were_placed<P>(line: Seq<char>, run: NativeRun<P>, i: int)
    requires
        0 <= i < run.glyphs@.len(),
    ensures
        shaped(line, run).len() == run.glyphs@.len(),
        shaped(line, run)[i].position == run.glyphs@[i].position,
        shaped(line, run)[i].id == run.glyphs@[i].id,
        shaped(line, run)[i].index == text_system::glyph_offset(
            line,
            run.glyphs@[i].utf16_ix as int,
        ) as usize,
        shaped(line, run)[i].is_emoji <==> run.postscript_name@ == "AppleColorEmoji"@
            || run.postscript_name@ == ".AppleColorEmojiUI"@,
{
}

} // verus!
