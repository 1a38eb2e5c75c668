//! The buffers that a frame's primitives are handed to the graphics device in: where each
//! batch stands, and what is done when a frame does not fit.

use crate::text;
use vstd::prelude::*;

verus! {

/// What every batch's place is a multiple of.
pub const ALIGNMENT: usize = 256;

/// The next multiple of 256 that is not smaller.
pub open spec fn aligned(offset: int) -> int {
    (offset + 255) / 256 * 256
}

/// Moves a place on to the next multiple of 256.
pub fn align_offset(offset: &mut usize)
    requires
        *old(offset) <= usize::MAX - 255,
    ensures
        *final(offset) == aligned(*old(offset) as int),
{
    *offset = (*offset + 255) / ALIGNMENT * ALIGNMENT;
}

/// The next multiple of 256 is one, is not smaller, and is less than 256 away.
pub proof fn law_aligned_is_the_next_multiple(offset: int)
    requires
        offset >= 0,
    ensures
        aligned(offset) % 256 == 0,
        offset <= aligned(offset) < offset + 256,
        offset % 256 == 0 ==> aligned(offset) == offset,
{
}

/// A buffer of the graphics device.
#[derive(Clone, Copy, Debug, PartialEq, Eq, Structural)]
pub struct InstanceBuffer {
    /// The number of the buffer; none if it is to be made.
    pub buffer: Option<u64>,
    pub size: usize,
}

/// The buffers that are not in use, all of one size.
#[derive(Clone, Debug, PartialEq, Eq)]
pub struct InstanceBufferPool {
    pub buffer_size: usize,
    pub buffers: Vec<u64>,
}

/// How large a buffer is at first.
pub const INITIAL_BUFFER_SIZE: usize = 2097152;

/// The size from which on buffers are not made larger.
pub const LARGEST_BUFFER_SIZE: usize = 268435456;

impl Default for InstanceBufferPool {
    fn default() -> (pool: Self)
        ensures
            pool.buffer_size == INITIAL_BUFFER_SIZE,
            pool.buffers@.len() == 0,
    {
        InstanceBufferPool { buffer_size: INITIAL_BUFFER_SIZE, buffers: Vec::new() }
    }
}

/// The buffer that is taken, if there is one, and those that are left: the one that came back last.
pub open spec fn buffer_taken(buffers: Seq<u64>) -> (Option<u64>, Seq<u64>) {
    if buffers.len() > 0 {
        (Some(buffers.last()), buffers.drop_last())
    } else {
        (None, buffers)
    }
}

/// The buffers once one was given back.
pub open spec fn buffer_given_back(
    buffers: Seq<u64>,
    buffer_size: usize,
    buffer: u64,
    size: usize,
) -> Seq<u64> {
    if size == buffer_size {
        buffers.push(buffer)
    } else {
        buffers
    }
}

/// Whether buffers of a size are made larger.
pub open spec fn grows(size: int) -> bool {
    size < LARGEST_BUFFER_SIZE
}

/// The size of buffers once a frame did not fit.
pub open spec fn size_after(size: int) -> int {
    if grows(size) {
        2 * size
    } else {
        size
    }
}

impl InstanceBufferPool {
    /// Changes the size; all buffers of the old one are let go.
    pub fn reset(&mut self, buffer_size: usize)
        ensures
            final(self).buffer_size == buffer_size,
            final(self).buffers@.len() == 0,
    {
        self.buffer_size = buffer_size;
        self.buffers = Vec::new();
    }

    /// Takes a buffer: the one that came back last, or one that is to be made.
    pub fn acquire(&mut self) -> (buffer: InstanceBuffer)
        ensures
            final(self).buffer_size == old(self).buffer_size,
            buffer.size == old(self).buffer_size,
            (buffer.buffer, final(self).buffers@) == buffer_taken(old(self).buffers@),
    {
        let buffer = self.buffers.pop();
        InstanceBuffer { buffer, size: self.buffer_size }
    }

    /// Gives a buffer back; it is kept if it still has the right size.
    pub fn release(&mut self, buffer: u64, size: usize)
        ensures
            final(self).buffer_size == old(self).buffer_size,
            final(self).buffers@ == buffer_given_back(
                old(self).buffers@,
                old(self).buffer_size,
                buffer,
                size,
            ),
    {
        if size == self.buffer_size {
            self.buffers.push(buffer);
        }
    }

    /// What is done once a frame did not fit: buffers become twice as large and the frame is
    /// drawn again, unless they are large enough already.
    pub fn frame_did_not_fit(&mut self) -> (draws_again: bool)
        ensures
            draws_again == grows(old(self).buffer_size as int),
            final(self).buffer_size == size_after(old(self).buffer_size as int),
            draws_again ==> final(self).buffers@.len() == 0,
            !draws_again ==> *final(self) == *old(self),
    {
        let size: usize = self.buffer_size;
        if size >= LARGEST_BUFFER_SIZE {
            return false;
        }
        self.reset(size * 2);
        true
    }
}

/// How often a frame is drawn again at the most, from buffers of a size.
pub open spec fn tries_left(size: int) -> nat
    decreases
            (if size < LARGEST_BUFFER_SIZE {
                LARGEST_BUFFER_SIZE - size
            } else {
                0
            }),
{
    if size <= 0 || size >= LARGEST_BUFFER_SIZE {
        0
    } else {
        1 + tries_left(2 * size)
    }
}

/// Drawing a frame comes to an end: each time it is drawn again, one try less is left.
/// From the size that buffers have at first, there are seven.
pub proof fn law_drawing_ends(size: int)
    requires
        0 < size < LARGEST_BUFFER_SIZE,
    ensures
        tries_left(2 * size) < tries_left(size),
        tries_left(INITIAL_BUFFER_SIZE as int) == 7,
{
    reveal_with_fuel(tries_left, 8);
}

// Where the batches stand.

/// A batch of primitives.
#[derive(Clone, Debug, PartialEq, Eq)]
pub enum Batch {
    /// So many instances, each of so many bytes.
    Instances { count: usize, stride: usize },
    /// Paths, with the number of vertices of each.
    Paths { vertex_counts: Vec<usize> },
    /// Surfaces are not drawn.
    Surfaces,
}

/// How many bytes the parts of a path take.
#[derive(Clone, Copy, Debug, PartialEq, Eq, Structural)]
pub struct PathSizes {
    pub vertex: usize,
    pub sprite: usize,
    pub command: usize,
}

/// What tells the graphics device to draw a path.
#[derive(Clone, Copy, Debug, PartialEq, Eq, Structural)]
pub struct IndirectCommand {
    pub vertex_count: u32,
    pub instance_count: u32,
    pub vertex_start: u32,
    pub base_instance: u32,
}

/// Where the parts of paths stand.
#[derive(Clone, Debug, PartialEq, Eq)]
pub struct PathLayout {
    pub vertices_offset: usize,
    pub sprites_offset: usize,
    pub commands_offset: usize,
    pub end: usize,
    pub commands: Vec<IndirectCommand>,
}

/// How many vertices paths have together.
pub open spec fn vertex_total(counts: Seq<usize>) -> int
    decreases counts.len(),
{
    if counts.len() == 0 {
        0
    } else {
        vertex_total(counts.drop_last()) + counts.last()
    }
}

/// What tells the graphics device to draw the paths.
pub open spec fn commands_for(counts: Seq<usize>) -> Seq<IndirectCommand>
    decreases counts.len(),
{
    if counts.len() == 0 {
        Seq::empty()
    } else {
        let before = counts.drop_last();
        commands_for(before).push(
            IndirectCommand {
                vertex_count: counts.last() as u32,
                instance_count: 1,
                vertex_start: vertex_total(before) as u32,
                base_instance: before.len() as u32,
            },
        )
    }
}

/// Where the part of a batch ends that holds the vertices of paths.
pub open spec fn vertices_end(offset: int, counts: Seq<usize>, sizes: PathSizes) -> int {
    offset + sizes.vertex * vertex_total(counts)
}

/// Where the part of a batch ends that holds the sprites of paths.
pub open spec fn sprites_end(offset: int, counts: Seq<usize>, sizes: PathSizes) -> int {
    vertices_end(offset, counts, sizes) + sizes.sprite * counts.len()
}

/// Where a batch of paths ends.
pub open spec fn paths_end(offset: int, counts: Seq<usize>, sizes: PathSizes) -> int {
    sprites_end(offset, counts, sizes) + sizes.command * counts.len()
}

proof fn lemma_vertex_total_nonnegative(counts: Seq<usize>)
    ensures
        vertex_total(counts) >= 0,
    decreases counts.len(),
{
    if counts.len() > 0 {
        lemma_vertex_total_nonnegative(counts.drop_last());
    }
}

proof fn lemma_vertex_total_grows(counts: Seq<usize>, count: int)
    requires
        0 <= count <= counts.len(),
    ensures
        vertex_total(counts.take(count)) <= vertex_total(counts),
    decreases counts.len() - count,
{
    if count == counts.len() {
        assert(counts.take(count) =~= counts);
    } else {
        assert(counts.take(count + 1).drop_last() =~= counts.take(count));
        lemma_vertex_total_grows(counts, count + 1);
    }
}

/// Where paths stand behind a place, if there is room for them.
pub fn place_paths(offset: usize, counts: &[usize], sizes: PathSizes, size: usize) -> (layout: Option<
    PathLayout,
>)
    requires
        offset <= size,
        sizes.vertex > 0,
    ensures
        layout is Some <==> paths_end(offset as int, counts@, sizes) <= size,
        layout matches Some(layout) ==> {
            &&& layout.vertices_offset == offset
            &&& layout.sprites_offset == vertices_end(offset as int, counts@, sizes)
            &&& layout.commands_offset == sprites_end(offset as int, counts@, sizes)
            &&& layout.end == paths_end(offset as int, counts@, sizes)
            &&& layout.commands@ == commands_for(counts@)
        },
{
    let mut commands: Vec<IndirectCommand> = Vec::new();
    let mut at: usize = offset;
    let mut first_vertex: usize = 0;
    let mut i: usize = 0;
    proof {
        lemma_vertex_total_nonnegative(counts@);
        assert(sizes.vertex * vertex_total(counts@) >= 0) by (nonlinear_arith)
            requires
                vertex_total(counts@) >= 0,
        ;
        assert(sizes.sprite * counts@.len() >= 0) by (nonlinear_arith);
        assert(sizes.command * counts@.len() >= 0) by (nonlinear_arith);
        assert(counts@.take(0) =~= Seq::empty());
        assert(sizes.vertex * 0 == 0);
    }
    while i < counts.len()
        invariant
            i <= counts@.len(),
            sizes.vertex > 0,
            offset <= at <= size,
            first_vertex <= at - offset,
            first_vertex == vertex_total(counts@.take(i as int)),
            at == vertices_end(offset as int, counts@.take(i as int), sizes),
            commands@ == commands_for(counts@.take(i as int)),
            sizes.sprite * counts@.len() >= 0,
            sizes.command * counts@.len() >= 0,
        decreases counts@.len() - i,
    {
        let count: usize = counts[i];
        let ghost before = counts@.take(i as int);
        let ghost taken = counts@.take(i + 1);
        proof {
            assert(taken.drop_last() =~= before);
            assert(taken.last() == count);
            let (v, t, c) = (sizes.vertex as int, vertex_total(before), count as int);
            assert(v * (t + c) == v * t + v * c) by (nonlinear_arith);
            assert(v * c >= c) by (nonlinear_arith)
                requires
                    v > 0,
                    c >= 0,
            ;
            lemma_vertex_total_grows(counts@, i + 1);
            let (part, whole) = (vertex_total(taken), vertex_total(counts@));
            assert(v * part <= v * whole) by (nonlinear_arith)
                requires
                    part <= whole,
                    v > 0,
            ;
        }
        let bytes: usize = match sizes.vertex.checked_mul(count) {
            Some(bytes) => bytes,
            None => {
                return None;
            },
        };
        if bytes > size - at {
            return None;
        }
        commands.push(
            IndirectCommand {
                vertex_count: count as u32,
                instance_count: 1,
                vertex_start: first_vertex as u32,
                base_instance: i as u32,
            },
        );
        first_vertex = first_vertex + count;
        at = at + bytes;
        i = i + 1;
    }
    assert(counts@.take(counts@.len() as int) =~= counts@);
    let sprites_offset: usize = at;
    let sprite_bytes: usize = match sizes.sprite.checked_mul(counts.len()) {
        Some(bytes) => bytes,
        None => {
            return None;
        },
    };
    if sprite_bytes > size - at {
        return None;
    }
    at = at + sprite_bytes;
    let commands_offset: usize = at;
    let command_bytes: usize = match sizes.command.checked_mul(counts.len()) {
        Some(bytes) => bytes,
        None => {
            return None;
        },
    };
    if command_bytes > size - at {
        return None;
    }
    at = at + command_bytes;
    Some(
        PathLayout {
            vertices_offset: offset,
            sprites_offset,
            commands_offset,
            end: at,
            commands,
        },
    )
}

/// Where instances stand behind a place, if there is room for them: from the next multiple
/// of 256 on.
pub fn place_instances(offset: usize, count: usize, stride: usize, size: usize) -> (place: Option<
    (usize, usize),
>)
    requires
        offset <= size,
        size <= usize::MAX - 255,
    ensures
        place is Some <==> aligned(offset as int) + stride * count <= size,
        place matches Some((start, end)) ==> start == aligned(offset as int) && end == start
            + stride * count,
{
    let mut start: usize = offset;
    align_offset(&mut start);
    assert(stride * count >= 0) by (nonlinear_arith);
    let bytes: usize = match stride.checked_mul(count) {
        Some(bytes) => bytes,
        None => {
            return None;
        },
    };
    if start > size || bytes > size - start {
        return None;
    }
    Some((start, start + bytes))
}

/// Where a batch begins and ends.
pub open spec fn batch_span(offset: int, batch: Batch, sizes: PathSizes) -> (int, int) {
    match batch {
        Batch::Instances { count, stride } => if count == 0 {
            (offset, offset)
        } else {
            (aligned(offset), aligned(offset) + stride * count)
        },
        Batch::Paths { vertex_counts } => if vertex_counts@.len() == 0 {
            (offset, offset)
        } else {
            (offset, paths_end(offset, vertex_counts@, sizes))
        },
        Batch::Surfaces => (offset, offset),
    }
}

/// Where the last of some batches ends.
pub open spec fn batches_end(batches: Seq<Batch>, sizes: PathSizes) -> int
    decreases batches.len(),
{
    if batches.len() == 0 {
        0
    } else {
        let (_, end) = batch_span(batches_end(batches.drop_last(), sizes), batches.last(), sizes);
        end
    }
}

/// Where each of some batches begins and ends.
pub open spec fn batch_spans(batches: Seq<Batch>, sizes: PathSizes) -> Seq<(int, int)>
    decreases batches.len(),
{
    if batches.len() == 0 {
        Seq::empty()
    } else {
        let before = batches.drop_last();
        batch_spans(before, sizes).push(
            batch_span(batches_end(before, sizes), batches.last(), sizes),
        )
    }
}

/// Places as numbers.
pub open spec fn spans_of(spans: Seq<(usize, usize)>) -> Seq<(int, int)> {
    spans.map_values(|span: (usize, usize)| (span.0 as int, span.1 as int))
}

proof fn lemma_batch_goes_forward(offset: int, batch: Batch, sizes: PathSizes)
    requires
        offset >= 0,
    ensures
        ({
            let (start, end) = batch_span(offset, batch, sizes);
            offset <= start <= end
        }),
{
    match batch {
        Batch::Instances { count, stride } => {
            assert(stride * count >= 0) by (nonlinear_arith);
        },
        Batch::Paths { vertex_counts } => {
            lemma_vertex_total_nonnegative(vertex_counts@);
            let (v, t, n) = (sizes.vertex as int, vertex_total(vertex_counts@), vertex_counts@.len());
            assert(v * t >= 0) by (nonlinear_arith)
                requires
                    v >= 0,
                    t >= 0,
            ;
            assert(sizes.sprite * n >= 0) by (nonlinear_arith);
            assert(sizes.command * n >= 0) by (nonlinear_arith);
        },
        Batch::Surfaces => {},
    }
}

proof fn lemma_batches_end_grows(batches: Seq<Batch>, count: int, sizes: PathSizes)
    requires
        0 <= count <= batches.len(),
    ensures
        0 <= batches_end(batches.take(count), sizes) <= batches_end(batches, sizes),
    decreases batches.len(),
{
    if batches.len() == 0 {
        assert(batches.take(count) =~= batches);
    } else {
        let before = batches.drop_last();
        lemma_batches_end_grows(before, if count < batches.len() {
            count
        } else {
            0
        }, sizes);
        lemma_batch_goes_forward(batches_end(before, sizes), batches.last(), sizes);
        if count < batches.len() {
            assert(before.take(count) =~= batches.take(count));
        } else {
            assert(batches.take(count) =~= batches);
        }
    }
}

/// Batches stand one behind the other: none begins before the one before it ends, and all of
/// them end by the end of the last one.
pub proof fn law_batches_do_not_overlap(batches: Seq<Batch>, sizes: PathSizes, i: int, j: int)
    requires
        0 <= i < j < batches.len(),
    ensures
        batch_spans(batches, sizes).len() == batches.len(),
        ({
            let (start_i, end_i) = batch_spans(batches, sizes)[i];
            let (start_j, end_j) = batch_spans(batches, sizes)[j];
            0 <= start_i <= end_i <= start_j <= end_j <= batches_end(batches, sizes)
        }),
    decreases batches.len(),
{
    lemma_span_of(batches, sizes, i);
    lemma_span_of(batches, sizes, j);
    let until_i = batches.take(i);
    let until_j = batches.take(j);
    lemma_batches_end_grows(batches, i, sizes);
    lemma_batches_end_grows(batches, j, sizes);
    lemma_batches_end_grows(batches, j + 1, sizes);
    lemma_batches_end_grows(until_j, i + 1, sizes);
    assert(until_j.take(i + 1) =~= batches.take(i + 1));
    assert(batches.take(i + 1).drop_last() =~= until_i);
    assert(batches.take(j + 1).drop_last() =~= until_j);
    lemma_batch_goes_forward(batches_end(until_i, sizes), batches[i], sizes);
    lemma_batch_goes_forward(batches_end(until_j, sizes), batches[j], sizes);
}

proof fn lemma_span_of(batches: Seq<Batch>, sizes: PathSizes, i: int)
    requires
        0 <= i < batches.len(),
    ensures
        batch_spans(batches, sizes).len() == batches.len(),
        batch_spans(batches, sizes)[i] == batch_span(
            batches_end(batches.take(i), sizes),
            batches[i],
            sizes,
        ),
    decreases batches.len(),
{
    let before = batches.drop_last();
    if before.len() > 0 {
        lemma_span_of(before, sizes, if i < before.len() {
            i
        } else {
            0
        });
    } else {
        assert(batch_spans(before, sizes).len() == 0);
    }
    if i < before.len() {
        assert(before.take(i) =~= batches.take(i));
    } else {
        assert(batches.take(i) =~= before);
    }
}

/// How many primitives of each sort a scene holds.
#[derive(Clone, Copy, Debug, PartialEq, Eq, Structural)]
pub struct SceneCounts {
    pub paths: usize,
    pub shadows: usize,
    pub quads: usize,
    pub underlines: usize,
    pub monochrome_sprites: usize,
    pub polychrome_sprites: usize,
    pub surfaces: usize,
}

/// What is told of a scene that does not fit.
pub open spec fn too_large(scene: SceneCounts) -> Seq<char> {
    "scene too large: "@ + text::decimal(scene.paths as nat) + " paths, "@ + text::decimal(
        scene.shadows as nat,
    ) + " shadows, "@ + text::decimal(scene.quads as nat) + " quads, "@ + text::decimal(
        scene.underlines as nat,
    ) + " underlines, "@ + text::decimal(scene.monochrome_sprites as nat) + " mono, "@
        + text::decimal(scene.polychrome_sprites as nat) + " poly, "@ + text::decimal(
        scene.surfaces as nat,
    ) + " surfaces"@
}

fn too_large_text(scene: SceneCounts) -> (message: String)
    ensures
        message@ == too_large(scene),
{
    let mut message = "scene too large: ".to_owned();
    message.append(text::format_decimal(scene.paths as u64).as_str());
    message.append(" paths, ");
    message.append(text::format_decimal(scene.shadows as u64).as_str());
    message.append(" shadows, ");
    message.append(text::format_decimal(scene.quads as u64).as_str());
    message.append(" quads, ");
    message.append(text::format_decimal(scene.underlines as u64).as_str());
    message.append(" underlines, ");
    message.append(text::format_decimal(scene.monochrome_sprites as u64).as_str());
    message.append(" mono, ");
    message.append(text::format_decimal(scene.polychrome_sprites as u64).as_str());
    message.append(" poly, ");
    message.append(text::format_decimal(scene.surfaces as u64).as_str());
    message.append(" surfaces");
    message
}

/// Where the batches of a frame stand in a buffer, and how many bytes of it they use.
#[derive(Clone, Debug, PartialEq, Eq)]
pub struct FrameLayout {
    pub spans: Vec<(usize, usize)>,
    pub used: usize,
}

fn place_batch(offset: usize, batch: &Batch, sizes: PathSizes, size: usize) -> (span: Option<
    (usize, usize),
>)
    requires
        offset <= size,
        size <= usize::MAX - 255,
        sizes.vertex > 0,
    ensures
        ({
            let (start, end) = batch_span(offset as int, *batch, sizes);
            &&& span is Some <==> end <= size
            &&& span matches Some((from, to)) ==> from == start && to == end
        }),
{
    match batch {
        Batch::Instances { count, stride } => if *count == 0 {
            Some((offset, offset))
        } else {
            place_instances(offset, *count, *stride, size)
        },
        Batch::Paths { vertex_counts } => if vertex_counts.len() == 0 {
            Some((offset, offset))
        } else {
            match place_paths(offset, vertex_counts.as_slice(), sizes, size) {
                Some(layout) => Some((offset, layout.end)),
                None => None,
            }
        },
        Batch::Surfaces => Some((offset, offset)),
    }
}

/// Where the batches of a scene stand in a buffer, or what is told if they do not fit.
pub fn draw_primitives(batches: &[Batch], sizes: PathSizes, size: usize, scene: SceneCounts) -> (result:
    Result<FrameLayout, String>)
    requires
        size <= usize::MAX - 255,
        sizes.vertex > 0,
    ensures
        if batches_end(batches@, sizes) <= size {
            &&& result is Ok
            &&& result->Ok_0.used == batches_end(batches@, sizes)
            &&& spans_of(result->Ok_0.spans@) == batch_spans(batches@, sizes)
        } else {
            result is Err && result->Err_0@ == too_large(scene)
        },
{
    let mut spans: Vec<(usize, usize)> = Vec::new();
    let mut used: usize = 0;
    let mut i: usize = 0;
    assert(batches@.take(0) =~= Seq::empty());
    assert(spans_of(spans@) =~= Seq::empty());
    while i < batches.len()
        invariant
            i <= batches@.len(),
            size <= usize::MAX - 255,
            sizes.vertex > 0,
            used <= size,
            used == batches_end(batches@.take(i as int), sizes),
            spans_of(spans@) == batch_spans(batches@.take(i as int), sizes),
        decreases batches@.len() - i,
    {
        proof {
            let taken = batches@.take(i + 1);
            assert(taken.drop_last() =~= batches@.take(i as int));
            assert(taken.last() == batches@[i as int]);
            lemma_batches_end_grows(batches@, i + 1, sizes);
        }
        let (start, end) = match place_batch(used, &batches[i], sizes, size) {
            Some(span) => span,
            None => {
                return Err(too_large_text(scene));
            },
        };
        let ghost before = spans@;
        spans.push((start, end));
        assert(spans_of(spans@) =~= spans_of(before).push((start as int, end as int)));
        used = end;
        i = i + 1;
    }
    assert(batches@.take(batches@.len() as int) =~= batches@);
    Ok(FrameLayout { spans, used })
}

/// How many samples a pixel has.
pub open spec fn samples_for(supports_four: bool, supports_two: bool) -> int {
    if supports_four {
        4
    } else if supports_two {
        2
    } else {
        1
    }
}

/// Whether a texture with several samples for each pixel is made.
pub open spec fn is_sampled(width: u64, height: u64, sample_count: u64) -> bool {
    width != 0 && height != 0 && sample_count > 1
}

/// How many samples a pixel has: as many of 4, 2 and 1 as the device can do.
pub fn choose_sample_count(supports_four: bool, supports_two: bool) -> (count: u64)
    ensures
        count == samples_for(supports_four, supports_two),
{
    if supports_four {
        4
    } else if supports_two {
        2
    } else {
        1
    }
}

/// Whether a texture with several samples for each pixel is made.
pub fn needs_msaa_texture(width: u64, height: u64, sample_count: u64) -> (yes: bool)
    ensures
        yes == is_sampled(width, height, sample_count),
{
    width != 0 && height != 0 && sample_count > 1
}

/// A buffer that was given back is the one that is taken next, and the others are as they were; one
/// of another size is not kept.
pub proof fn law_buffers_are_used_again(
    buffers: Seq<u64>,
    buffer_size: usize,
    buffer: u64,
    size: usize,
)
    ensures
        buffer_taken(buffer_given_back(buffers, buffer_size, buffer, buffer_size)) == (
            Some(buffer),
            buffers,
        ),
        size != buffer_size ==> buffer_given_back(buffers, buffer_size, buffer, size) == buffers,
        buffer_taken(buffers).0 is None <==> buffers.len() == 0,
        buffers.len() > 0 ==> buffer_taken(buffers).1.push(buffer_taken(buffers).0->0) == buffers,
{
    assert(buffers.push(buffer).drop_last() =~= buffers);
    if buffers.len() > 0 {
        assert(buffers.drop_last().push(buffers.last()) =~= buffers);
    }
}

/// Buffers become twice as large until they hold 256 MiB, and no larger.
pub proof fn law_buffers_grow_to_a_limit(size: int)
    requires
        0 < size,
    ensures
        grows(size) <==> size < 256 * 1024 * 1024,
        grows(size) ==> size_after(size) == 2 * size,
        !grows(size) ==> size_after(size) == size,
        size <= 256 * 1024 * 1024 ==> size_after(size) < 2 * 256 * 1024 * 1024,
        INITIAL_BUFFER_SIZE == 2 * 1024 * 1024,
{
}

/// A batch has room for just what it holds: each instance with its bytes, from a multiple of 256 on,
/// and each path with its vertices, its sprite and its command. What is not drawn takes no room.
pub proof fn law_batches_have_their_room(offset: int, batch: Batch, sizes: PathSizes)
    requires
        offset >= 0,
    ensures
        ({
            let (start, end) = batch_span(offset, batch, sizes);
            match batch {
                Batch::Instances { count, stride } => {
                    &&& end - start == stride * count
                    &&& count > 0 ==> start % 256 == 0 && offset <= start < offset + 256
                    &&& count == 0 ==> start == offset
                },
                Batch::Paths { vertex_counts } => {
                    &&& start == offset
                    &&& end - start == sizes.vertex * vertex_total(vertex_counts@) + sizes.sprite
                        * vertex_counts@.len() + sizes.command * vertex_counts@.len()
                },
                Batch::Surfaces => start == offset && end == offset,
            }
        }),
{
    match batch {
        Batch::Instances { count, stride } => {
            if count == 0 {
                assert(stride * count == 0) by (nonlinear_arith)
                    requires
                        count == 0,
                ;
            }
        },
        Batch::Paths { vertex_counts } => {
            if vertex_counts@.len() == 0 {
                let (v, s, c) = (sizes.vertex as int, sizes.sprite as int, sizes.command as int);
                let t = vertex_total(vertex_counts@);
                let n = vertex_counts@.len() as int;
                assert(v * t + s * n + c * n == 0) by (nonlinear_arith)
                    requires
                        t == 0,
                        n == 0,
                ;
            }
        },
        Batch::Surfaces => {},
    }
}

/// The parts of paths stand one behind the other, each with room for what it holds.
pub proof fn law_parts_of_paths_do_not_overlap(offset: int, counts: Seq<usize>, sizes: PathSizes)
    ensures
        offset <= vertices_end(offset, counts, sizes) <= sprites_end(offset, counts, sizes)
            <= paths_end(offset, counts, sizes),
        vertices_end(offset, counts, sizes) - offset == vertex_total(counts) * sizes.vertex,
        sprites_end(offset, counts, sizes) - vertices_end(offset, counts, sizes) == counts.len()
            * sizes.sprite,
        paths_end(offset, counts, sizes) - sprites_end(offset, counts, sizes) == counts.len()
            * sizes.command,
{
    lemma_vertex_total_nonnegative(counts);
    let (v, s, c) = (sizes.vertex as int, sizes.sprite as int, sizes.command as int);
    let (t, n) = (vertex_total(counts), counts.len() as int);
    assert(v * t >= 0 && s * n >= 0 && c * n >= 0 && v * t == t * v && s * n == n * s && c * n == n
        * c) by (nonlinear_arith)
        requires
            v >= 0,
            s >= 0,
            c >= 0,
            t >= 0,
            n >= 0,
    ;
}

/// There is one command for each path: it draws the vertices of that path once, from where those of
/// the paths before it end.
pub proof fn law_every_path_is_drawn(counts: Seq<usize>, i: int)
    requires
        0 <= i < counts.len() <= u32::MAX,
        vertex_total(counts) <= u32::MAX,
    ensures
        commands_for(counts).len() == counts.len(),
        ({
            let command = commands_for(counts)[i];
            &&& command.vertex_count == counts[i]
            &&& command.instance_count == 1
            &&& command.base_instance == i
            &&& command.vertex_start == vertex_total(counts.take(i))
            &&& command.vertex_start + command.vertex_count <= vertex_total(counts)
            &&& i == 0 ==> command.vertex_start == 0
            &&& i > 0 ==> command.vertex_start == commands_for(counts)[i - 1].vertex_start
                + commands_for(counts)[i - 1].vertex_count
            &&& i == counts.len() - 1 ==> command.vertex_start + command.vertex_count
                == vertex_total(counts)
        }),
    decreases counts.len(),
{
    let before = counts.drop_last();
    lemma_vertex_total_nonnegative(before);
    lemma_commands_len(counts);
    lemma_commands_len(before);
    if i < counts.len() - 1 {
        law_every_path_is_drawn(before, i);
        assert(counts.take(i) =~= before.take(i));
        assert(commands_for(counts)[i] == commands_for(before)[i]);
        if i > 0 {
            assert(commands_for(counts)[i - 1] == commands_for(before)[i - 1]);
        }
    } else {
        assert(counts.take(i) =~= before);
        if i > 0 {
            law_every_path_is_drawn(before, i - 1);
            assert(commands_for(counts)[i - 1] == commands_for(before)[i - 1]);
        }
    }
}

proof fn lemma_commands_len(counts: Seq<usize>)
    ensures
        commands_for(counts).len() == counts.len(),
    decreases counts.len(),
{
    if counts.len() > 0 {
        lemma_commands_len(counts.drop_last());
    }
}

/// A pixel has as many samples as the device can do, and a texture for them is made exactly if there
/// is something to draw on and a pixel has more than one.
pub proof fn law_most_samples_are_used(
    supports_four: bool,
    supports_two: bool,
    width: u64,
    height: u64,
    sample_count: u64,
)
    ensures
        samples_for(supports_four, supports_two) >= 4 <==> supports_four,
        samples_for(supports_four, supports_two) >= 2 <==> supports_four || supports_two,
        samples_for(supports_four, supports_two) == 1 || samples_for(supports_four, supports_two)
            == 2 || samples_for(supports_four, supports_two) == 4,
        is_sampled(width, height, sample_count) <==> width > 0 && height > 0 && sample_count >= 2,
{
}

/// What is told of a scene that does not fit begins with its paths and ends with its surfaces.
pub proof fn law_large_scenes_are_told(scene: SceneCounts)
    ensures
        ("scene too large: "@ + text::decimal(scene.paths as nat) + " paths, "@).is_prefix_of(
            too_large(scene),
        ),
        (text::decimal(scene.surfaces as nat) + " surfaces"@).is_suffix_of(too_large(scene)),
{
    let message = too_large(scene);
    let start = "scene too large: "@ + text::decimal(scene.paths as nat) + " paths, "@;
    let end = text::decimal(scene.surfaces as nat) + " surfaces"@;
    assert(message.subrange(0, start.len() as int) =~= start);
    assert(message.subrange(message.len() - end.len(), message.len() as int) =~= end);
}

} // verus!
