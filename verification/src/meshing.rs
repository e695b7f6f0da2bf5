//! Greedy merging of visible block faces into rectangles.
//!
//! For each of the six face directions the chunk is swept layer by layer
//! along the face's normal. Within a layer, cells are visited row by row;
//! a visible cell that no earlier rectangle has taken starts a rectangle,
//! which grows along the row while the material stays the same, and then row
//! by row while every cell across its width still matches.

use vstd::prelude::*;
use crate::block::{Block, BlockType};
use crate::chunk::ChunkGrid;
use crate::geometry::{
    in_chunk, lemma_parts_of_place, lemma_place_of_parts, linear_index, neighbor, position_at,
    world_point, Axis, Face, IVec3, Point, CHUNK_VOLUME,
};
use crate::occupancy::chunk_occupancy;
use crate::visibility::{
    lemma_own_neighbors, lemma_visibility_at, visibility_of, visible_in, VisibilityMap,
};

verus! {

/// A rectangle of cells in one layer of a sweep. Cells of a sweep are named
/// by their place in sweep order, `u + 16*v + 256*n`: `n` counts the layers
/// along the normal, `v` the rows of a layer and `u` the cells of a row.
#[derive(Debug, PartialEq, Eq, Structural, Clone, Copy)]
pub struct MaskRect {
    /// Place of the cell with the least `u` and `v`.
    pub start: usize,
    /// Cells along `u`.
    pub width: usize,
    /// Cells along `v`.
    pub height: usize,
    /// The material of every cell of the rectangle.
    pub material: BlockType,
}

/// Whether the rectangle contains the cell at place `s` of the sweep.
pub open spec fn rect_covers(r: MaskRect, s: int) -> bool {
    &&& s / 256 == r.start as int / 256
    &&& r.start as int % 16 <= s % 16 < r.start as int % 16 + r.width
    &&& (r.start as int / 16) % 16 <= (s / 16) % 16 < (r.start as int / 16) % 16 + r.height
}

/// Whether the cell at place `s` shows material `m` and is not yet taken.
pub open spec fn free_at(mask: Seq<Option<BlockType>>, used: Seq<bool>, s: int, m: BlockType) -> bool {
    0 <= s < CHUNK_VOLUME && mask[s] == Some(m) && !used[s]
}

/// How far a rectangle that starts at `s` and already spans `w` cells of its
/// row grows along the row: until the row ends or a cell does not match.
pub open spec fn run_width(
    mask: Seq<Option<BlockType>>,
    used: Seq<bool>,
    s: int,
    m: BlockType,
    w: int,
) -> int
    decreases 16 - w,
{
    if w < 16 && s % 16 + w < 16 && free_at(mask, used, s + w, m) {
        run_width(mask, used, s, m, w + 1)
    } else {
        w
    }
}

/// Whether the `w` cells of a row that begin at place `s` all match.
pub open spec fn row_free(
    mask: Seq<Option<BlockType>>,
    used: Seq<bool>,
    s: int,
    m: BlockType,
    w: int,
) -> bool {
    forall|t: int| s <= t < s + w ==> #[trigger] free_at(mask, used, t, m)
}

/// How far a rectangle of width `w` that starts at `s` and already spans `h`
/// rows grows across rows: until the layer ends or a row does not match
/// across the whole width.
pub open spec fn run_height(
    mask: Seq<Option<BlockType>>,
    used: Seq<bool>,
    s: int,
    m: BlockType,
    w: int,
    h: int,
) -> int
    decreases 16 - h,
{
    if h < 16 && (s / 16) % 16 + h < 16 && row_free(mask, used, s + 16 * h, m, w) {
        run_height(mask, used, s, m, w, h + 1)
    } else {
        h
    }
}

/// The rectangle that greedy growth gives from the free cell at place `s`.
pub open spec fn rect_from(mask: Seq<Option<BlockType>>, used: Seq<bool>, s: int) -> MaskRect {
    let m = mask[s]->0;
    let w = run_width(mask, used, s, m, 1);
    MaskRect {
        start: s as usize,
        width: w as usize,
        height: run_height(mask, used, s, m, w, 1) as usize,
        material: m,
    }
}

/// The taken cells after a rectangle has been emitted.
pub open spec fn mark(used: Seq<bool>, r: MaskRect) -> Seq<bool> {
    Seq::new(CHUNK_VOLUME as nat, |s: int| used[s] || rect_covers(r, s))
}

/// The rectangles that the sweep emits from place `s` on, given the cells
/// taken so far.
pub open spec fn greedy_from(mask: Seq<Option<BlockType>>, used: Seq<bool>, s: int) -> Seq<
    MaskRect,
>
    decreases CHUNK_VOLUME - s,
{
    if s < 0 || s >= CHUNK_VOLUME {
        Seq::empty()
    } else if mask[s] is Some && !used[s] {
        let r = rect_from(mask, used, s);
        seq![r] + greedy_from(mask, mark(used, r), s + 1)
    } else {
        greedy_from(mask, used, s + 1)
    }
}

/// The rectangles that the sweep of a mask emits, in the order of emission.
pub open spec fn greedy_rects(mask: Seq<Option<BlockType>>) -> Seq<MaskRect> {
    greedy_from(mask, Seq::new(CHUNK_VOLUME as nat, |s: int| false), 0)
}

/// The taken cells while a rectangle is being entered: the rows before
/// `rows` are entered in full, and of row `rows` the first `cols` cells.
spec fn mark_partial(used: Seq<bool>, r: MaskRect, rows: int, cols: int) -> Seq<bool> {
    Seq::new(
        CHUNK_VOLUME as nat,
        |s: int|
            used[s] || (rect_covers(r, s) && {
                let row = (s / 16) % 16 - (r.start as int / 16) % 16;
                let col = s % 16 - r.start as int % 16;
                row < rows || (row == rows && col < cols)
            }),
    )
}

/// The cell `j` places along the row and `i` rows up from the start of a
/// rectangle is the one cell of the rectangle in that column and row.
proof fn lemma_rect_cell(r: MaskRect, i: int, j: int, s: int)
    requires
        r.start < CHUNK_VOLUME,
        r.start % 16 + r.width <= 16,
        (r.start / 16) % 16 + r.height <= 16,
        0 <= i < r.height,
        0 <= j < r.width,
    ensures
        0 <= r.start + 16 * i + j < CHUNK_VOLUME,
        (s == r.start + 16 * i + j) <==> (rect_covers(r, s) && (s / 16) % 16 - (r.start as int
            / 16) % 16 == i && s % 16 - r.start as int % 16 == j),
{
    let a = r.start as int;
    lemma_parts_of_place(a);
    lemma_parts_of_place(s);
    lemma_place_of_parts(a % 16 + j, (a / 16) % 16 + i, a / 256);
}

fn is_free(mask: &Vec<Option<BlockType>>, used: &Vec<bool>, s: usize, m: BlockType) -> (r: bool)
    requires
        mask@.len() == CHUNK_VOLUME,
        used@.len() == CHUNK_VOLUME,
        s < CHUNK_VOLUME,
    ensures
        r == free_at(mask@, used@, s as int, m),
{
    match mask[s] {
        Some(x) => x == m && !used[s],
        None => false,
    }
}

fn grow_width(mask: &Vec<Option<BlockType>>, used: &Vec<bool>, s: usize, m: BlockType) -> (w:
    usize)
    requires
        mask@.len() == CHUNK_VOLUME,
        used@.len() == CHUNK_VOLUME,
        s < CHUNK_VOLUME,
    ensures
        w == run_width(mask@, used@, s as int, m, 1),
        1 <= w,
        s % 16 + w <= 16,
{
    let mut w: usize = 1;
    while s % 16 + w < 16 && is_free(mask, used, s + w, m)
        invariant
            mask@.len() == CHUNK_VOLUME,
            used@.len() == CHUNK_VOLUME,
            s < CHUNK_VOLUME,
            1 <= w,
            s % 16 + w <= 16,
            run_width(mask@, used@, s as int, m, w as int) == run_width(
                mask@,
                used@,
                s as int,
                m,
                1,
            ),
        decreases 16 - w,
    {
        w += 1;
    }
    w
}

fn is_row_free(
    mask: &Vec<Option<BlockType>>,
    used: &Vec<bool>,
    s: usize,
    m: BlockType,
    w: usize,
) -> (r: bool)
    requires
        mask@.len() == CHUNK_VOLUME,
        used@.len() == CHUNK_VOLUME,
        s + w <= CHUNK_VOLUME,
    ensures
        r == row_free(mask@, used@, s as int, m, w as int),
{
    let mut j: usize = 0;
    while j < w
        invariant
            mask@.len() == CHUNK_VOLUME,
            used@.len() == CHUNK_VOLUME,
            s + w <= CHUNK_VOLUME,
            j <= w,
            forall|t: int| s <= t < s + j ==> #[trigger] free_at(mask@, used@, t, m),
        decreases w - j,
    {
        if !is_free(mask, used, s + j, m) {
            return false;
        }
        j += 1;
    }
    true
}

fn grow_height(
    mask: &Vec<Option<BlockType>>,
    used: &Vec<bool>,
    s: usize,
    m: BlockType,
    w: usize,
) -> (h: usize)
    requires
        mask@.len() == CHUNK_VOLUME,
        used@.len() == CHUNK_VOLUME,
        s < CHUNK_VOLUME,
        1 <= w,
        s % 16 + w <= 16,
    ensures
        h == run_height(mask@, used@, s as int, m, w as int, 1),
        1 <= h,
        (s / 16) % 16 + h <= 16,
{
    let mut h: usize = 1;
    while (s / 16) % 16 + h < 16 && is_row_free(mask, used, s + 16 * h, m, w)
        invariant
            mask@.len() == CHUNK_VOLUME,
            used@.len() == CHUNK_VOLUME,
            s < CHUNK_VOLUME,
            1 <= w,
            s % 16 + w <= 16,
            1 <= h,
            (s / 16) % 16 + h <= 16,
            run_height(mask@, used@, s as int, m, w as int, h as int) == run_height(
                mask@,
                used@,
                s as int,
                m,
                w as int,
                1,
            ),
        decreases 16 - h,
    {
        h += 1;
    }
    h
}

fn enter(used: &mut Vec<bool>, r: MaskRect)
    requires
        old(used)@.len() == CHUNK_VOLUME,
        r.start < CHUNK_VOLUME,
        r.start % 16 + r.width <= 16,
        (r.start / 16) % 16 + r.height <= 16,
    ensures
        final(used)@ == mark(old(used)@, r),
{
    let ghost before = used@;
    let mut i: usize = 0;
    while i < r.height
        invariant
            used@.len() == CHUNK_VOLUME,
            before.len() == CHUNK_VOLUME,
            r.start < CHUNK_VOLUME,
            r.start % 16 + r.width <= 16,
            (r.start / 16) % 16 + r.height <= 16,
            i <= r.height,
            used@ == mark_partial(before, r, i as int, 0),
        decreases r.height - i,
    {
        let mut j: usize = 0;
        while j < r.width
            invariant
                used@.len() == CHUNK_VOLUME,
                before.len() == CHUNK_VOLUME,
                r.start < CHUNK_VOLUME,
                r.start % 16 + r.width <= 16,
                (r.start / 16) % 16 + r.height <= 16,
                i < r.height,
                j <= r.width,
                used@ == mark_partial(before, r, i as int, j as int),
            decreases r.width - j,
        {
            proof {
                lemma_rect_cell(r, i as int, j as int, 0);
            }
            let t: usize = r.start + 16 * i + j;
            used[t] = true;
            proof {
                assert forall|s: int| 0 <= s < CHUNK_VOLUME implies used@[s] == mark_partial(
                    before,
                    r,
                    i as int,
                    j + 1,
                )[s] by {
                    lemma_rect_cell(r, i as int, j as int, s);
                }
            }
            j += 1;
        }
        i += 1;
    }
}

/// The rectangles that the sweep of a mask emits.
fn merge_mask(mask: &Vec<Option<BlockType>>) -> (rects: Vec<MaskRect>)
    requires
        mask@.len() == CHUNK_VOLUME,
    ensures
        rects@ == greedy_rects(mask@),
{
    let mut used: Vec<bool> = Vec::with_capacity(CHUNK_VOLUME);
    let mut k: usize = 0;
    while k < CHUNK_VOLUME
        invariant
            k <= CHUNK_VOLUME,
            used@.len() == k,
            forall|j: int| 0 <= j < k ==> !used@[j],
        decreases CHUNK_VOLUME - k,
    {
        used.push(false);
        k += 1;
    }
    assert(used@ =~= Seq::new(CHUNK_VOLUME as nat, |s: int| false));
    let mut rects: Vec<MaskRect> = Vec::new();
    let mut s: usize = 0;
    while s < CHUNK_VOLUME
        invariant
            s <= CHUNK_VOLUME,
            mask@.len() == CHUNK_VOLUME,
            used@.len() == CHUNK_VOLUME,
            greedy_rects(mask@) == rects@ + greedy_from(mask@, used@, s as int),
        decreases CHUNK_VOLUME - s,
    {
        match mask[s] {
            Some(m) => {
                if !used[s] {
                    let ghost before = used@;
                    let ghost emitted = rects@;
                    let w = grow_width(mask, &used, s, m);
                    let h = grow_height(mask, &used, s, m, w);
                    let r = MaskRect { start: s, width: w, height: h, material: m };
                    enter(&mut used, r);
                    rects.push(r);
                    assert(rects@ + greedy_from(mask@, used@, s + 1) =~= emitted + (seq![r]
                        + greedy_from(mask@, mark(before, r), s + 1)));
                }
            },
            None => {},
        }
        s += 1;
    }
    rects
}

/// Growth along the row stops within the row and passes matching cells only.
proof fn lemma_run_width(
    mask: Seq<Option<BlockType>>,
    used: Seq<bool>,
    s: int,
    m: BlockType,
    w: int,
)
    requires
        0 <= s < CHUNK_VOLUME,
        1 <= w,
        s % 16 + w <= 16,
        row_free(mask, used, s, m, w),
    ensures
        w <= run_width(mask, used, s, m, w),
        s % 16 + run_width(mask, used, s, m, w) <= 16,
        row_free(mask, used, s, m, run_width(mask, used, s, m, w)),
    decreases 16 - w,
{
    if w < 16 && s % 16 + w < 16 && free_at(mask, used, s + w, m) {
        lemma_run_width(mask, used, s, m, w + 1);
    }
}

/// Growth across rows stops within the layer and passes matching rows only.
proof fn lemma_run_height(
    mask: Seq<Option<BlockType>>,
    used: Seq<bool>,
    s: int,
    m: BlockType,
    w: int,
    h: int,
)
    requires
        0 <= s < CHUNK_VOLUME,
        1 <= h,
        (s / 16) % 16 + h <= 16,
        forall|i: int| 0 <= i < h ==> #[trigger] row_free(mask, used, s + 16 * i, m, w),
    ensures
        h <= run_height(mask, used, s, m, w, h),
        (s / 16) % 16 + run_height(mask, used, s, m, w, h) <= 16,
        forall|i: int|
            0 <= i < run_height(mask, used, s, m, w, h) ==> #[trigger] row_free(
                mask,
                used,
                s + 16 * i,
                m,
                w,
            ),
    decreases 16 - h,
{
    if h < 16 && (s / 16) % 16 + h < 16 && row_free(mask, used, s + 16 * h, m, w) {
        lemma_run_height(mask, used, s, m, w, h + 1);
    }
}

/// The rectangle grown from a free cell contains that cell, stays inside
/// its layer, and consists of free cells of one material.
proof fn lemma_rect_from(mask: Seq<Option<BlockType>>, used: Seq<bool>, s: int)
    requires
        mask.len() == CHUNK_VOLUME,
        used.len() == CHUNK_VOLUME,
        0 <= s < CHUNK_VOLUME,
        mask[s] is Some,
        !used[s],
    ensures
        ({
            let r = rect_from(mask, used, s);
            &&& r.start == s
            &&& r.material == mask[s]->0
            &&& 1 <= r.width
            &&& 1 <= r.height
            &&& s % 16 + r.width <= 16
            &&& (s / 16) % 16 + r.height <= 16
            &&& rect_covers(r, s)
            &&& forall|t: int| #[trigger] rect_covers(r, t) ==> free_at(mask, used, t, r.material)
        }),
{
    let m = mask[s]->0;
    lemma_run_width(mask, used, s, m, 1);
    let w = run_width(mask, used, s, m, 1);
    lemma_run_height(mask, used, s, m, w, 1);
    let r = rect_from(mask, used, s);
    assert forall|t: int| #[trigger] rect_covers(r, t) implies free_at(mask, used, t, m) by {
        let i = (t / 16) % 16 - (s / 16) % 16;
        let j = t % 16 - s % 16;
        lemma_rect_cell(r, i, j, t);
        assert(row_free(mask, used, s + 16 * i, m, w));
    }
}

/// Whether no cell before place `s` is still free.
spec fn swept(mask: Seq<Option<BlockType>>, used: Seq<bool>, s: int) -> bool {
    forall|t: int| 0 <= t < s && (#[trigger] mask[t]) is Some ==> used[t]
}

/// Whether `rects` split the free cells of a mask among themselves: each
/// rectangle holds free cells of its own material only, every free cell is
/// in a rectangle, and no cell is in two.
pub open spec fn splits_free_cells(
    rects: Seq<MaskRect>,
    mask: Seq<Option<BlockType>>,
    used: Seq<bool>,
) -> bool {
    &&& forall|k: int, t: int|
        0 <= k < rects.len() && #[trigger] rect_covers(rects[k], t) ==> free_at(
            mask,
            used,
            t,
            rects[k].material,
        )
    &&& forall|t: int|
        0 <= t < CHUNK_VOLUME && (#[trigger] mask[t]) is Some && !used[t] ==> exists|k: int|
            0 <= k < rects.len() && #[trigger] rect_covers(rects[k], t)
    &&& forall|k1: int, k2: int, t: int|
        0 <= k1 < rects.len() && 0 <= k2 < rects.len() && #[trigger] rect_covers(rects[k1], t)
            && #[trigger] rect_covers(rects[k2], t) ==> k1 == k2
}

/// Once everything before place `s` is taken, what the sweep emits from `s`
/// on splits the cells that are still free.
proof fn lemma_greedy_from_splits(mask: Seq<Option<BlockType>>, used: Seq<bool>, s: int)
    requires
        mask.len() == CHUNK_VOLUME,
        used.len() == CHUNK_VOLUME,
        0 <= s <= CHUNK_VOLUME,
        swept(mask, used, s),
    ensures
        splits_free_cells(greedy_from(mask, used, s), mask, used),
    decreases CHUNK_VOLUME - s,
{
    let rects = greedy_from(mask, used, s);
    if s >= CHUNK_VOLUME {
    } else if mask[s] is Some && !used[s] {
        let r = rect_from(mask, used, s);
        let taken = mark(used, r);
        let rest = greedy_from(mask, taken, s + 1);
        lemma_rect_from(mask, used, s);
        lemma_greedy_from_splits(mask, taken, s + 1);
        // The sweep emits `r` and then `rest`; `rest` splits what `r` left
        // free, and `r` holds free cells only.
        assert forall|k: int| 1 <= k < rects.len() implies #[trigger] rects[k] == rest[k - 1] by {}
        assert forall|t: int|
            0 <= t < CHUNK_VOLUME && (#[trigger] mask[t]) is Some && !used[t] implies exists|
            k: int,
        | 0 <= k < rects.len() && #[trigger] rect_covers(rects[k], t) by {
            if rect_covers(r, t) {
                assert(rect_covers(rects[0], t));
            } else {
                let k = choose|k: int| 0 <= k < rest.len() && #[trigger] rect_covers(rest[k], t);
                assert(rect_covers(rects[k + 1], t));
            }
        }
    } else {
        lemma_greedy_from_splits(mask, used, s + 1);
    }
}

/// The rectangles of a sweep cover exactly the cells that the mask shows,
/// each cell once, and each rectangle is of one material.
pub proof fn lemma_greedy_rects_split_mask(mask: Seq<Option<BlockType>>)
    requires
        mask.len() == CHUNK_VOLUME,
    ensures
        splits_free_cells(
            greedy_rects(mask),
            mask,
            Seq::new(CHUNK_VOLUME as nat, |s: int| false),
        ),
{
    lemma_greedy_from_splits(mask, Seq::new(CHUNK_VOLUME as nat, |s: int| false), 0);
}

/// A rectangle of block faces that all look the same way and show the same
/// material.
#[derive(Debug, PartialEq, Eq, Structural, Clone, Copy)]
pub struct Quad {
    /// The direction the faces look in.
    pub face: Face,
    /// Local position of the cell of the rectangle with the least
    /// coordinates.
    pub minimum: IVec3,
    /// Cells along the first in-plane axis of the face.
    pub width: u32,
    /// Cells along the second in-plane axis of the face.
    pub height: u32,
    /// The material of every cell of the rectangle.
    pub material: BlockType,
}

/// A local position in the coordinates of a sweep: the layer along the
/// normal, then the place along the first and along the second in-plane
/// axis. Faces across X count rows along Y and cells along Z; faces across Y
/// count rows along X and cells along Z; faces across Z count rows along Y
/// and cells along X.
pub open spec fn face_coords(axis: Axis, p: Point) -> (int, int, int) {
    match axis {
        Axis::X => (p.0, p.2, p.1),
        Axis::Y => (p.1, p.2, p.0),
        Axis::Z => (p.2, p.0, p.1),
    }
}

/// The local cell at place `s` of the sweep along `axis`.
pub open spec fn sweep_cell(axis: Axis, s: int) -> Point {
    let n = s / 256;
    let v = (s / 16) % 16;
    let u = s % 16;
    match axis {
        Axis::X => (n, v, u),
        Axis::Y => (v, n, u),
        Axis::Z => (u, v, n),
    }
}

/// The place of a local cell in the sweep along `axis`.
pub open spec fn sweep_place(axis: Axis, p: Point) -> int {
    let c = face_coords(axis, p);
    c.1 + 16 * c.2 + 256 * c.0
}

/// What a cell shows to the mesher: its material if the block is visible and
/// not air, nothing otherwise.
pub open spec fn mask_entry(cells: Seq<Block>, flags: Seq<bool>, p: Point) -> Option<BlockType> {
    let i = linear_index(p);
    if flags[i] && cells[i].occupied() {
        Some(cells[i].0)
    } else {
        None
    }
}

/// What the cells show, in the order of the sweep along `axis`.
pub open spec fn face_mask(cells: Seq<Block>, flags: Seq<bool>, axis: Axis) -> Seq<
    Option<BlockType>,
> {
    Seq::new(CHUNK_VOLUME as nat, |s: int| mask_entry(cells, flags, sweep_cell(axis, s)))
}

/// The quad of a face direction that a rectangle of the sweep stands for.
pub open spec fn quad_of(face: Face, r: MaskRect) -> Quad {
    Quad {
        face,
        minimum: position_at(sweep_cell(face.spec_axis(), r.start as int)),
        width: r.width as u32,
        height: r.height as u32,
        material: r.material,
    }
}

/// The merged quads of one face direction, in the order of the sweep.
pub open spec fn face_quads(cells: Seq<Block>, flags: Seq<bool>, face: Face) -> Seq<Quad> {
    let rects = greedy_rects(face_mask(cells, flags, face.spec_axis()));
    Seq::new(rects.len(), |k: int| quad_of(face, rects[k]))
}

/// The merged quads of all six face directions: those of -X first, then -Y,
/// -Z, +X, +Y and +Z.
pub open spec fn all_quads(cells: Seq<Block>, flags: Seq<bool>) -> Seq<Quad> {
    face_quads(cells, flags, Face::NegX) + face_quads(cells, flags, Face::NegY) + face_quads(
        cells,
        flags,
        Face::NegZ,
    ) + face_quads(cells, flags, Face::PosX) + face_quads(cells, flags, Face::PosY)
        + face_quads(cells, flags, Face::PosZ)
}

/// Whether the quad contains the face of the cell at local position `p`.
pub open spec fn quad_covers(q: Quad, p: Point) -> bool {
    let c = face_coords(q.face.spec_axis(), p);
    let c0 = face_coords(q.face.spec_axis(), q.minimum@);
    &&& c.0 == c0.0
    &&& c0.1 <= c.1 < c0.1 + q.width
    &&& c0.2 <= c.2 < c0.2 + q.height
}

/// Whether a quad has at least one cell and all its cells are cells of the
/// chunk.
pub open spec fn quad_in_chunk(q: Quad) -> bool {
    let c = face_coords(q.face.spec_axis(), q.minimum@);
    &&& in_chunk(q.minimum@)
    &&& 1 <= q.width
    &&& 1 <= q.height
    &&& c.1 + q.width <= 16
    &&& c.2 + q.height <= 16
}

/// Merges the visible faces of a chunk into quads.
pub struct GreedyMesher;

impl GreedyMesher {
    /// What the cells of a chunk show, in the order of the sweep along
    /// `axis`.
    fn build_mask(grid: &ChunkGrid, visibility: &VisibilityMap, axis: Axis) -> (mask: Vec<
        Option<BlockType>,
    >)
        ensures
            mask@ == face_mask(grid@, visibility@, axis),
    {
        proof {
            use_type_invariant(grid);
            use_type_invariant(visibility);
        }
        let mut mask: Vec<Option<BlockType>> = Vec::with_capacity(CHUNK_VOLUME);
        let mut s: usize = 0;
        while s < CHUNK_VOLUME
            invariant
                s <= CHUNK_VOLUME,
                grid.wf(),
                visibility.wf(),
                mask@.len() == s,
                forall|t: int|
                    0 <= t < s ==> mask@[t] == mask_entry(
                        grid@,
                        visibility@,
                        sweep_cell(axis, t),
                    ),
            decreases CHUNK_VOLUME - s,
        {
            let n: usize = s / 256;
            let v: usize = (s / 16) % 16;
            let u: usize = s % 16;
            let i: usize = match axis {
                Axis::X => n + 16 * v + 256 * u,
                Axis::Y => v + 16 * n + 256 * u,
                Axis::Z => u + 16 * v + 256 * n,
            };
            let block = grid.cell(i);
            let entry = if visibility.flag(i) && block.is_occupied() {
                Some(block.0)
            } else {
                None
            };
            mask.push(entry);
            s += 1;
        }
        mask
    }

    /// The merged quads of one face direction, in the order of the sweep.
    /// A cell takes part when its block is flagged visible and is not air.
    pub fn merge_face(grid: &ChunkGrid, visibility: &VisibilityMap, face: Face) -> (quads: Vec<
        Quad,
    >)
        ensures
            quads@ == face_quads(grid@, visibility@, face),
    {
        let axis = face.axis();
        let mask = Self::build_mask(grid, visibility, axis);
        let rects = merge_mask(&mask);
        let mut quads: Vec<Quad> = Vec::with_capacity(rects.len());
        let mut k: usize = 0;
        while k < rects.len()
            invariant
                k <= rects.len(),
                axis == face.spec_axis(),
                rects@ == greedy_rects(mask@),
                mask@.len() == CHUNK_VOLUME,
                quads@.len() == k,
                forall|j: int| 0 <= j < k ==> quads@[j] == quad_of(face, rects@[j]),
            decreases rects.len() - k,
        {
            let r = rects[k];
            proof {
                lemma_rect_bounds(rects@, mask@, k as int);
            }
            let n: usize = r.start / 256;
            let v: usize = (r.start / 16) % 16;
            let u: usize = r.start % 16;
            let minimum = match axis {
                Axis::X => IVec3 { x: n as i32, y: v as i32, z: u as i32 },
                Axis::Y => IVec3 { x: v as i32, y: n as i32, z: u as i32 },
                Axis::Z => IVec3 { x: u as i32, y: v as i32, z: n as i32 },
            };
            quads.push(
                Quad {
                    face,
                    minimum,
                    width: r.width as u32,
                    height: r.height as u32,
                    material: r.material,
                },
            );
            k += 1;
        }
        quads
    }

    /// The merged quads of all six face directions: those of -X first, then
    /// -Y, -Z, +X, +Y and +Z, each group in the order of its sweep.
    pub fn merge(grid: &ChunkGrid, visibility: &VisibilityMap) -> (quads: Vec<Quad>)
        ensures
            quads@ == all_quads(grid@, visibility@),
    {
        let mut quads = Self::merge_face(grid, visibility, Face::NegX);
        let mut next = Self::merge_face(grid, visibility, Face::NegY);
        quads.append(&mut next);
        let mut next = Self::merge_face(grid, visibility, Face::NegZ);
        quads.append(&mut next);
        let mut next = Self::merge_face(grid, visibility, Face::PosX);
        quads.append(&mut next);
        let mut next = Self::merge_face(grid, visibility, Face::PosY);
        quads.append(&mut next);
        let mut next = Self::merge_face(grid, visibility, Face::PosZ);
        quads.append(&mut next);
        quads
    }
}

/// A rectangle that the sweep emitted starts in the chunk, is at least one
/// cell wide and high, and stays inside its layer.
proof fn lemma_rect_bounds(rects: Seq<MaskRect>, mask: Seq<Option<BlockType>>, k: int)
    requires
        mask.len() == CHUNK_VOLUME,
        rects == greedy_rects(mask),
        0 <= k < rects.len(),
    ensures
        rects[k].start < CHUNK_VOLUME,
        1 <= rects[k].width,
        1 <= rects[k].height,
        rects[k].start % 16 + rects[k].width <= 16,
        (rects[k].start / 16) % 16 + rects[k].height <= 16,
{
    lemma_greedy_from_bounds(mask, Seq::new(CHUNK_VOLUME as nat, |s: int| false), 0, k);
}

proof fn lemma_greedy_from_bounds(
    mask: Seq<Option<BlockType>>,
    used: Seq<bool>,
    s: int,
    k: int,
)
    requires
        mask.len() == CHUNK_VOLUME,
        used.len() == CHUNK_VOLUME,
        0 <= s <= CHUNK_VOLUME,
        0 <= k < greedy_from(mask, used, s).len(),
    ensures
        ({
            let r = greedy_from(mask, used, s)[k];
            &&& r.start < CHUNK_VOLUME
            &&& 1 <= r.width
            &&& 1 <= r.height
            &&& r.start % 16 + r.width <= 16
            &&& (r.start / 16) % 16 + r.height <= 16
        }),
    decreases CHUNK_VOLUME - s,
{
    if s >= CHUNK_VOLUME {
    } else if mask[s] is Some && !used[s] {
        let r = rect_from(mask, used, s);
        lemma_rect_from(mask, used, s);
        if k >= 1 {
            lemma_greedy_from_bounds(mask, mark(used, r), s + 1, k - 1);
        }
    } else {
        lemma_greedy_from_bounds(mask, used, s + 1, k);
    }
}

/// The sweep visits every cell of the chunk once: a cell's place names the
/// cell.
pub proof fn lemma_sweep_place_roundtrip(axis: Axis, p: Point)
    requires
        in_chunk(p),
    ensures
        0 <= sweep_place(axis, p) < CHUNK_VOLUME,
        sweep_cell(axis, sweep_place(axis, p)) == p,
{
    let c = face_coords(axis, p);
    lemma_place_of_parts(c.1, c.2, c.0);
}

/// A quad contains the face of a cell exactly when the rectangle it stands
/// for contains the cell's place in the sweep.
proof fn lemma_quad_covers_rect(face: Face, r: MaskRect, p: Point)
    requires
        r.start < CHUNK_VOLUME,
        r.start % 16 + r.width <= 16,
        (r.start / 16) % 16 + r.height <= 16,
    ensures
        quad_covers(quad_of(face, r), p) <==> in_chunk(p) && rect_covers(
            r,
            sweep_place(face.spec_axis(), p),
        ),
{
    let axis = face.spec_axis();
    let a = r.start as int;
    assert(face_coords(axis, sweep_cell(axis, a)) == (a / 256, a % 16, (a / 16) % 16));
    if in_chunk(p) {
        lemma_sweep_place_roundtrip(axis, p);
        let t = sweep_place(axis, p);
        let c = face_coords(axis, p);
        assert(t % 16 == c.1 && (t / 16) % 16 == c.2 && t / 256 == c.0);
    }
}

/// Merging loses and invents nothing. Taken back to single cells, the quads
/// of a face direction contain exactly the cells whose block is flagged
/// visible and is not air; no cell is in two quads; and every quad shows the
/// material of each of its cells.
pub proof fn lemma_quads_cover_visible_once(cells: Seq<Block>, flags: Seq<bool>, face: Face)
    requires
        cells.len() == CHUNK_VOLUME,
        flags.len() == CHUNK_VOLUME,
    ensures
        ({
            let quads = face_quads(cells, flags, face);
            &&& forall|k: int| 0 <= k < quads.len() ==> (#[trigger] quads[k]).face == face
            &&& forall|k: int, p: Point|
                0 <= k < quads.len() && #[trigger] quad_covers(quads[k], p) ==> in_chunk(p)
                    && mask_entry(cells, flags, p) == Some(quads[k].material)
            &&& forall|p: Point|
                in_chunk(p) && (#[trigger] mask_entry(cells, flags, p)) is Some ==> exists|k: int|
                    0 <= k < quads.len() && #[trigger] quad_covers(quads[k], p)
            &&& forall|k1: int, k2: int, p: Point|
                0 <= k1 < quads.len() && 0 <= k2 < quads.len() && #[trigger] quad_covers(
                    quads[k1],
                    p,
                ) && #[trigger] quad_covers(quads[k2], p) ==> k1 == k2
        }),
{
    let axis = face.spec_axis();
    let mask = face_mask(cells, flags, axis);
    let rects = greedy_rects(mask);
    let quads = face_quads(cells, flags, face);
    lemma_greedy_rects_split_mask(mask);
    // Quad `k` contains a cell exactly when rectangle `k` contains its place.
    assert forall|k: int, p: Point| 0 <= k < quads.len() implies (#[trigger] quad_covers(
        quads[k],
        p,
    ) <==> in_chunk(p) && rect_covers(rects[k], sweep_place(axis, p))) by {
        lemma_rect_bounds(rects, mask, k);
        lemma_quad_covers_rect(face, rects[k], p);
    }
    // The mask shows at a cell's place what the cell shows.
    assert forall|p: Point| in_chunk(p) implies 0 <= sweep_place(axis, p) < CHUNK_VOLUME && mask[
        sweep_place(axis, p)
    ] == #[trigger] mask_entry(cells, flags, p) by {
        lemma_sweep_place_roundtrip(axis, p);
    }
    assert forall|p: Point|
        in_chunk(p) && (#[trigger] mask_entry(cells, flags, p)) is Some implies exists|k: int|
        0 <= k < quads.len() && #[trigger] quad_covers(quads[k], p) by {
        let t = sweep_place(axis, p);
        let k = choose|k: int| 0 <= k < rects.len() && #[trigger] rect_covers(rects[k], t);
        assert(quad_covers(quads[k], p));
    }
}

/// Where no cell from place `s` up to place `e` is free, the sweep emits
/// from `s` on what it emits from `e` on.
proof fn lemma_sweep_skips(mask: Seq<Option<BlockType>>, used: Seq<bool>, s: int, e: int)
    requires
        0 <= s <= e <= CHUNK_VOLUME,
        forall|t: int| s <= t < e ==> !((#[trigger] mask[t]) is Some && !used[t]),
    ensures
        greedy_from(mask, used, s) == greedy_from(mask, used, e),
    decreases e - s,
{
    if s < e {
        assert(!(mask[s] is Some && !used[s]));
        lemma_sweep_skips(mask, used, s + 1, e);
    }
}

/// Growth along the row ends exactly where the row ends or the first cell
/// does not match.
proof fn lemma_run_width_ends(
    mask: Seq<Option<BlockType>>,
    used: Seq<bool>,
    s: int,
    m: BlockType,
    w: int,
    end: int,
)
    requires
        1 <= w <= end,
        s % 16 + end <= 16,
        row_free(mask, used, s, m, end),
        s % 16 + end == 16 || !free_at(mask, used, s + end, m),
    ensures
        run_width(mask, used, s, m, w) == end,
    decreases end - w,
{
    if w < end {
        assert(free_at(mask, used, s + w, m));
        lemma_run_width_ends(mask, used, s, m, w + 1, end);
    }
}

/// Growth across rows ends exactly where the layer ends or the first row
/// does not match across the whole width.
proof fn lemma_run_height_ends(
    mask: Seq<Option<BlockType>>,
    used: Seq<bool>,
    s: int,
    m: BlockType,
    w: int,
    h: int,
    end: int,
)
    requires
        1 <= h <= end,
        (s / 16) % 16 + end <= 16,
        forall|i: int| 0 <= i < end ==> #[trigger] row_free(mask, used, s + 16 * i, m, w),
        (s / 16) % 16 + end == 16 || !row_free(mask, used, s + 16 * end, m, w),
    ensures
        run_height(mask, used, s, m, w, h) == end,
    decreases end - h,
{
    if h < end {
        assert(row_free(mask, used, s + 16 * h, m, w));
        lemma_run_height_ends(mask, used, s, m, w, h + 1, end);
    }
}

/// A mask that shows one rectangle of one material, and nothing else, is
/// swept into that one rectangle.
pub proof fn lemma_rectangle_is_swept_whole(mask: Seq<Option<BlockType>>, r: MaskRect)
    requires
        mask.len() == CHUNK_VOLUME,
        r.start < CHUNK_VOLUME,
        1 <= r.width,
        1 <= r.height,
        r.start % 16 + r.width <= 16,
        (r.start / 16) % 16 + r.height <= 16,
        forall|s: int|
            0 <= s < CHUNK_VOLUME ==> #[trigger] mask[s] == if rect_covers(r, s) {
                Some(r.material)
            } else {
                None::<BlockType>
            },
    ensures
        greedy_rects(mask) == seq![r],
{
    let a = r.start as int;
    let m = r.material;
    let none = Seq::new(CHUNK_VOLUME as nat, |s: int| false);
    lemma_parts_of_place(a);
    // Every cell of the rectangle is at or after its start.
    assert forall|t: int| rect_covers(r, t) implies a <= t < CHUNK_VOLUME && t == a + 16 * ((t
        / 16) % 16 - (a / 16) % 16) + (t % 16 - a % 16) by {
        lemma_rect_cell(r, (t / 16) % 16 - (a / 16) % 16, t % 16 - a % 16, t);
    }
    assert(rect_covers(r, a));
    // Nothing is free before the start.
    lemma_sweep_skips(mask, none, 0, a);
    // At the start the rectangle grows to its full width and height.
    assert(row_free(mask, none, a, m, r.width as int)) by {
        assert forall|t: int| a <= t < a + r.width implies #[trigger] free_at(
            mask,
            none,
            t,
            m,
        ) by {
            lemma_rect_cell(r, 0, t - a, t);
        }
    }
    if a % 16 + r.width < 16 {
        lemma_place_of_parts(a % 16 + r.width, (a / 16) % 16, a / 256);
        assert(!rect_covers(r, a + r.width));
    }
    lemma_run_width_ends(mask, none, a, m, 1, r.width as int);
    assert forall|i: int| 0 <= i < r.height implies #[trigger] row_free(
        mask,
        none,
        a + 16 * i,
        m,
        r.width as int,
    ) by {
        assert forall|t: int| a + 16 * i <= t < a + 16 * i + r.width implies #[trigger] free_at(
            mask,
            none,
            t,
            m,
        ) by {
            lemma_rect_cell(r, i, t - (a + 16 * i), t);
        }
    }
    if (a / 16) % 16 + r.height < 16 {
        let below = a + 16 * r.height;
        lemma_place_of_parts(a % 16, (a / 16) % 16 + r.height, a / 256);
        assert(!rect_covers(r, below));
        assert(!free_at(mask, none, below, m));
    }
    lemma_run_height_ends(mask, none, a, m, r.width as int, 1, r.height as int);
    assert(rect_from(mask, none, a) == r);
    // After the rectangle is entered, nothing is free any more.
    let taken = mark(none, r);
    lemma_sweep_skips(mask, taken, a + 1, CHUNK_VOLUME as int);
    assert(greedy_from(mask, none, a) =~= seq![r]);
}

/// A place of the sweep names a cell of the chunk, and the cell names the
/// place.
pub proof fn lemma_sweep_cell_roundtrip(axis: Axis, s: int)
    requires
        0 <= s < CHUNK_VOLUME,
    ensures
        in_chunk(sweep_cell(axis, s)),
        sweep_place(axis, sweep_cell(axis, s)) == s,
{
    lemma_parts_of_place(s);
}

/// Where the cells that show anything to the mesher are exactly the cells of
/// one quad that lies in the chunk, and all show the quad's material, the
/// quads of the quad's face direction are that one quad.
pub proof fn lemma_rectangle_merges_into_one_quad(cells: Seq<Block>, flags: Seq<bool>, q: Quad)
    requires
        cells.len() == CHUNK_VOLUME,
        flags.len() == CHUNK_VOLUME,
        quad_in_chunk(q),
        forall|p: Point|
            in_chunk(p) ==> #[trigger] mask_entry(cells, flags, p) == if quad_covers(q, p) {
                Some(q.material)
            } else {
                None::<BlockType>
            },
    ensures
        face_quads(cells, flags, q.face) == seq![q],
{
    let axis = q.face.spec_axis();
    let mask = face_mask(cells, flags, axis);
    lemma_sweep_place_roundtrip(axis, q.minimum@);
    let start = sweep_place(axis, q.minimum@);
    let r = MaskRect {
        start: start as usize,
        width: q.width as usize,
        height: q.height as usize,
        material: q.material,
    };
    let c0 = face_coords(axis, q.minimum@);
    lemma_place_of_parts(c0.1, c0.2, c0.0);
    assert(quad_of(q.face, r) == q);
    assert forall|s: int| 0 <= s < CHUNK_VOLUME implies #[trigger] mask[s] == if rect_covers(
        r,
        s,
    ) {
        Some(r.material)
    } else {
        None::<BlockType>
    } by {
        let p = sweep_cell(axis, s);
        lemma_sweep_cell_roundtrip(axis, s);
        lemma_quad_covers_rect(q.face, r, p);
        assert(mask[s] == mask_entry(cells, flags, p));
    }
    lemma_rectangle_is_swept_whole(mask, r);
    assert(face_quads(cells, flags, q.face) =~= seq![q]);
}

/// A flat layer merges into one quad. In a lone chunk whose only blocks are
/// the cells of one quad, one layer thick and all of the quad's material,
/// every one of those blocks is visible, and the quads of the quad's face
/// direction are that one quad: a flat 4 by 4 layer gives one quad of 4 by
/// 4, neither sixteen single faces nor strips.
pub proof fn lemma_flat_layer_merges_into_one_quad(cells: Seq<Block>, chunk: Point, q: Quad)
    requires
        cells.len() == CHUNK_VOLUME,
        quad_in_chunk(q),
        q.material != BlockType::Air,
        forall|p: Point|
            in_chunk(p) ==> #[trigger] cells[linear_index(p)] == if quad_covers(q, p) {
                Block(q.material)
            } else {
                Block(BlockType::Air)
            },
    ensures
        face_quads(
            cells,
            visibility_of(cells, chunk, chunk_occupancy(cells, chunk)),
            q.face,
        ) == seq![q],
{
    let own = chunk_occupancy(cells, chunk);
    let flags = visibility_of(cells, chunk, own);
    let axis = q.face.spec_axis();
    let up = match axis {
        Axis::X => Face::PosX,
        Axis::Y => Face::PosY,
        Axis::Z => Face::PosZ,
    };
    assert forall|p: Point| in_chunk(p) implies #[trigger] mask_entry(cells, flags, p)
        == if quad_covers(q, p) {
        Some(q.material)
    } else {
        None::<BlockType>
    } by {
        lemma_visibility_at(cells, chunk, own, p);
        assert(cells[linear_index(p)] == if quad_covers(q, p) {
            Block(q.material)
        } else {
            Block(BlockType::Air)
        });
        if quad_covers(q, p) {
            // The cell above the layer is in another layer, so it holds air
            // or lies outside the chunk.
            let above = neighbor(p, up);
            lemma_own_neighbors(cells, chunk, p);
            assert(!quad_covers(q, above));
            if in_chunk(above) {
                assert(cells[linear_index(above)] == Block(BlockType::Air));
            }
            assert(!own.contains(neighbor(world_point(chunk, p), up)));
            assert(visible_in(cells, chunk, own, p));
        }
    }
    lemma_rectangle_merges_into_one_quad(cells, flags, q);
}

} // verus!
