//! The mesh builder: turns a walker's history into colored axis-aligned
//! rectangles placed and scaled into a viewport, either rebuilt in full or
//! patched incrementally.
//!
//! The viewport mapping is given precomputed in fixed point with 16
//! fractional bits per pixel: `origin` is where the origin lattice cell's
//! corner falls (the viewport's center), `scale` is the size of one cell
//! (viewport extent over zoom). A cell's rectangle starts at
//! `origin + position * scale` and spans one `scale` in each axis.
//! Historical cells fade from a base color toward a gradient target with
//! the fraction `index / history length`; the live position is drawn in a
//! distinct highlight color. The incremental path refreshes the colors of
//! the cells already placed (their gradient fractions change as the
//! history grows), turns the stale highlight rectangle into the history
//! cell its position now is, and appends only the newly added suffix plus
//! a fresh highlight — cell for cell the same mesh that a full rebuild
//! yields.

use vstd::prelude::*;

use crate::walker::{Position, RandomWalker};

verus! {

/// An opaque RGB color.
#[derive(Debug, Clone, Copy, PartialEq, Eq, Structural)]
pub struct Rgb {
    pub r: u8,
    pub g: u8,
    pub b: u8,
}

/// The viewport mapping in fixed point with 16 fractional bits per pixel:
/// where the origin cell's corner falls, and the size of one cell.
#[derive(Debug, Clone, Copy, PartialEq, Eq, Structural)]
pub struct Viewport {
    pub origin_x: i64,
    pub origin_y: i64,
    pub scale_x: i64,
    pub scale_y: i64,
}

impl Viewport {
    /// The mapping is bounded enough that every cell rectangle fits in
    /// `i64` fixed point: the origin within sixteen million pixels of
    /// zero and a cell no larger than 256 pixels.
    pub open spec fn wf(self) -> bool {
        &&& -0x100_0000_0000 <= self.origin_x <= 0x100_0000_0000
        &&& -0x100_0000_0000 <= self.origin_y <= 0x100_0000_0000
        &&& 0 <= self.scale_x <= 0x100_0000
        &&& 0 <= self.scale_y <= 0x100_0000
    }
}

/// One colored axis-aligned rectangle in viewport fixed point.
#[derive(Debug, Clone, Copy, PartialEq, Eq, Structural)]
pub struct CellRect {
    pub min_x: i64,
    pub min_y: i64,
    pub max_x: i64,
    pub max_y: i64,
    pub color: Rgb,
}

/// The rectangle of the cell at lattice position `p`.
pub open spec fn cell_rect(p: Position, v: Viewport, c: Rgb) -> CellRect {
    CellRect {
        min_x: (v.origin_x + v.scale_x * p.x) as i64,
        min_y: (v.origin_y + v.scale_y * p.y) as i64,
        max_x: (v.origin_x + v.scale_x * p.x + v.scale_x) as i64,
        max_y: (v.origin_y + v.scale_y * p.y + v.scale_y) as i64,
        color: c,
    }
}

/// Whether two rectangles cover the same area, whatever their colors.
pub open spec fn same_geometry(a: CellRect, b: CellRect) -> bool {
    &&& a.min_x == b.min_x
    &&& a.min_y == b.min_y
    &&& a.max_x == b.max_x
    &&& a.max_y == b.max_y
}

/// One color channel interpolated from `base` toward `target` by the
/// fraction `i / len`, rounded toward `base`.
pub open spec fn grad_channel(base: u8, target: u8, i: int, len: int) -> u8 {
    if target >= base {
        (base + (i * (target - base)) / len) as u8
    } else {
        (base - (i * (base - target)) / len) as u8
    }
}

/// The gradient color of the cell at history index `i` of `len`.
pub open spec fn grad_color(base: Rgb, target: Rgb, i: int, len: int) -> Rgb {
    Rgb {
        r: grad_channel(base.r, target.r, i, len),
        g: grad_channel(base.g, target.g, i, len),
        b: grad_channel(base.b, target.b, i, len),
    }
}

/// The mesh that a full rebuild yields: one gradient-colored cell per
/// history entry, in time order, then the live position in the highlight
/// color. An empty history yields only the highlight rectangle.
pub open spec fn full_mesh(
    hist: Seq<Position>,
    live: Position,
    v: Viewport,
    base: Rgb,
    target: Rgb,
    highlight: Rgb,
) -> Seq<CellRect> {
    Seq::new(hist.len(), |i: int| cell_rect(hist[i], v, grad_color(base, target, i, hist.len() as int)))
        .push(cell_rect(live, v, highlight))
}

/// What the incremental update needs of the mesh it patches: one
/// rectangle per history entry up to and including index `k`, each over
/// exactly its cell's area. The rectangle at index `k` is the stale
/// highlight: the live position of the frame the mesh was built for,
/// which is the position that history index `k` has recorded since.
pub open spec fn covers_prefix(mesh: Seq<CellRect>, hist: Seq<Position>, k: int, v: Viewport) -> bool {
    &&& mesh.len() == k + 1
    &&& forall|i: int|
        0 <= i <= k ==> same_geometry(#[trigger] mesh[i], cell_rect(hist[i], v, mesh[i].color))
}

/// Mesh equivalence, first half: a freshly built mesh at step `k` is
/// exactly what the incremental update asks to start from once the
/// history has grown past `k`. Together with the incremental update's
/// own contract, a full build at step `k` followed by incremental
/// updates equals a full build at the later step, cell for cell.
pub proof fn lemma_full_mesh_covers_prefix(
    hist: Seq<Position>,
    k: int,
    v: Viewport,
    base: Rgb,
    target: Rgb,
    highlight: Rgb,
)
    requires
        0 <= k < hist.len(),
    ensures
        covers_prefix(full_mesh(hist.take(k), hist[k], v, base, target, highlight), hist, k, v),
{
    let mesh = full_mesh(hist.take(k), hist[k], v, base, target, highlight);
    assert forall|i: int|
        0 <= i <= k implies same_geometry(#[trigger] mesh[i], cell_rect(hist[i], v, mesh[i].color)) by {
        if i < k {
            assert(hist.take(k)[i] == hist[i]);
        }
    }
}

/// Boundary: with no history at all, the mesh is the single highlight
/// rectangle at the live position.
pub proof fn lemma_empty_history_mesh(
    live: Position,
    v: Viewport,
    base: Rgb,
    target: Rgb,
    highlight: Rgb,
)
    ensures
        full_mesh(Seq::<Position>::empty(), live, v, base, target, highlight) == seq![
            cell_rect(live, v, highlight),
        ],
{
    assert(full_mesh(Seq::<Position>::empty(), live, v, base, target, highlight) =~= seq![
        cell_rect(live, v, highlight),
    ]);
}

/// Computes the rectangle of the cell at lattice position `p`.
fn cell_rect_exec(p: Position, v: &Viewport, c: Rgb) -> (r: CellRect)
    requires
        v.wf(),
    ensures
        r == cell_rect(p, *v, c),
{
    proof {
        assert(-0x80_0000_0000_0000 <= v.scale_x * p.x <= 0x80_0000_0000_0000) by (nonlinear_arith)
            requires
                0 <= v.scale_x <= 0x100_0000 && -0x8000_0000 <= p.x <= 0x7FFF_FFFF,
        ;
        assert(-0x80_0000_0000_0000 <= v.scale_y * p.y <= 0x80_0000_0000_0000) by (nonlinear_arith)
            requires
                0 <= v.scale_y <= 0x100_0000 && -0x8000_0000 <= p.y <= 0x7FFF_FFFF,
        ;
    }
    let x: i64 = v.origin_x + v.scale_x * (p.x as i64);
    let y: i64 = v.origin_y + v.scale_y * (p.y as i64);
    CellRect { min_x: x, min_y: y, max_x: x + v.scale_x, max_y: y + v.scale_y, color: c }
}

/// Computes one interpolated color channel.
fn grad_channel_exec(base: u8, target: u8, i: usize, len: usize) -> (r: u8)
    requires
        i < len,
    ensures
        r == grad_channel(base, target, i as int, len as int),
{
    if target >= base {
        let diff: u64 = (target - base) as u64;
        proof {
            assert((i as int) * (diff as int) / (len as int) <= diff && 0 <= (i as int) * (
            diff as int) <= 0xFF_FFFF_FFFF_FFFF_FFFF) by (nonlinear_arith)
                requires
                    0 <= (i as int) < (len as int) && 0 <= (diff as int) <= 0xFF && (i as int)
                        <= 0xFFFF_FFFF_FFFF_FFFF,
            ;
        }
        let q: u64 = (((i as u128) * (diff as u128)) / (len as u128)) as u64;
        (base as u64 + q) as u8
    } else {
        let diff: u64 = (base - target) as u64;
        proof {
            assert((i as int) * (diff as int) / (len as int) <= diff && 0 <= (i as int) * (
            diff as int) <= 0xFF_FFFF_FFFF_FFFF_FFFF) by (nonlinear_arith)
                requires
                    0 <= (i as int) < (len as int) && 0 <= (diff as int) <= 0xFF && (i as int)
                        <= 0xFFFF_FFFF_FFFF_FFFF,
            ;
        }
        let q: u64 = (((i as u128) * (diff as u128)) / (len as u128)) as u64;
        (base as u64 - q) as u8
    }
}

/// Computes the gradient color of history index `i` of `len`.
fn grad_color_exec(base: Rgb, target: Rgb, i: usize, len: usize) -> (r: Rgb)
    requires
        i < len,
    ensures
        r == grad_color(base, target, i as int, len as int),
{
    Rgb {
        r: grad_channel_exec(base.r, target.r, i, len),
        g: grad_channel_exec(base.g, target.g, i, len),
        b: grad_channel_exec(base.b, target.b, i, len),
    }
}

/// Builds the whole mesh: every historical cell in its gradient color,
/// then the live position in the highlight color.
pub fn calc_mesh(
    walker: &RandomWalker,
    view: &Viewport,
    color: Rgb,
    col1_grad: Rgb,
    color2: Rgb,
) -> (mesh: Vec<CellRect>)
    requires
        view.wf(),
    ensures
        mesh@ == full_mesh(walker.history.vec@, walker.ort, *view, color, col1_grad, color2),
{
    let len = walker.history.vec.len();
    let mut mesh: Vec<CellRect> = Vec::with_capacity(len);
    let ghost hist = walker.history.vec@;
    let mut i: usize = 0;
    while i < len
        invariant
            i <= len,
            len == hist.len(),
            hist == walker.history.vec@,
            view.wf(),
            mesh@.len() == i,
            forall|k: int|
                0 <= k < i ==> #[trigger] mesh@[k] == cell_rect(
                    hist[k],
                    *view,
                    grad_color(color, col1_grad, k, len as int),
                ),
        decreases len - i,
    {
        let c = grad_color_exec(color, col1_grad, i, len);
        let p = walker.history.vec[i];
        mesh.push(cell_rect_exec(p, view, c));
        i = i + 1;
    }
    mesh.push(cell_rect_exec(walker.ort, view, color2));
    proof {
        assert(mesh@ =~= full_mesh(hist, walker.ort, *view, color, col1_grad, color2));
    }
    mesh
}

/// Patches the mesh built at step `old_total` up to the walker's present
/// state: refreshes the colors of the rectangles already placed (their
/// gradient fractions changed), including the stale highlight rectangle,
/// which becomes the history cell its position now is; then appends the
/// newly added suffix of the history and a fresh highlight. The result
/// equals a full rebuild, cell for cell.
pub fn update_mesh(
    mesh: &mut Vec<CellRect>,
    old_total: usize,
    walker: &RandomWalker,
    view: &Viewport,
    color: Rgb,
    col1_grad: Rgb,
    color2: Rgb,
)
    requires
        view.wf(),
        old_total < walker.history.vec@.len(),
        covers_prefix(old(mesh)@, walker.history.vec@, old_total as int, *view),
    ensures
        final(mesh)@ == full_mesh(
            walker.history.vec@,
            walker.ort,
            *view,
            color,
            col1_grad,
            color2,
        ),
{
    let len = walker.history.vec.len();
    let ghost hist = walker.history.vec@;
    let mut i: usize = 0;
    while i <= old_total
        invariant
            i <= old_total + 1,
            old_total < len == hist.len(),
            hist == walker.history.vec@,
            view.wf(),
            mesh@.len() == old_total + 1,
            forall|k: int|
                0 <= k < i ==> #[trigger] mesh@[k] == cell_rect(
                    hist[k],
                    *view,
                    grad_color(color, col1_grad, k, len as int),
                ),
            forall|k: int| i <= k <= old_total ==> mesh@[k] == old(mesh)@[k],
            covers_prefix(old(mesh)@, hist, old_total as int, *view),
        decreases old_total + 1 - i,
    {
        let c = grad_color_exec(color, col1_grad, i, len);
        let slot = &mut mesh[i];
        slot.color = c;
        proof {
            assert(same_geometry(old(mesh)@[i as int], cell_rect(hist[i as int], *view, old(
                mesh,
            )@[i as int].color)));
        }
        i = i + 1;
    }
    while i < len
        invariant
            old_total < i <= len,
            len == hist.len(),
            hist == walker.history.vec@,
            view.wf(),
            mesh@.len() == i,
            forall|k: int|
                0 <= k < i ==> #[trigger] mesh@[k] == cell_rect(
                    hist[k],
                    *view,
                    grad_color(color, col1_grad, k, len as int),
                ),
        decreases len - i,
    {
        let c = grad_color_exec(color, col1_grad, i, len);
        let p = walker.history.vec[i];
        mesh.push(cell_rect_exec(p, view, c));
        i = i + 1;
    }
    mesh.push(cell_rect_exec(walker.ort, view, color2));
    proof {
        assert(mesh@ =~= full_mesh(hist, walker.ort, *view, color, col1_grad, color2));
    }
}

} // verus!
