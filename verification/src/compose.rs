//! The compositor: what shows of a pile, cell by cell.
//!
//! For each cell the planes are scanned from the top down. The first plane
//! that covers the cell with anything but the transparent marker supplies the
//! grapheme and the styles. A colour channel that is opaque ends the scan for
//! that colour; one that blends or is transparent goes on with the colour
//! resolved below it. Blending is straight alpha at equal weight, see
//! `cell::blend`: it does not associate, so the colour below must be resolved
//! before it is mixed in, which the scan does by going down first.

use vstd::prelude::*;
use crate::cell::{
    blank_cell, continuation_cell, overlay, pen_of, printable, solid, NcCell, NcGlyph,
};
use crate::grid::{
    lemma_index_inside, lemma_index_split, lemma_size_fits, NcDimension, NcGrid, NcGridView,
};
use crate::pile::{NcPile, NcPileView};
use crate::plane::NcPlaneView;

verus! {

/// The planes that exist, topmost first.
pub open spec fn stack(pile: NcPileView) -> Seq<NcPlaneView> {
    Seq::new(pile.order.len(), |k: int| pile.planes[pile.order[k] as int]@)
}

/// Whether the plane shows nothing of its own at row `r`, column `c`: it does
/// not cover the cell, or holds the transparent marker there.
pub open spec fn lets_through(plane: NcPlaneView, r: int, c: int) -> bool {
    !plane.covers(r, c) || plane.cell_at(r, c).glyph is Transparent
}

/// The cell that shows at row `r`, column `c` of the planes from depth `k`
/// down: the empty cell where none of them shows anything.
pub open spec fn resolve(planes: Seq<NcPlaneView>, k: int, r: int, c: int) -> NcCell
    decreases planes.len() - k,
{
    if k < 0 || k >= planes.len() {
        blank_cell()
    } else if lets_through(planes[k], r, c) {
        resolve(planes, k + 1, r, c)
    } else {
        overlay(planes[k].cell_at(r, c), resolve(planes, k + 1, r, c))
    }
}

/// Whether row `r`, column `c` is the second column of a double-width
/// grapheme: the cell to its left shows one, and is not itself a second column.
pub open spec fn forced(planes: Seq<NcPlaneView>, r: int, c: int) -> bool
    decreases c,
{
    c > 0 && !forced(planes, r, c - 1) && resolve(planes, 0, r, c - 1).glyph.spec_is_wide()
}

/// The cell of the frame at row `r`, column `c`: the continuation marker
/// behind a double-width grapheme, in that grapheme's styles and colours,
/// and else the cell that shows there.
pub open spec fn composite_at(planes: Seq<NcPlaneView>, r: int, c: int) -> NcCell {
    if forced(planes, r, c) {
        continuation_cell(pen_of(resolve(planes, 0, r, c - 1)))
    } else {
        resolve(planes, 0, r, c)
    }
}

/// The frame of a pile.
pub open spec fn composite(pile: NcPileView) -> NcGridView {
    NcGridView {
        rows: pile.rows,
        cols: pile.cols,
        cells: Seq::new(
            (pile.rows * pile.cols) as nat,
            |i: int| composite_at(stack(pile), i / pile.cols, i % pile.cols),
        ),
    }
}

/// Whether the cell to the left of index `i`, in the same row, holds a
/// double-width grapheme.
pub open spec fn behind_wide(g: NcGridView, i: int) -> bool {
    i % g.cols > 0 && g.cells[i - 1].glyph.spec_is_wide()
}

/// What holds of the cell at index `i` of a frame: its colours are resolved;
/// it holds a grapheme that is no control character, or, exactly where it
/// lies behind a double-width grapheme, the continuation marker in that
/// grapheme's styles and colours.
pub open spec fn frame_cell(g: NcGridView, i: int) -> bool {
    &&& solid(g.cells[i])
    &&& match g.cells[i].glyph {
        NcGlyph::Egc(c) => printable(c) && !behind_wide(g, i),
        NcGlyph::Continuation => behind_wide(g, i) && g.cells[i] == continuation_cell(
            pen_of(g.cells[i - 1]),
        ),
        NcGlyph::Transparent => false,
    }
}

/// True of frames: grids of resolved cells.
pub open spec fn frame_ok(g: NcGridView) -> bool {
    &&& g.wf()
    &&& forall|i: int| 0 <= i < g.cells.len() ==> #[trigger] frame_cell(g, i)
}

/// True of the planes of a pile.
pub open spec fn planes_ok(planes: Seq<NcPlaneView>) -> bool {
    forall|k: int| 0 <= k < planes.len() ==> (#[trigger] planes[k]).wf()
}

/// A cell with two opaque channels shows as it is, whatever lies below.
pub proof fn lemma_solid_overlay(top: NcCell, below: NcCell)
    requires
        solid(top),
    ensures
        overlay(top, below) == top,
{
}

/// What shows is a resolved cell with a grapheme.
pub proof fn lemma_resolve_ok(planes: Seq<NcPlaneView>, k: int, r: int, c: int)
    requires
        planes_ok(planes),
        0 <= k,
    ensures
        solid(resolve(planes, k, r, c)),
        resolve(planes, k, r, c).glyph matches NcGlyph::Egc(ch) && printable(ch),
    decreases planes.len() - k,
{
    if k < planes.len() {
        lemma_resolve_ok(planes, k + 1, r, c);
        if !lets_through(planes[k], r, c) {
            let p = planes[k];
            lemma_index_inside(p.grid.rows, p.grid.cols, r - p.y, c - p.x);
        }
    }
}

/// The stack of a pile holds planes of that pile.
pub proof fn lemma_stack_ok(pile: NcPileView)
    requires
        pile.wf(),
    ensures
        planes_ok(stack(pile)),
        stack(pile).len() == pile.order.len(),
{
    assert forall|k: int| 0 <= k < stack(pile).len() implies (#[trigger] stack(pile)[k]).wf() by {
        assert(pile.holds(pile.order[k]));
    }
}

impl NcPile {
    /// The cell that shows at row `r`, column `c` of the planes from depth
    /// `k` down. The scan goes down only as far as it must: a cell with two
    /// opaque channels ends it.
    fn resolve_from(&self, k: usize, r: NcDimension, c: NcDimension) -> (cell: NcCell)
        requires
            self.wf(),
        ensures
            cell == resolve(stack(self@), k as int, r as int, c as int),
        decreases self@.order.len() - k,
    {
        if k >= self.count() {
            return NcCell::blank();
        }
        let id = self.order_at(k);
        let plane = self.plane_at(id);
        if !plane.covers(r, c) {
            return self.resolve_from(k + 1, r, c);
        }
        let top = plane.cell_at(r, c);
        match top.glyph {
            NcGlyph::Transparent => self.resolve_from(k + 1, r, c),
            _ => {
                if top.is_solid() {
                    proof {
                        lemma_solid_overlay(
                            top,
                            resolve(stack(self@), k as int + 1, r as int, c as int),
                        );
                    }
                    top
                } else {
                    top.over(self.resolve_from(k + 1, r, c))
                }
            },
        }
    }

    /// Composites the pile: the frame of its whole extent. The pile is only
    /// read, so the same pile gives the same frame.
    pub fn composite(&self) -> (frame: NcGrid)
        requires
            self.wf(),
        ensures
            frame.wf(),
            frame@ == composite(self@),
            frame_ok(frame@),
    {
        let rows = self.rows();
        let cols = self.cols();
        proof {
            lemma_size_fits(rows as int, cols as int);
            lemma_stack_ok(self@);
        }
        let n: usize = (rows as usize) * (cols as usize);
        let ghost planes = stack(self@);
        let ghost want = composite(self@);
        let mut cells: Vec<NcCell> = Vec::new();
        let mut i: usize = 0;
        let mut r: NcDimension = 0;
        let mut c: NcDimension = 0;
        let mut head = NcCell::blank();
        let mut behind = false;
        while i < n
            invariant
                self.wf(),
                planes == stack(self@),
                planes_ok(planes),
                want == composite(self@),
                rows == self@.rows,
                cols == self@.cols,
                n == rows * cols,
                i <= n,
                i == r * cols + c,
                0 <= c < cols,
                cells@.len() == i,
                behind == forced(planes, r as int, c as int),
                behind ==> head == resolve(planes, 0, r as int, c as int - 1),
                forall|j: int| 0 <= j < i ==> #[trigger] cells@[j] == want.cells[j],
                forall|j: int|
                    0 <= j < i ==> #[trigger] frame_cell(
                        NcGridView { rows: rows as int, cols: cols as int, cells: cells@ },
                        j,
                    ),
            decreases n - i,
        {
            proof {
                lemma_index_split(cols as int, r as int, c as int);
                assert(r < rows) by (nonlinear_arith)
                    requires
                        r * cols + c < rows * cols,
                        0 <= c,
                        0 < cols,
                ;
                if c > 0 {
                    lemma_index_split(cols as int, r as int, c as int - 1);
                }
                lemma_resolve_ok(planes, 0, r as int, c as int);
                if c > 0 {
                    lemma_resolve_ok(planes, 0, r as int, c as int - 1);
                }
            }
            let ghost before = cells@;
            let cell = if behind {
                NcCell::continuation(head)
            } else {
                self.resolve_from(0, r, c)
            };
            cells.push(cell);
            proof {
                let g0 = NcGridView { rows: rows as int, cols: cols as int, cells: before };
                let g1 = NcGridView { rows: rows as int, cols: cols as int, cells: cells@ };
                assert forall|j: int| 0 <= j < i + 1 implies #[trigger] frame_cell(g1, j) by {
                    if j < i {
                        assert(frame_cell(g0, j));
                        if j > 0 {
                            assert(g1.cells[j - 1] == g0.cells[j - 1]);
                        }
                    } else {
                        if c > 0 {
                            assert(want.cells[j - 1] == composite_at(
                                planes,
                                r as int,
                                c as int - 1,
                            ));
                        }
                    }
                }
            }
            behind = !behind && cell.glyph.is_wide();
            head = cell;
            i = i + 1;
            c = c + 1;
            if c == cols {
                c = 0;
                r = r + 1;
                behind = false;
                assert(r * cols + c == i) by (nonlinear_arith)
                    requires
                        (r - 1) * cols + cols == i,
                        c == 0,
                ;
            }
        }
        assert(cells@ =~= want.cells);
        NcGrid::from_cells(rows, cols, cells)
    }
}

/// Compositing reads the pile and nothing else: two piles with the same
/// planes in the same order have the same frame, so compositing one pile
/// twice with no plane changed in between gives one frame.
pub proof fn lemma_composite_is_repeatable(first: NcPileView, second: NcPileView)
    requires
        first.wf(),
        second.wf(),
        first.rows == second.rows,
        first.cols == second.cols,
        stack(first) == stack(second),
    ensures
        composite(first) == composite(second),
{
}

/// The topmost plane that shows anything at a cell supplies the cell: where
/// its cell there has two opaque channels (so nothing is blended in), and the
/// planes above it let the cell through, the frame holds that very cell,
/// whatever the planes below hold. The one exception is the column behind a
/// double-width grapheme, which belongs to that grapheme.
pub proof fn lemma_topmost_wins(pile: NcPileView, k: int, r: int, c: int)
    requires
        pile.wf(),
        0 <= r < pile.rows,
        0 <= c < pile.cols,
        0 <= k < stack(pile).len(),
        !lets_through(stack(pile)[k], r, c),
        solid(stack(pile)[k].cell_at(r, c)),
        forall|j: int| 0 <= j < k ==> lets_through(#[trigger] stack(pile)[j], r, c),
        !forced(stack(pile), r, c),
    ensures
        composite(pile).at(r, c) == stack(pile)[k].cell_at(r, c),
{
    lemma_composite_at(pile, r, c);
    lemma_resolve_skips(stack(pile), 0, k, r, c);
}

/// The planes that let a cell through do not show in it.
pub proof fn lemma_resolve_skips(planes: Seq<NcPlaneView>, from: int, k: int, r: int, c: int)
    requires
        0 <= from <= k < planes.len(),
        forall|j: int| from <= j < k ==> lets_through(#[trigger] planes[j], r, c),
    ensures
        resolve(planes, from, r, c) == resolve(planes, k, r, c),
    decreases k - from,
{
    if from < k {
        lemma_resolve_skips(planes, from + 1, k, r, c);
    }
}

/// What the compositor hands out is a frame.
pub proof fn lemma_composite_is_frame(pile: NcPileView)
    requires
        pile.wf(),
    ensures
        frame_ok(composite(pile)),
{
    let g = composite(pile);
    let planes = stack(pile);
    let cols = pile.cols;
    lemma_stack_ok(pile);
    lemma_size_fits(pile.rows, pile.cols);
    assert forall|i: int| 0 <= i < g.cells.len() implies #[trigger] frame_cell(g, i) by {
        let r = i / cols;
        let c = i % cols;
        vstd::arithmetic::div_mod::lemma_fundamental_div_mod(i, cols);
        assert(cols * r == r * cols) by (nonlinear_arith);
        assert(0 <= r) by (nonlinear_arith)
            requires
                0 <= i,
                i == r * cols + c,
                0 <= c < cols,
        ;
        lemma_resolve_ok(planes, 0, r, c);
        if c > 0 {
            lemma_index_split(cols, r, c - 1);
            lemma_resolve_ok(planes, 0, r, c - 1);
        }
    }
}

/// The frame, cell by cell.
pub proof fn lemma_composite_at(pile: NcPileView, r: int, c: int)
    requires
        pile.wf(),
        0 <= r < pile.rows,
        0 <= c < pile.cols,
    ensures
        composite(pile).inside(r, c),
        composite(pile).at(r, c) == composite_at(stack(pile), r, c),
{
    lemma_index_inside(pile.rows, pile.cols, r, c);
    lemma_index_split(pile.cols, r, c);
}

} // verus!
