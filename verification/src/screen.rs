//! The terminal as the rasterizer's operations see it, and what the
//! rasterizer owes it: after the operations the screen shows the new frame,
//! and what was written depends on nothing but the cells that changed.

use vstd::prelude::*;
use crate::cell::{
    continuation_cell, inked_cell, pen_of, spec_egc_width, NcCell, NcEgc, NcInk, NcPen,
};
use crate::compose::{composite, frame_cell, frame_ok};
use crate::grid::{
    filled, lemma_index_inside, lemma_index_split, lemma_put_cells, NcDimension, NcGridView,
};
use crate::pile::NcPileView;
use crate::vt::ops_bytes;
use crate::raster::{
    count_moves, count_puts, elided, elided_from, bg_ops, cell_ops, fg_ops, move_ops, raster_from, rasterize, rewritten, step_ops, step_state, style_kept, style_ops, styled_pen, unknown_state, NcRasterOp, NcRasterState,
};

verus! {

/// A terminal: the cells it shows, its cursor and its active pen.
pub struct NcScreen {
    pub grid: NcGridView,
    pub y: int,
    pub x: int,
    pub pen: NcPen,
}

/// The screen after the grapheme `c` was written at the cursor: the cell
/// there holds it in the active pen, the cell behind a double-width grapheme
/// holds the continuation marker, and the cursor has moved behind it. Nothing
/// is written outside the screen.
pub open spec fn screen_put(s: NcScreen, c: NcEgc) -> NcScreen {
    let head = if s.grid.inside(s.y, s.x) {
        s.grid.put(s.y, s.x, inked_cell(c, s.pen))
    } else {
        s.grid
    };
    let both = if spec_egc_width(c) == 2 && s.grid.inside(s.y, s.x) && s.grid.inside(
        s.y,
        s.x + 1,
    ) {
        head.put(s.y, s.x + 1, continuation_cell(s.pen))
    } else {
        head
    };
    NcScreen { grid: both, x: s.x + spec_egc_width(c), ..s }
}

/// The screen after one operation.
pub open spec fn apply_op(s: NcScreen, op: NcRasterOp) -> NcScreen {
    match op {
        NcRasterOp::Move { y, x } => NcScreen { y: y as int, x: x as int, ..s },
        NcRasterOp::Style(style) => NcScreen {
            pen: NcPen { style, fg: NcInk::Default, bg: NcInk::Default },
            ..s
        },
        NcRasterOp::Fg(ink) => NcScreen { pen: NcPen { fg: ink, ..s.pen }, ..s },
        NcRasterOp::Bg(ink) => NcScreen { pen: NcPen { bg: ink, ..s.pen }, ..s },
        NcRasterOp::Put(c) => screen_put(s, c),
    }
}

/// The screen after the operations, in order.
pub open spec fn apply_ops(s: NcScreen, ops: Seq<NcRasterOp>) -> NcScreen
    decreases ops.len(),
{
    if ops.len() == 0 {
        s
    } else {
        apply_ops(apply_op(s, ops[0]), ops.drop_first())
    }
}

/// A blank screen of `rows` by `cols` cells.
pub open spec fn blank_screen(rows: int, cols: int, y: int, x: int, pen: NcPen) -> NcScreen {
    NcScreen { grid: filled(rows, cols, crate::cell::blank_cell()), y, x, pen }
}

proof fn lemma_apply_concat(s: NcScreen, a: Seq<NcRasterOp>, b: Seq<NcRasterOp>)
    ensures
        apply_ops(s, a + b) == apply_ops(apply_ops(s, a), b),
    decreases a.len(),
{
    if a.len() == 0 {
        assert(a + b =~= b);
    } else {
        assert((a + b).drop_first() =~= a.drop_first() + b);
        lemma_apply_concat(apply_op(s, a[0]), a.drop_first(), b);
    }
}

proof fn lemma_apply_one(s: NcScreen, op: NcRasterOp)
    ensures
        apply_ops(s, seq![op]) == apply_op(s, op),
{
    reveal_with_fuel(apply_ops, 2);
}

/// Whether what the rasterizer believes is true of the screen.
pub open spec fn believed(st: NcRasterState, s: NcScreen) -> bool {
    &&& st.cursor_known ==> s.y == st.y && s.x == st.x
    &&& st.pen_known ==> s.pen == st.pen
}

/// The operations for one cell put the cell on the screen.
proof fn lemma_cell_ops(
    s: NcScreen,
    st: NcRasterState,
    y: NcDimension,
    x: NcDimension,
    c: NcEgc,
    pen: NcPen,
)
    requires
        believed(st, s),
    ensures
        apply_ops(s, cell_ops(st, y, x, c, pen)) == screen_put(
            NcScreen { y: y as int, x: x as int, pen, ..s },
            c,
        ),
{
    // The cursor is where the cell is.
    let s1 = apply_ops(s, move_ops(st, y, x));
    if !(st.cursor_known && st.y == y && st.x == x) {
        lemma_apply_one(s, NcRasterOp::Move { y, x });
    }
    assert(s1 == NcScreen { y: y as int, x: x as int, ..s });
    // The styles are those of the pen.
    let s2 = apply_ops(s1, style_ops(st, pen));
    if !style_kept(st, pen) {
        lemma_apply_one(s1, NcRasterOp::Style(pen.style));
    }
    let active = styled_pen(st, pen);
    assert(s2 == NcScreen { pen: active, ..s1 });
    // So are the colours.
    let s3 = apply_ops(s2, fg_ops(active, pen));
    if active.fg != pen.fg {
        lemma_apply_one(s2, NcRasterOp::Fg(pen.fg));
    }
    let s4 = apply_ops(s3, bg_ops(active, pen));
    if active.bg != pen.bg {
        lemma_apply_one(s3, NcRasterOp::Bg(pen.bg));
    }
    assert(s4 == NcScreen { pen, ..s1 });
    lemma_apply_one(s4, NcRasterOp::Put(c));
    let a = move_ops(st, y, x);
    let b = style_ops(st, pen);
    let f = fg_ops(active, pen);
    let g = bg_ops(active, pen);
    let p = seq![NcRasterOp::Put(c)];
    lemma_apply_concat(s, a + b + f + g, p);
    lemma_apply_concat(s, a + b + f, g);
    lemma_apply_concat(s, a + b, f);
    lemma_apply_concat(s, a, b);
}

/// Whether the cell at index `i` was written along with the double-width
/// grapheme before it.
pub open spec fn came_along(new: NcGridView, old: NcGridView, i: int) -> bool {
    i % new.cols > 0 && new.cells[i - 1].glyph.spec_is_wide() && new.cells[i - 1] != old.cells[i
        - 1]
}

/// The screen in the middle of a scan, before the cell at index `i`: the
/// cells before it show the new frame, the cells behind it the old one, and
/// the cell itself the old one unless it came along with its neighbour.
pub open spec fn scanned_to(s: NcScreen, new: NcGridView, old: NcGridView, i: int) -> bool {
    &&& s.grid.rows == new.rows
    &&& s.grid.cols == new.cols
    &&& s.grid.cells.len() == new.cells.len()
    &&& forall|j: int| 0 <= j < i && j < new.cells.len() ==> #[trigger] s.grid.cells[j] == new.cells[j]
    &&& forall|j: int| i < j < new.cells.len() ==> #[trigger] s.grid.cells[j] == old.cells[j]
    &&& 0 <= i < new.cells.len() ==> s.grid.cells[i] == if came_along(new, old, i) {
        new.cells[i]
    } else {
        old.cells[i]
    }
}

proof fn lemma_scan(new: NcGridView, old: NcGridView, i: int, st: NcRasterState, s: NcScreen)
    requires
        frame_ok(new),
        frame_ok(old),
        new.rows == old.rows,
        new.cols == old.cols,
        0 <= i <= new.cells.len(),
        believed(st, s),
        scanned_to(s, new, old, i),
    ensures
        apply_ops(s, raster_from(new.cells, old.cells, new.cols, i, st)).grid == new,
    decreases new.cells.len() - i,
{
    let n = new.cells.len() as int;
    if i >= n {
        assert(s.grid.cells =~= new.cells);
    } else {
        let cols = new.cols;
        assert(cols > 0) by {
            if cols <= 0 {
                assert(new.rows * cols <= 0) by (nonlinear_arith)
                    requires
                        0 <= new.rows,
                        cols <= 0,
                ;
            }
        }
        let y = i / cols;
        let x = i % cols;
        vstd::arithmetic::div_mod::lemma_fundamental_div_mod(i, cols);
        assert(cols * y == y * cols) by (nonlinear_arith);
        assert(0 <= y < new.rows) by (nonlinear_arith)
            requires
                0 <= i < new.rows * cols,
                i == y * cols + x,
                0 <= x < cols,
        ;
        let cell = new.cells[i];
        let was = old.cells[i];
        let ops = step_ops(st, cols, i, cell, was);
        let st2 = step_state(st, cols, i, cell, was);
        let rest = raster_from(new.cells, old.cells, cols, i + 1, st2);
        lemma_apply_concat(s, ops, rest);
        assert(frame_cell(new, i));
        if rewritten(cell, was) {
            let c = cell.glyph->Egc_0;
            let pen = pen_of(cell);
            lemma_cell_ops(s, st, y as NcDimension, x as NcDimension, c, pen);
            let s2 = screen_put(NcScreen { y, x, pen, ..s }, c);
            assert(apply_ops(s, ops) == s2);
            // A grapheme lies behind no double-width one, so the screen
            // still holds the old cell here; now it holds the new one.
            assert(!came_along(new, old, i));
            assert(inked_cell(c, pen) == cell);
            lemma_put_cells(s.grid, y, x, cell);
            let head = s.grid.put(y, x, cell);
            if spec_egc_width(c) == 2 && x + 1 < cols {
                // The next cell came along, and is what the frame holds there.
                lemma_index_inside(new.rows, cols, y, x + 1);
                lemma_index_split(cols, y, x + 1);
                lemma_put_cells(head, y, x + 1, continuation_cell(pen));
                assert(frame_cell(new, i + 1));
                assert(came_along(new, old, i + 1));
            } else if i + 1 < n {
                if spec_egc_width(c) == 2 {
                    // The row ends here: the next cell begins another.
                    assert(i + 1 == (y + 1) * cols + 0) by (nonlinear_arith)
                        requires
                            i == y * cols + x,
                            x + 1 == cols,
                    ;
                    lemma_index_split(cols, y + 1, 0);
                }
                assert(!came_along(new, old, i + 1));
            }
            assert(scanned_to(s2, new, old, i + 1));
            lemma_scan(new, old, i + 1, st2, s2);
        } else {
            if cell != was {
                // A continuation marker that differs: its grapheme differs
                // too, for else the old frame held the same marker; so the
                // grapheme was written, and brought the marker along.
                assert(frame_cell(old, i));
                assert(came_along(new, old, i));
            }
            assert(s.grid.cells[i] == cell);
            assert(scanned_to(s, new, old, i + 1));
            lemma_scan(new, old, i + 1, st2, s);
        }
    }
}

/// The rasterizer repaints: on a terminal that shows the frame `old`,
/// wherever its cursor is and whatever its pen, the operations from `old` to
/// `new` leave the frame `new`, cell for cell.
pub proof fn lemma_raster_repaints(new: NcGridView, old: NcGridView, s: NcScreen)
    requires
        frame_ok(new),
        frame_ok(old),
        new.rows == old.rows,
        new.cols == old.cols,
        s.grid == old,
    ensures
        apply_ops(s, rasterize(new, old)).grid == new,
{
    lemma_scan(new, old, 0, unknown_state(), s);
}

/// A blank screen is a frame.
pub proof fn lemma_blank_is_frame(rows: int, cols: int)
    requires
        0 <= rows <= crate::grid::NC_MAX_DIM,
        0 <= cols <= crate::grid::NC_MAX_DIM,
    ensures
        frame_ok(filled(rows, cols, crate::cell::blank_cell())),
{
    let g = filled(rows, cols, crate::cell::blank_cell());
    crate::grid::lemma_size_fits(rows, cols);
    assert forall|i: int| 0 <= i < g.cells.len() implies #[trigger] frame_cell(g, i) by {
        if i == 0 {
            assert(cols > 0) by (nonlinear_arith)
                requires
                    rows * cols > 0,
                    rows >= 0,
            ;
            vstd::arithmetic::div_mod::lemma_small_mod(0, cols as nat);
        } else {
            assert(!g.cells[i - 1].glyph.spec_is_wide());
        }
    }
}

/// Round trip: what rasterizing the frame of a pile leaves on a blank
/// terminal is that frame, cell for cell.
pub proof fn lemma_render_round_trip(pile: NcPileView, y: int, x: int, pen: NcPen)
    requires
        pile.wf(),
    ensures
        apply_ops(
            blank_screen(pile.rows, pile.cols, y, x, pen),
            rasterize(composite(pile), blank_screen(pile.rows, pile.cols, y, x, pen).grid),
        ).grid == composite(pile),
{
    lemma_blank_is_frame(pile.rows, pile.cols);
    crate::compose::lemma_composite_is_frame(pile);
    lemma_raster_repaints(
        composite(pile),
        filled(pile.rows, pile.cols, crate::cell::blank_cell()),
        blank_screen(pile.rows, pile.cols, y, x, pen),
    );
}

/// Whether row `y`, column `x` lies in the rectangle of the rows from `top`
/// to before `bottom` and the columns from `left` to before `right`.
pub open spec fn in_region(y: int, x: int, top: int, left: int, bottom: int, right: int) -> bool {
    top <= y < bottom && left <= x < right
}

/// Whether two grids of one size hold the same cells outside the region.
pub open spec fn same_outside(
    a: NcGridView,
    b: NcGridView,
    top: int,
    left: int,
    bottom: int,
    right: int,
) -> bool {
    forall|y: int, x: int|
        a.inside(y, x) && !in_region(y, x, top, left, bottom, right) ==> #[trigger] a.at(y, x)
            == b.at(y, x)
}

/// Whether two grids of one size hold the same cells inside the region.
pub open spec fn same_inside(
    a: NcGridView,
    b: NcGridView,
    top: int,
    left: int,
    bottom: int,
    right: int,
) -> bool {
    forall|y: int, x: int|
        a.inside(y, x) && in_region(y, x, top, left, bottom, right) ==> #[trigger] a.at(y, x)
            == b.at(y, x)
}

proof fn lemma_local_scan(
    new1: NcGridView,
    old1: NcGridView,
    new2: NcGridView,
    old2: NcGridView,
    top: int,
    left: int,
    bottom: int,
    right: int,
    i: int,
    st: NcRasterState,
)
    requires
        new1.wf(),
        old1.wf(),
        new2.wf(),
        old2.wf(),
        new1.rows == old1.rows == new2.rows == old2.rows,
        new1.cols == old1.cols == new2.cols == old2.cols,
        same_outside(new1, old1, top, left, bottom, right),
        same_outside(new2, old2, top, left, bottom, right),
        same_inside(new1, new2, top, left, bottom, right),
        same_inside(old1, old2, top, left, bottom, right),
        0 <= i <= new1.cells.len(),
    ensures
        raster_from(new1.cells, old1.cells, new1.cols, i, st) == raster_from(
            new2.cells,
            old2.cells,
            new2.cols,
            i,
            st,
        ),
    decreases new1.cells.len() - i,
{
    if i < new1.cells.len() {
        let cols = new1.cols;
        assert(cols > 0) by {
            if cols <= 0 {
                assert(new1.rows * cols <= 0) by (nonlinear_arith)
                    requires
                        0 <= new1.rows,
                        cols <= 0,
                ;
            }
        }
        let y = i / cols;
        let x = i % cols;
        vstd::arithmetic::div_mod::lemma_fundamental_div_mod(i, cols);
        assert(cols * y == y * cols) by (nonlinear_arith);
        assert(0 <= y < new1.rows) by (nonlinear_arith)
            requires
                0 <= i < new1.rows * cols,
                i == y * cols + x,
                0 <= x < cols,
        ;
        // Inside the region the two scans see the same cells; outside it
        // neither sees a change.
        assert(new1.at(y, x) == new1.cells[i] && old1.at(y, x) == old1.cells[i]);
        assert(new2.at(y, x) == new2.cells[i] && old2.at(y, x) == old2.cells[i]);
        let next = step_state(st, cols, i, new1.cells[i], old1.cells[i]);
        assert(next == step_state(st, cols, i, new2.cells[i], old2.cells[i]));
        lemma_local_scan(new1, old1, new2, old2, top, left, bottom, right, i + 1, next);
    }
}

/// Locality: what the rasterizer writes depends on nothing but the region
/// that changed. Take two frames that differ only inside a rectangle, and
/// two more of the same size that differ only inside that rectangle and
/// hold there what the first two hold. Then the scan from the first to the
/// second and the scan from the third to the fourth give the same
/// operations, and so the same bytes and as many of them, whatever the four
/// hold outside the rectangle.
pub proof fn lemma_raster_is_local(
    new1: NcGridView,
    old1: NcGridView,
    new2: NcGridView,
    old2: NcGridView,
    top: int,
    left: int,
    bottom: int,
    right: int,
)
    requires
        new1.wf(),
        old1.wf(),
        new2.wf(),
        old2.wf(),
        new1.rows == old1.rows == new2.rows == old2.rows,
        new1.cols == old1.cols == new2.cols == old2.cols,
        same_outside(new1, old1, top, left, bottom, right),
        same_outside(new2, old2, top, left, bottom, right),
        same_inside(new1, new2, top, left, bottom, right),
        same_inside(old1, old2, top, left, bottom, right),
    ensures
        rasterize(new1, old1) == rasterize(new2, old2),
        forall|margin_t: NcDimension, margin_l: NcDimension|
            #![trigger ops_bytes(rasterize(new1, old1), margin_t, margin_l)]
            ops_bytes(rasterize(new1, old1), margin_t, margin_l) == ops_bytes(
                rasterize(new2, old2),
                margin_t,
                margin_l,
            ) && ops_bytes(rasterize(new1, old1), margin_t, margin_l).len() == ops_bytes(
                rasterize(new2, old2),
                margin_t,
                margin_l,
            ).len(),
{
    lemma_local_scan(new1, old1, new2, old2, top, left, bottom, right, 0, unknown_state());
}

proof fn lemma_counts_concat(a: Seq<NcRasterOp>, b: Seq<NcRasterOp>)
    ensures
        count_puts(a + b) == count_puts(a) + count_puts(b),
        count_moves(a + b) == count_moves(a) + count_moves(b),
    decreases a.len(),
{
    if a.len() == 0 {
        assert(a + b =~= b);
    } else {
        assert((a + b).drop_first() =~= a.drop_first() + b);
        lemma_counts_concat(a.drop_first(), b);
    }
}

/// The operations for one cell write one grapheme and move the cursor once
/// at most.
proof fn lemma_cell_counts(st: NcRasterState, y: NcDimension, x: NcDimension, c: NcEgc, pen: NcPen)
    ensures
        count_puts(cell_ops(st, y, x, c, pen)) == 1,
        count_moves(cell_ops(st, y, x, c, pen)) == count_moves(move_ops(st, y, x)),
        count_moves(move_ops(st, y, x)) == if st.cursor_known && st.y == y && st.x == x {
            0nat
        } else {
            1nat
        },
{
    let a = move_ops(st, y, x);
    let b = style_ops(st, pen);
    let f = fg_ops(styled_pen(st, pen), pen);
    let g = bg_ops(styled_pen(st, pen), pen);
    let p = seq![NcRasterOp::Put(c)];
    reveal_with_fuel(count_puts, 2);
    reveal_with_fuel(count_moves, 2);
    lemma_counts_concat(a + b + f + g, p);
    lemma_counts_concat(a + b + f, g);
    lemma_counts_concat(a + b, f);
    lemma_counts_concat(a, b);
}

proof fn lemma_scan_counts(new: Seq<NcCell>, old: Seq<NcCell>, cols: int, i: int, st: NcRasterState)
    requires
        0 <= i <= new.len(),
    ensures
        count_puts(raster_from(new, old, cols, i, st)) + elided_from(new, old, i) == new.len() - i,
        count_moves(raster_from(new, old, cols, i, st)) <= count_puts(
            raster_from(new, old, cols, i, st),
        ),
    decreases new.len() - i,
{
    if i < new.len() {
        let ops = step_ops(st, cols, i, new[i], old[i]);
        let next = step_state(st, cols, i, new[i], old[i]);
        lemma_counts_concat(ops, raster_from(new, old, cols, i + 1, next));
        lemma_scan_counts(new, old, cols, i + 1, next);
        if rewritten(new[i], old[i]) {
            lemma_cell_counts(
                st,
                (i / cols) as NcDimension,
                (i % cols) as NcDimension,
                new[i].glyph->Egc_0,
                pen_of(new[i]),
            );
        }
    }
}

/// The rasterizer writes what changed and nothing else: a grapheme for each
/// cell that is written, none for a cell that is left alone, and never more
/// moves of the cursor than graphemes.
pub proof fn lemma_raster_writes_what_changed(new: NcGridView, old: NcGridView)
    ensures
        count_puts(rasterize(new, old)) + elided(new, old) == new.cells.len(),
        count_moves(rasterize(new, old)) <= count_puts(rasterize(new, old)),
{
    lemma_scan_counts(new.cells, old.cells, new.cols, 0, unknown_state());
}

proof fn lemma_same_scan(cells: Seq<NcCell>, cols: int, i: int, st: NcRasterState)
    requires
        0 <= i <= cells.len(),
    ensures
        raster_from(cells, cells, cols, i, st) == Seq::<NcRasterOp>::empty(),
    decreases cells.len() - i,
{
    if i < cells.len() {
        lemma_same_scan(cells, cols, i + 1, st);
    }
}

/// A frame that the screen shows already takes no operation.
pub proof fn lemma_same_frame_needs_nothing(frame: NcGridView)
    ensures
        rasterize(frame, frame) == Seq::<NcRasterOp>::empty(),
{
    lemma_same_scan(frame.cells, frame.cols, 0, unknown_state());
}

/// A run of graphemes of one pen in one row takes one move of the cursor:
/// behind a grapheme written at a cell, the grapheme of the next cell of
/// the row is written with no operation but its own.
pub proof fn lemma_next_cell_needs_no_move(
    y: NcDimension,
    x: NcDimension,
    c: NcEgc,
    next: NcEgc,
    pen: NcPen,
)
    requires
        x + spec_egc_width(c) <= NcDimension::MAX,
    ensures
        cell_ops(
            crate::raster::state_after(y, x, c, pen),
            y,
            (x + spec_egc_width(c)) as NcDimension,
            next,
            pen,
        ) == seq![NcRasterOp::Put(next)],
{
    let st = crate::raster::state_after(y, x, c, pen);
    let at = (x + spec_egc_width(c)) as NcDimension;
    assert(cell_ops(st, y, at, next, pen) =~= seq![NcRasterOp::Put(next)]);
}

} // verus!
