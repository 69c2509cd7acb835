//! The rasterizer: the operations that turn the screen from the frame it
//! shows into a new one, touching only the cells that differ.
//!
//! The frame is scanned row by row. The rasterizer keeps what it believes of
//! the terminal: where the cursor is and which pen is active. At the start of
//! a scan it believes nothing. For a cell that differs from the screen's it
//! moves the cursor unless the last grapheme left it just there, switches
//! what differs of the pen, and writes the grapheme.

use vstd::prelude::*;
use crate::cell::{
    egc_width, pen_of, spec_egc_width, NcCell, NcEgc, NcGlyph, NcInk, NcPen, NcStyleMask,
    NCSTYLE_NONE,
};
use crate::grid::{
    lemma_index_inside, lemma_index_split, lemma_size_fits, NcDimension, NcGrid, NcGridView,
};

verus! {

/// One operation on the terminal.
#[derive(Clone, Copy, Debug, PartialEq, Eq, Structural)]
pub enum NcRasterOp {
    /// Put the cursor at row `y`, column `x`.
    Move { y: NcDimension, x: NcDimension },
    /// Make these the active styles. This resets both colours to the default.
    Style(NcStyleMask),
    /// Make this the active foreground colour.
    Fg(NcInk),
    /// Make this the active background colour.
    Bg(NcInk),
    /// Write the grapheme at the cursor with the active pen; the cursor moves
    /// behind it.
    Put(NcEgc),
}

/// What the rasterizer believes of the terminal.
#[derive(Clone, Copy, Debug, PartialEq, Eq, Structural)]
pub struct NcRasterState {
    pub cursor_known: bool,
    pub y: NcDimension,
    pub x: NcDimension,
    pub pen_known: bool,
    pub pen: NcPen,
}

/// The state in which nothing is believed.
pub open spec fn unknown_state() -> NcRasterState {
    NcRasterState {
        cursor_known: false,
        y: 0,
        x: 0,
        pen_known: false,
        pen: NcPen { style: NCSTYLE_NONE, fg: NcInk::Default, bg: NcInk::Default },
    }
}

/// The move to a cell: none where the cursor is believed to be there.
pub open spec fn move_ops(st: NcRasterState, y: NcDimension, x: NcDimension) -> Seq<NcRasterOp> {
    if st.cursor_known && st.y == y && st.x == x {
        Seq::empty()
    } else {
        seq![NcRasterOp::Move { y, x }]
    }
}

/// Whether the active styles are believed to be those of `pen`.
pub open spec fn style_kept(st: NcRasterState, pen: NcPen) -> bool {
    st.pen_known && st.pen.style == pen.style
}

/// The switch of styles: none where they are believed to be active.
pub open spec fn style_ops(st: NcRasterState, pen: NcPen) -> Seq<NcRasterOp> {
    if style_kept(st, pen) {
        Seq::empty()
    } else {
        seq![NcRasterOp::Style(pen.style)]
    }
}

/// The pen that is active once the styles are those of `pen`.
pub open spec fn styled_pen(st: NcRasterState, pen: NcPen) -> NcPen {
    if style_kept(st, pen) {
        st.pen
    } else {
        NcPen { style: pen.style, fg: NcInk::Default, bg: NcInk::Default }
    }
}

/// The switch of the foreground colour: none where it is active.
pub open spec fn fg_ops(active: NcPen, pen: NcPen) -> Seq<NcRasterOp> {
    if active.fg == pen.fg {
        Seq::empty()
    } else {
        seq![NcRasterOp::Fg(pen.fg)]
    }
}

/// The switch of the background colour: none where it is active.
pub open spec fn bg_ops(active: NcPen, pen: NcPen) -> Seq<NcRasterOp> {
    if active.bg == pen.bg {
        Seq::empty()
    } else {
        seq![NcRasterOp::Bg(pen.bg)]
    }
}

/// The operations that write the grapheme `c` with `pen` at row `y`, column `x`.
pub open spec fn cell_ops(st: NcRasterState, y: NcDimension, x: NcDimension, c: NcEgc, pen: NcPen) -> Seq<
    NcRasterOp,
> {
    move_ops(st, y, x) + style_ops(st, pen) + fg_ops(styled_pen(st, pen), pen) + bg_ops(
        styled_pen(st, pen),
        pen,
    ) + seq![NcRasterOp::Put(c)]
}

/// What is believed after the grapheme `c` was written with `pen` at row `y`,
/// column `x`.
pub open spec fn state_after(y: NcDimension, x: NcDimension, c: NcEgc, pen: NcPen) -> NcRasterState {
    NcRasterState {
        cursor_known: true,
        y,
        x: (x + spec_egc_width(c)) as NcDimension,
        pen_known: true,
        pen,
    }
}

/// Whether the cell is written: it differs from the screen's, and holds a
/// grapheme. (A continuation marker comes with the grapheme before it.)
pub open spec fn rewritten(new: NcCell, old: NcCell) -> bool {
    new != old && new.glyph is Egc
}

/// The operations for the cell at index `i` of a frame of `cols` columns.
pub open spec fn step_ops(st: NcRasterState, cols: int, i: int, new: NcCell, old: NcCell) -> Seq<
    NcRasterOp,
> {
    if rewritten(new, old) {
        cell_ops(
            st,
            (i / cols) as NcDimension,
            (i % cols) as NcDimension,
            new.glyph->Egc_0,
            pen_of(new),
        )
    } else {
        Seq::empty()
    }
}

/// What is believed after the cell at index `i`.
pub open spec fn step_state(st: NcRasterState, cols: int, i: int, new: NcCell, old: NcCell) -> NcRasterState {
    if rewritten(new, old) {
        state_after(
            (i / cols) as NcDimension,
            (i % cols) as NcDimension,
            new.glyph->Egc_0,
            pen_of(new),
        )
    } else {
        st
    }
}

/// The operations for the cells from index `i` on.
pub open spec fn raster_from(
    new: Seq<NcCell>,
    old: Seq<NcCell>,
    cols: int,
    i: int,
    st: NcRasterState,
) -> Seq<NcRasterOp>
    decreases new.len() - i,
{
    if i < 0 || i >= new.len() {
        Seq::empty()
    } else {
        step_ops(st, cols, i, new[i], old[i]) + raster_from(
            new,
            old,
            cols,
            i + 1,
            step_state(st, cols, i, new[i], old[i]),
        )
    }
}

/// The operations that turn a screen showing `old` into one showing `new`.
pub open spec fn rasterize(new: NcGridView, old: NcGridView) -> Seq<NcRasterOp> {
    raster_from(new.cells, old.cells, new.cols, 0, unknown_state())
}

/// How many of the operations write a grapheme.
pub open spec fn count_puts(ops: Seq<NcRasterOp>) -> nat
    decreases ops.len(),
{
    if ops.len() == 0 {
        0
    } else if ops[0] is Put {
        1 + count_puts(ops.drop_first())
    } else {
        count_puts(ops.drop_first())
    }
}

/// How many of the operations move the cursor.
pub open spec fn count_moves(ops: Seq<NcRasterOp>) -> nat
    decreases ops.len(),
{
    if ops.len() == 0 {
        0
    } else if ops[0] is Move {
        1 + count_moves(ops.drop_first())
    } else {
        count_moves(ops.drop_first())
    }
}

/// How many of the cells from index `i` on are left alone.
pub open spec fn elided_from(new: Seq<NcCell>, old: Seq<NcCell>, i: int) -> nat
    decreases new.len() - i,
{
    if i < 0 || i >= new.len() {
        0
    } else if rewritten(new[i], old[i]) {
        elided_from(new, old, i + 1)
    } else {
        1 + elided_from(new, old, i + 1)
    }
}

/// How many cells the scan from `old` to `new` leaves alone.
pub open spec fn elided(new: NcGridView, old: NcGridView) -> nat {
    elided_from(new.cells, old.cells, 0)
}

impl NcRasterState {
    /// The state in which nothing is believed.
    pub fn new() -> (st: Self)
        ensures
            st == unknown_state(),
    {
        NcRasterState { cursor_known: false, y: 0, x: 0, pen_known: false, pen: NcPen::new() }
    }
}

/// Appends the operations that write `c` with `pen` at row `y`, column `x`.
fn emit_cell(
    ops: &mut Vec<NcRasterOp>,
    st: &mut NcRasterState,
    y: NcDimension,
    x: NcDimension,
    c: NcEgc,
    pen: NcPen,
)
    requires
        x <= 0xffff,
    ensures
        final(ops)@ == old(ops)@ + cell_ops(*old(st), y, x, c, pen),
        *final(st) == state_after(y, x, c, pen),
{
    let ghost st0 = *st;
    let ghost ops0 = ops@;
    if !(st.cursor_known && st.y == y && st.x == x) {
        ops.push(NcRasterOp::Move { y, x });
    }
    let mut active = st.pen;
    if !(st.pen_known && st.pen.style == pen.style) {
        ops.push(NcRasterOp::Style(pen.style));
        active = NcPen { style: pen.style, fg: NcInk::Default, bg: NcInk::Default };
    }
    if active.fg != pen.fg {
        ops.push(NcRasterOp::Fg(pen.fg));
    }
    if active.bg != pen.bg {
        ops.push(NcRasterOp::Bg(pen.bg));
    }
    assert(ops@ =~= ops0 + move_ops(st0, y, x) + style_ops(st0, pen) + fg_ops(active, pen)
        + bg_ops(active, pen));
    ops.push(NcRasterOp::Put(c));
    *st = NcRasterState { cursor_known: true, y, x: x + egc_width(c), pen_known: true, pen };
}

/// Rasterizes: the operations that turn a screen showing `old` into one
/// showing `new`. Cells that are the same give no operation.
pub fn raster_ops(new: &NcGrid, old: &NcGrid) -> (ops: Vec<NcRasterOp>)
    requires
        new.wf(),
        old.wf(),
        new@.rows == old@.rows,
        new@.cols == old@.cols,
    ensures
        ops@ == rasterize(new@, old@),
{
    raster_scan(new, old).0
}

/// Rasterizes, and counts the cells that were left alone.
pub fn raster_scan(new: &NcGrid, old: &NcGrid) -> (r: (Vec<NcRasterOp>, usize))
    requires
        new.wf(),
        old.wf(),
        new@.rows == old@.rows,
        new@.cols == old@.cols,
    ensures
        r.0@ == rasterize(new@, old@),
        r.1 == elided(new@, old@),
{
    let rows = new.rows();
    let cols = new.cols();
    proof {
        lemma_size_fits(rows as int, cols as int);
    }
    let n: usize = (rows as usize) * (cols as usize);
    let mut ops: Vec<NcRasterOp> = Vec::new();
    let mut st = NcRasterState::new();
    let mut i: usize = 0;
    let mut r: NcDimension = 0;
    let mut c: NcDimension = 0;
    let mut left_alone: usize = 0;
    assert(ops@ + rasterize(new@, old@) =~= rasterize(new@, old@));
    while i < n
        invariant
            new.wf(),
            old.wf(),
            new@.rows == old@.rows,
            new@.cols == old@.cols,
            rows == new@.rows,
            cols == new@.cols,
            n == rows * cols,
            n == new@.cells.len(),
            i <= n,
            i == r * cols + c,
            i < n ==> 0 <= c < cols,
            ops@ + raster_from(new@.cells, old@.cells, cols as int, i as int, st) == rasterize(
                new@,
                old@,
            ),
            left_alone <= i,
            left_alone + elided_from(new@.cells, old@.cells, i as int) == elided(new@, old@),
        decreases n - i,
    {
        proof {
            lemma_index_split(cols as int, r as int, c as int);
            assert(r < rows) by (nonlinear_arith)
                requires
                    r * cols + c < rows * cols,
                    0 <= c,
                    0 < cols,
            ;
            lemma_index_inside(rows as int, cols as int, r as int, c as int);
        }
        let cell = new.get(r, c);
        let was = old.get(r, c);
        let ghost st0 = st;
        let ghost rest = raster_from(
            new@.cells,
            old@.cells,
            cols as int,
            i as int + 1,
            step_state(st0, cols as int, i as int, cell, was),
        );
        assert(raster_from(new@.cells, old@.cells, cols as int, i as int, st0) == step_ops(
            st0,
            cols as int,
            i as int,
            cell,
            was,
        ) + rest);
        let mut written = false;
        if cell != was {
            match cell.glyph {
                NcGlyph::Egc(ch) => {
                    emit_cell(&mut ops, &mut st, r, c, ch, cell.pen());
                    written = true;
                },
                _ => {},
            }
        }
        if !written {
            left_alone = left_alone + 1;
        }
        i = i + 1;
        c = c + 1;
        if c == cols {
            c = 0;
            r = r + 1;
            assert(r * cols + c == i) by (nonlinear_arith)
                requires
                    (r - 1) * cols + cols == i,
                    c == 0,
            ;
        }
    }
    (ops, left_alone)
}

} // verus!
