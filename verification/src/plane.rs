//! Planes: a cell buffer with a place in its pile, a write cursor and a pen.

use vstd::prelude::*;
use crate::caps::{egc_supported, ink_supported, style_supported, NcCapabilities};
use crate::cell::{
    printable, spec_egc_width, transparent_cell, NcAlpha, NcCell, NcChannel, NcChannelPair,
    NcColor, NcEgc, NcGlyph, NcInk, NcStyleMask, egc_width, NCSTYLE_NONE,
};
use crate::codec::chars_of;
use crate::error::{NcError, NcResult};
use crate::grid::{
    lemma_index_inside, lemma_index_split, lemma_put_cells, lemma_size_fits, NcDimension, NcGrid,
    NcGridView, NC_MAX_DIM, filled,
};

verus! {

/// A plane as a value.
pub struct NcPlaneView {
    /// The cell buffer.
    pub grid: NcGridView,
    /// The row of the plane's first row within the pile.
    pub y: int,
    /// The column of the plane's first column within the pile.
    pub x: int,
    pub cursor_y: int,
    /// The cursor's column; the number of columns where the row is full.
    pub cursor_x: int,
    /// The styles that new cells get.
    pub style: NcStyleMask,
    /// The channels that new cells get.
    pub channels: NcChannelPair,
    /// The extent of the pile that the plane lies in.
    pub pile_rows: int,
    pub pile_cols: int,
    pub caps: NcCapabilities,
    /// Whether this is the pile's standard plane.
    pub standard: bool,
}

/// Whether a rectangle of `rows` by `cols` cells at row `y`, column `x` is a
/// plane's place in a pile of `pile_rows` by `pile_cols` cells: it has a cell
/// and lies inside.
pub open spec fn fits(y: int, x: int, rows: int, cols: int, pile_rows: int, pile_cols: int) -> bool {
    &&& 0 <= y && 0 <= x
    &&& 1 <= rows && 1 <= cols
    &&& y + rows <= pile_rows
    &&& x + cols <= pile_cols
}

/// True of the cells that a plane holds: the transparent marker, or a
/// grapheme that is no control character.
pub open spec fn plane_cell(cell: NcCell) -> bool {
    match cell.glyph {
        NcGlyph::Transparent => true,
        NcGlyph::Continuation => false,
        NcGlyph::Egc(c) => printable(c),
    }
}

/// The number of columns that a text takes.
pub open spec fn text_width(s: Seq<char>) -> int
    decreases s.len(),
{
    if s.len() == 0 {
        0
    } else {
        spec_egc_width(s[0]) + text_width(s.drop_first())
    }
}

/// Whether every grapheme of a text can be written.
pub open spec fn writable(caps: NcCapabilities, s: Seq<char>) -> bool {
    forall|i: int| 0 <= i < s.len() ==> egc_supported(caps, #[trigger] s[i])
}

/// The grid after `s` was written into row `y` from column `x` on: each
/// grapheme in its cell with the given styles and channels, and the second
/// column of a double-width one left transparent.
pub open spec fn written(
    g: NcGridView,
    y: int,
    x: int,
    s: Seq<char>,
    style: NcStyleMask,
    channels: NcChannelPair,
) -> NcGridView
    decreases s.len(),
{
    if s.len() == 0 {
        g
    } else {
        let head = g.put(y, x, NcCell { glyph: NcGlyph::Egc(s[0]), style, channels });
        let both = if spec_egc_width(s[0]) == 2 {
            head.put(y, x + 1, transparent_cell())
        } else {
            head
        };
        written(both, y, x + spec_egc_width(s[0]), s.drop_first(), style, channels)
    }
}

/// The grid cut or grown to `rows` by `cols` cells: what lies inside both
/// stays where it is, and what is new is transparent.
pub open spec fn resized(g: NcGridView, rows: int, cols: int) -> NcGridView {
    NcGridView {
        rows,
        cols,
        cells: Seq::new(
            (rows * cols) as nat,
            |i: int|
                if g.inside(i / cols, i % cols) {
                    g.at(i / cols, i % cols)
                } else {
                    transparent_cell()
                },
        ),
    }
}

/// A new plane: transparent cells, the cursor at the first of them, no
/// styles and the default colours.
pub open spec fn fresh_plane(
    y: int,
    x: int,
    rows: int,
    cols: int,
    pile_rows: int,
    pile_cols: int,
    caps: NcCapabilities,
    standard: bool,
) -> NcPlaneView {
    NcPlaneView {
        grid: filled(rows, cols, transparent_cell()),
        y,
        x,
        cursor_y: 0,
        cursor_x: 0,
        style: NCSTYLE_NONE,
        channels: crate::cell::default_channels(),
        pile_rows,
        pile_cols,
        caps,
        standard,
    }
}

pub open spec fn min_int(a: int, b: int) -> int {
    if a <= b {
        a
    } else {
        b
    }
}

impl NcPlaneView {
    pub open spec fn wf(self) -> bool {
        &&& self.grid.wf()
        &&& fits(self.y, self.x, self.grid.rows, self.grid.cols, self.pile_rows, self.pile_cols)
        &&& self.pile_rows <= NC_MAX_DIM
        &&& self.pile_cols <= NC_MAX_DIM
        &&& 0 <= self.cursor_y < self.grid.rows
        &&& 0 <= self.cursor_x <= self.grid.cols
        &&& forall|i: int| 0 <= i < self.grid.cells.len() ==> plane_cell(#[trigger] self.grid.cells[i])
        &&& self.standard ==> self.y == 0 && self.x == 0 && self.grid.rows == self.pile_rows
            && self.grid.cols == self.pile_cols
    }

    /// Whether the plane has a cell at row `r`, column `c` of the pile.
    pub open spec fn covers(self, r: int, c: int) -> bool {
        self.y <= r < self.y + self.grid.rows && self.x <= c < self.x + self.grid.cols
    }

    /// The plane's cell at row `r`, column `c` of the pile.
    pub open spec fn cell_at(self, r: int, c: int) -> NcCell {
        self.grid.at(r - self.y, c - self.x)
    }

    /// The plane after a text was put at its cursor: see `NcPlane::putstr`.
    pub open spec fn put(self, s: Seq<char>) -> NcPlaneView {
        NcPlaneView {
            grid: written(self.grid, self.cursor_y, self.cursor_x, s, self.style, self.channels),
            cursor_x: self.cursor_x + text_width(s),
            ..self
        }
    }

    /// Why a text cannot be put at the cursor, if it cannot.
    pub open spec fn put_refused(self, s: Seq<char>) -> Option<NcError> {
        if !writable(self.caps, s) {
            Some(NcError::CapabilityError)
        } else if self.cursor_x + text_width(s) > self.grid.cols {
            Some(NcError::GeometryError)
        } else {
            None
        }
    }

    /// The plane with `rows` by `cols` cells: see `NcPlane::resize`.
    pub open spec fn resize(self, rows: int, cols: int) -> NcPlaneView {
        NcPlaneView {
            grid: resized(self.grid, rows, cols),
            cursor_y: min_int(self.cursor_y, rows - 1),
            cursor_x: min_int(self.cursor_x, cols),
            ..self
        }
    }
}

/// The plane in a pile that has `rows` by `cols` cells now.
pub open spec fn rebound(v: NcPlaneView, rows: int, cols: int) -> NcPlaneView {
    NcPlaneView { pile_rows: rows, pile_cols: cols, ..v }
}

/// The standard plane of a pile that has `rows` by `cols` cells now: it
/// spans the pile again, and keeps what lies inside both sizes.
pub open spec fn respanned(v: NcPlaneView, rows: int, cols: int) -> NcPlaneView {
    NcPlaneView { pile_rows: rows, pile_cols: cols, ..v.resize(rows, cols) }
}

/// The plane moved into another pile: it has the place it was given there,
/// and that pile's extent and capabilities.
pub open spec fn rehomed(
    v: NcPlaneView,
    y: int,
    x: int,
    pile_rows: int,
    pile_cols: int,
    caps: NcCapabilities,
) -> NcPlaneView {
    NcPlaneView { y, x, pile_rows, pile_cols, caps, ..v }
}

proof fn lemma_text_width_bounds(s: Seq<char>)
    ensures
        s.len() <= text_width(s) <= 2 * s.len(),
    decreases s.len(),
{
    if s.len() > 0 {
        lemma_text_width_bounds(s.drop_first());
    }
}

proof fn lemma_written_keeps(
    g: NcGridView,
    y: int,
    x: int,
    s: Seq<char>,
    style: NcStyleMask,
    channels: NcChannelPair,
)
    requires
        g.wf(),
        0 <= y < g.rows,
        0 <= x,
        x + text_width(s) <= g.cols,
        forall|i: int| 0 <= i < s.len() ==> printable(#[trigger] s[i]),
        forall|i: int| 0 <= i < g.cells.len() ==> plane_cell(#[trigger] g.cells[i]),
    ensures
        written(g, y, x, s, style, channels).wf(),
        written(g, y, x, s, style, channels).rows == g.rows,
        written(g, y, x, s, style, channels).cols == g.cols,
        forall|i: int|
            0 <= i < g.cells.len() ==> plane_cell(
                #[trigger] written(g, y, x, s, style, channels).cells[i],
            ),
    decreases s.len(),
{
    if s.len() > 0 {
        lemma_text_width_bounds(s.drop_first());
        let head = g.put(y, x, NcCell { glyph: NcGlyph::Egc(s[0]), style, channels });
        lemma_index_inside(g.rows, g.cols, y, x);
        let both = if spec_egc_width(s[0]) == 2 {
            head.put(y, x + 1, transparent_cell())
        } else {
            head
        };
        if spec_egc_width(s[0]) == 2 {
            lemma_index_inside(g.rows, g.cols, y, x + 1);
        }
        lemma_put_cells(g, y, x, NcCell { glyph: NcGlyph::Egc(s[0]), style, channels });
        if spec_egc_width(s[0]) == 2 {
            lemma_put_cells(head, y, x + 1, transparent_cell());
        }
        assert forall|i: int| 0 <= i < both.cells.len() implies plane_cell(
            #[trigger] both.cells[i],
        ) by {
            assert(plane_cell(g.cells[i]));
        }
        assert forall|i: int| 0 <= i < s.drop_first().len() implies printable(
            #[trigger] s.drop_first()[i],
        ) by {
            assert(s.drop_first()[i] == s[i + 1]);
        }
        lemma_written_keeps(both, y, x + spec_egc_width(s[0]), s.drop_first(), style, channels);
    }
}

/// A plane.
#[derive(Debug)]
pub struct NcPlane {
    grid: NcGrid,
    y: NcDimension,
    x: NcDimension,
    cursor_y: NcDimension,
    cursor_x: NcDimension,
    style: NcStyleMask,
    channels: NcChannelPair,
    pile_rows: NcDimension,
    pile_cols: NcDimension,
    caps: NcCapabilities,
    standard: bool,
}

impl View for NcPlane {
    type V = NcPlaneView;

    closed spec fn view(&self) -> NcPlaneView {
        NcPlaneView {
            grid: self.grid@,
            y: self.y as int,
            x: self.x as int,
            cursor_y: self.cursor_y as int,
            cursor_x: self.cursor_x as int,
            style: self.style,
            channels: self.channels,
            pile_rows: self.pile_rows as int,
            pile_cols: self.pile_cols as int,
            caps: self.caps,
            standard: self.standard,
        }
    }
}

impl NcPlane {
    /// True of every plane that this library hands out.
    pub open spec fn wf(&self) -> bool {
        self@.wf()
    }

    /// A plane of transparent cells with its cursor at its first cell and a
    /// pen without styles in the default colours. It is refused with
    /// `GeometryError` where it does not fit the pile.
    pub fn new(
        y: NcDimension,
        x: NcDimension,
        rows: NcDimension,
        cols: NcDimension,
        pile_rows: NcDimension,
        pile_cols: NcDimension,
        caps: NcCapabilities,
        standard: bool,
    ) -> (r: NcResult<Self>)
        requires
            pile_rows <= NC_MAX_DIM,
            pile_cols <= NC_MAX_DIM,
            standard ==> y == 0 && x == 0 && rows == pile_rows && cols == pile_cols,
        ensures
            r is Ok <==> fits(
                y as int,
                x as int,
                rows as int,
                cols as int,
                pile_rows as int,
                pile_cols as int,
            ),
            r is Err ==> r == Err::<Self, NcError>(NcError::GeometryError),
            r matches Ok(p) ==> p.wf() && p@ == fresh_plane(
                y as int,
                x as int,
                rows as int,
                cols as int,
                pile_rows as int,
                pile_cols as int,
                caps,
                standard,
            ),
    {
        if rows < 1 || cols < 1 || rows > pile_rows || cols > pile_cols || y > pile_rows - rows || x
            > pile_cols - cols {
            return Err(NcError::GeometryError);
        }
        let grid = NcGrid::new(rows, cols, NcCell::transparent());
        Ok(
            NcPlane {
                grid,
                y,
                x,
                cursor_y: 0,
                cursor_x: 0,
                style: NCSTYLE_NONE,
                channels: NcChannelPair::new(),
                pile_rows,
                pile_cols,
                caps,
                standard,
            },
        )
    }

    /// The plane's rows and columns.
    pub fn dim_yx(&self) -> (r: (NcDimension, NcDimension))
        ensures
            r.0 == self@.grid.rows,
            r.1 == self@.grid.cols,
    {
        (self.grid.rows(), self.grid.cols())
    }

    /// The row and column of the plane's first cell within its pile.
    pub fn yx(&self) -> (r: (NcDimension, NcDimension))
        ensures
            r.0 == self@.y,
            r.1 == self@.x,
    {
        (self.y, self.x)
    }

    pub fn cursor_yx(&self) -> (r: (NcDimension, NcDimension))
        ensures
            r.0 == self@.cursor_y,
            r.1 == self@.cursor_x,
    {
        (self.cursor_y, self.cursor_x)
    }

    pub fn capabilities(&self) -> (r: NcCapabilities)
        ensures
            r == self@.caps,
    {
        self.caps
    }

    pub fn is_standard(&self) -> (r: bool)
        ensures
            r == self@.standard,
    {
        self.standard
    }

    pub fn styles(&self) -> (r: NcStyleMask)
        ensures
            r == self@.style,
    {
        self.style
    }

    pub fn channels(&self) -> (r: NcChannelPair)
        ensures
            r == self@.channels,
    {
        self.channels
    }

    /// Whether the plane has a cell at row `r`, column `c` of the pile.
    pub fn covers(&self, r: NcDimension, c: NcDimension) -> (b: bool)
        requires
            self.wf(),
        ensures
            b == self@.covers(r as int, c as int),
    {
        self.y <= r && r - self.y < self.grid.rows() && self.x <= c && c - self.x
            < self.grid.cols()
    }

    /// The plane's cell at row `r`, column `c` of the pile.
    pub fn cell_at(&self, r: NcDimension, c: NcDimension) -> (cell: NcCell)
        requires
            self.wf(),
            self@.covers(r as int, c as int),
        ensures
            cell == self@.cell_at(r as int, c as int),
            plane_cell(cell),
    {
        proof {
            lemma_index_inside(
                self@.grid.rows,
                self@.grid.cols,
                r as int - self@.y,
                c as int - self@.x,
            );
        }
        self.grid.get(r - self.y, c - self.x)
    }

    /// The cell at row `y`, column `x` of the plane; `GeometryError` where
    /// the plane has no such cell.
    pub fn at_yx(&self, y: NcDimension, x: NcDimension) -> (r: NcResult<NcCell>)
        requires
            self.wf(),
        ensures
            r == if self@.grid.inside(y as int, x as int) {
                Ok::<NcCell, NcError>(self@.grid.at(y as int, x as int))
            } else {
                Err::<NcCell, NcError>(NcError::GeometryError)
            },
    {
        if y < self.grid.rows() && x < self.grid.cols() {
            Ok(self.grid.get(y, x))
        } else {
            Err(NcError::GeometryError)
        }
    }

    /// Moves the cursor to a cell of the plane; `GeometryError`, and no
    /// change, where the plane has no such cell.
    pub fn cursor_move_yx(&mut self, y: NcDimension, x: NcDimension) -> (r: NcResult<()>)
        requires
            old(self).wf(),
        ensures
            final(self).wf(),
            r is Ok <==> old(self)@.grid.inside(y as int, x as int),
            r is Ok ==> final(self)@ == (NcPlaneView {
                cursor_y: y as int,
                cursor_x: x as int,
                ..old(self)@
            }),
            r is Err ==> r == Err::<(), NcError>(NcError::GeometryError) && final(self)@ == old(self)@,
    {
        if y < self.grid.rows() && x < self.grid.cols() {
            self.cursor_y = y;
            self.cursor_x = x;
            Ok(())
        } else {
            Err(NcError::GeometryError)
        }
    }

    /// Sets the styles of the cells to come; `CapabilityError`, and no
    /// change, where the terminal lacks one of them.
    pub fn set_styles(&mut self, style: NcStyleMask) -> (r: NcResult<()>)
        ensures
            r is Ok <==> style_supported(old(self)@.caps, style),
            r is Ok ==> final(self)@ == (NcPlaneView { style, ..old(self)@ }),
            r is Err ==> r == Err::<(), NcError>(NcError::CapabilityError) && final(self)@ == old(self)@,
    {
        if self.caps.supports_style(style) {
            self.style = style;
            Ok(())
        } else {
            Err(NcError::CapabilityError)
        }
    }

    /// Sets the foreground colour of the cells to come, opaque;
    /// `CapabilityError`, and no change, where the terminal cannot show it.
    pub fn set_fg(&mut self, ink: NcInk) -> (r: NcResult<()>)
        ensures
            r is Ok <==> ink_supported(old(self)@.caps, ink),
            r is Ok ==> final(self)@ == (NcPlaneView {
                channels: NcChannelPair { fg: crate::cell::opaque(ink), ..old(self)@.channels },
                ..old(self)@
            }),
            r is Err ==> r == Err::<(), NcError>(NcError::CapabilityError) && final(self)@ == old(self)@,
    {
        if self.caps.supports_ink(ink) {
            self.channels.fg = NcChannel::new(ink);
            Ok(())
        } else {
            Err(NcError::CapabilityError)
        }
    }

    /// Sets the background colour of the cells to come, opaque;
    /// `CapabilityError`, and no change, where the terminal cannot show it.
    pub fn set_bg(&mut self, ink: NcInk) -> (r: NcResult<()>)
        ensures
            r is Ok <==> ink_supported(old(self)@.caps, ink),
            r is Ok ==> final(self)@ == (NcPlaneView {
                channels: NcChannelPair { bg: crate::cell::opaque(ink), ..old(self)@.channels },
                ..old(self)@
            }),
            r is Err ==> r == Err::<(), NcError>(NcError::CapabilityError) && final(self)@ == old(self)@,
    {
        if self.caps.supports_ink(ink) {
            self.channels.bg = NcChannel::new(ink);
            Ok(())
        } else {
            Err(NcError::CapabilityError)
        }
    }

    /// Sets the foreground colour by its components: see `set_fg`.
    pub fn set_fg_rgb8(&mut self, r: NcColor, g: NcColor, b: NcColor) -> (res: NcResult<()>)
        ensures
            res is Ok <==> old(self)@.caps.truecolor,
            res is Ok ==> final(self)@ == (NcPlaneView {
                channels: NcChannelPair {
                    fg: crate::cell::opaque(NcInk::Rgb { r, g, b }),
                    ..old(self)@.channels
                },
                ..old(self)@
            }),
            res is Err ==> res == Err::<(), NcError>(NcError::CapabilityError) && final(self)@
                == old(self)@,
    {
        self.set_fg(NcInk::Rgb { r, g, b })
    }

    /// Sets the background colour by its components: see `set_bg`.
    pub fn set_bg_rgb8(&mut self, r: NcColor, g: NcColor, b: NcColor) -> (res: NcResult<()>)
        ensures
            res is Ok <==> old(self)@.caps.truecolor,
            res is Ok ==> final(self)@ == (NcPlaneView {
                channels: NcChannelPair {
                    bg: crate::cell::opaque(NcInk::Rgb { r, g, b }),
                    ..old(self)@.channels
                },
                ..old(self)@
            }),
            res is Err ==> res == Err::<(), NcError>(NcError::CapabilityError) && final(self)@
                == old(self)@,
    {
        self.set_bg(NcInk::Rgb { r, g, b })
    }

    /// Says how the foreground of the cells to come combines with what lies below.
    pub fn set_fg_alpha(&mut self, alpha: NcAlpha)
        ensures
            final(self)@ == (NcPlaneView {
                channels: NcChannelPair {
                    fg: NcChannel { alpha, ..old(self)@.channels.fg },
                    ..old(self)@.channels
                },
                ..old(self)@
            }),
    {
        self.channels.fg.alpha = alpha;
    }

    /// Says how the background of the cells to come combines with what lies below.
    pub fn set_bg_alpha(&mut self, alpha: NcAlpha)
        ensures
            final(self)@ == (NcPlaneView {
                channels: NcChannelPair {
                    bg: NcChannel { alpha, ..old(self)@.channels.bg },
                    ..old(self)@.channels
                },
                ..old(self)@
            }),
    {
        self.channels.bg.alpha = alpha;
    }

    /// Makes every cell transparent and puts the cursor at the first cell.
    pub fn erase(&mut self)
        requires
            old(self).wf(),
        ensures
            final(self).wf(),
            final(self)@ == (NcPlaneView {
                grid: filled(old(self)@.grid.rows, old(self)@.grid.cols, transparent_cell()),
                cursor_y: 0,
                cursor_x: 0,
                ..old(self)@
            }),
    {
        self.grid = NcGrid::new(self.grid.rows(), self.grid.cols(), NcCell::transparent());
        self.cursor_y = 0;
        self.cursor_x = 0;
    }

    /// Moves the plane within its pile. The standard plane stays where it
    /// is, and no plane leaves the pile: `GeometryError`, and no change.
    pub fn move_yx(&mut self, y: NcDimension, x: NcDimension) -> (r: NcResult<()>)
        requires
            old(self).wf(),
        ensures
            final(self).wf(),
            r is Ok <==> !old(self)@.standard && fits(
                y as int,
                x as int,
                old(self)@.grid.rows,
                old(self)@.grid.cols,
                old(self)@.pile_rows,
                old(self)@.pile_cols,
            ),
            r is Ok ==> final(self)@ == (NcPlaneView { y: y as int, x: x as int, ..old(self)@ }),
            r is Err ==> r == Err::<(), NcError>(NcError::GeometryError) && final(self)@ == old(self)@,
    {
        if self.standard || y > self.pile_rows - self.grid.rows() || x > self.pile_cols
            - self.grid.cols() {
            return Err(NcError::GeometryError);
        }
        self.y = y;
        self.x = x;
        Ok(())
    }

    /// Gives the plane `rows` by `cols` cells, keeping its place. What lies
    /// inside both sizes stays, what is new is transparent, and the cursor
    /// is brought back inside. The standard plane keeps its size, and no
    /// plane grows out of its pile or loses its last cell: `GeometryError`,
    /// and no change.
    pub fn resize(&mut self, rows: NcDimension, cols: NcDimension) -> (r: NcResult<()>)
        requires
            old(self).wf(),
        ensures
            final(self).wf(),
            r is Ok <==> !old(self)@.standard && fits(
                old(self)@.y,
                old(self)@.x,
                rows as int,
                cols as int,
                old(self)@.pile_rows,
                old(self)@.pile_cols,
            ),
            r is Ok ==> final(self)@ == old(self)@.resize(rows as int, cols as int),
            r is Err ==> r == Err::<(), NcError>(NcError::GeometryError) && final(self)@ == old(self)@,
    {
        if self.standard || rows < 1 || cols < 1 || rows > self.pile_rows || cols > self.pile_cols
            || self.y > self.pile_rows - rows || self.x > self.pile_cols - cols {
            return Err(NcError::GeometryError);
        }
        self.grid = self.regrid(rows, cols);
        if self.cursor_y > rows - 1 {
            self.cursor_y = rows - 1;
        }
        if self.cursor_x > cols {
            self.cursor_x = cols;
        }
        Ok(())
    }

    /// Puts the plane into another pile.
    pub(crate) fn rehome(
        &mut self,
        y: NcDimension,
        x: NcDimension,
        pile_rows: NcDimension,
        pile_cols: NcDimension,
        caps: NcCapabilities,
    )
        ensures
            final(self)@ == rehomed(
                old(self)@,
                y as int,
                x as int,
                pile_rows as int,
                pile_cols as int,
                caps,
            ),
    {
        self.y = y;
        self.x = x;
        self.pile_rows = pile_rows;
        self.pile_cols = pile_cols;
        self.caps = caps;
    }

    /// Tells the plane the new size of its pile.
    pub(crate) fn rebound(&mut self, rows: NcDimension, cols: NcDimension)
        ensures
            final(self)@ == rebound(old(self)@, rows as int, cols as int),
    {
        self.pile_rows = rows;
        self.pile_cols = cols;
    }

    /// Has the plane span a pile of `rows` by `cols` cells.
    pub(crate) fn respan(&mut self, rows: NcDimension, cols: NcDimension)
        requires
            old(self).wf(),
            old(self)@.y == 0,
            old(self)@.x == 0,
            1 <= rows <= NC_MAX_DIM,
            1 <= cols <= NC_MAX_DIM,
        ensures
            final(self)@ == respanned(old(self)@, rows as int, cols as int),
            final(self).wf(),
    {
        self.grid = self.regrid(rows, cols);
        if self.cursor_y > rows - 1 {
            self.cursor_y = rows - 1;
        }
        if self.cursor_x > cols {
            self.cursor_x = cols;
        }
        self.pile_rows = rows;
        self.pile_cols = cols;
    }

    /// The cell buffer cut or grown to `rows` by `cols` cells.
    fn regrid(&self, rows: NcDimension, cols: NcDimension) -> (g: NcGrid)
        requires
            self.wf(),
            1 <= rows <= NC_MAX_DIM,
            1 <= cols <= NC_MAX_DIM,
        ensures
            g.wf(),
            g@ == resized(self@.grid, rows as int, cols as int),
            forall|i: int| 0 <= i < g@.cells.len() ==> plane_cell(#[trigger] g@.cells[i]),
    {
        proof {
            lemma_size_fits(rows as int, cols as int);
        }
        let n: usize = (rows as usize) * (cols as usize);
        let mut cells: Vec<NcCell> = Vec::new();
        let mut i: usize = 0;
        let mut r: NcDimension = 0;
        let mut c: NcDimension = 0;
        while i < n
            invariant
                self.wf(),
                1 <= rows <= NC_MAX_DIM,
                1 <= cols <= NC_MAX_DIM,
                n == rows * cols,
                i <= n,
                i == r * cols + c,
                0 <= c < cols,
                cells@.len() == i,
                forall|j: int|
                    0 <= j < i ==> #[trigger] cells@[j] == resized(
                        self@.grid,
                        rows as int,
                        cols as int,
                    ).cells[j],
                forall|j: int| 0 <= j < i ==> plane_cell(#[trigger] cells@[j]),
            decreases n - i,
        {
            proof {
                lemma_index_split(cols as int, r as int, c as int);
                assert(r < rows) by (nonlinear_arith)
                    requires
                        r * cols + c < rows * cols,
                        0 <= c,
                        0 < cols,
                ;
            }
            let cell = if r < self.grid.rows() && c < self.grid.cols() {
                proof {
                    lemma_index_inside(self@.grid.rows, self@.grid.cols, r as int, c as int);
                }
                self.grid.get(r, c)
            } else {
                NcCell::transparent()
            };
            cells.push(cell);
            i = i + 1;
            c = c + 1;
            if c == cols {
                c = 0;
                r = r + 1;
                assert(r * cols + c == i) by (nonlinear_arith)
                    requires
                        (r - 1) * cols + cols == i,
                        c == 0,
                ;
            }
        }
        assert(cells@ =~= resized(self@.grid, rows as int, cols as int).cells);
        NcGrid::from_cells(rows, cols, cells)
    }

    /// Puts one grapheme at the cursor: see `putstr`.
    pub fn putchar(&mut self, c: NcEgc) -> (r: NcResult<NcDimension>)
        requires
            old(self).wf(),
        ensures
            final(self).wf(),
            match old(self)@.put_refused(seq![c]) {
                Some(e) => r == Err::<NcDimension, NcError>(e) && final(self)@ == old(self)@,
                None => r == Ok::<NcDimension, NcError>(text_width(seq![c]) as NcDimension)
                    && final(self)@ == old(self)@.put(seq![c]),
            },
    {
        let mut chars: Vec<char> = Vec::new();
        chars.push(c);
        self.put_chars(&chars)
    }

    /// Puts a text at the cursor, in the current styles and channels, and
    /// moves the cursor behind it. A double-width grapheme takes two cells,
    /// the second of which is left transparent. The text is put as a whole or
    /// not at all: `CapabilityError` where it holds a grapheme that cannot be
    /// written, else `GeometryError` where it does not fit between the cursor
    /// and the end of the row. The result is the number of columns written.
    pub fn putstr(&mut self, text: &str) -> (r: NcResult<NcDimension>)
        requires
            old(self).wf(),
        ensures
            final(self).wf(),
            match old(self)@.put_refused(text@) {
                Some(e) => r == Err::<NcDimension, NcError>(e) && final(self)@ == old(self)@,
                None => r == Ok::<NcDimension, NcError>(text_width(text@) as NcDimension)
                    && final(self)@ == old(self)@.put(text@),
            },
    {
        let chars = chars_of(text);
        self.put_chars(&chars)
    }

    fn put_chars(&mut self, chars: &Vec<char>) -> (r: NcResult<NcDimension>)
        requires
            old(self).wf(),
        ensures
            final(self).wf(),
            match old(self)@.put_refused(chars@) {
                Some(e) => r == Err::<NcDimension, NcError>(e) && final(self)@ == old(self)@,
                None => r == Ok::<NcDimension, NcError>(text_width(chars@) as NcDimension)
                    && final(self)@ == old(self)@.put(chars@),
            },
    {
        let n = chars.len();
        let room: NcDimension = self.grid.cols() - self.cursor_x;
        // First pass: can all of it be written, and how wide is it?
        let mut i: usize = 0;
        let mut width: NcDimension = 0;
        let mut too_wide = false;
        assert(chars@.skip(0) =~= chars@);
        while i < n
            invariant
                i <= n,
                n == chars@.len(),
                room <= NC_MAX_DIM,
                self.wf(),
                self@ == old(self)@,
                room == self@.grid.cols - self@.cursor_x,
                forall|j: int| 0 <= j < i ==> egc_supported(self@.caps, #[trigger] chars@[j]),
                !too_wide ==> width + text_width(chars@.skip(i as int)) == text_width(chars@),
                !too_wide ==> width <= room,
                too_wide ==> text_width(chars@) > room,
            decreases n - i,
        {
            let c = chars[i];
            if !self.caps.supports_egc(c) {
                return Err(NcError::CapabilityError);
            }
            proof {
                assert(chars@.skip(i as int).drop_first() =~= chars@.skip(i as int + 1));
                lemma_text_width_bounds(chars@.skip(i as int + 1));
            }
            if !too_wide {
                let w = egc_width(c);
                if w > room - width {
                    too_wide = true;
                } else {
                    width = width + w;
                }
            }
            i = i + 1;
        }
        if too_wide {
            return Err(NcError::GeometryError);
        }
        // Second pass: write.
        let y = self.cursor_y;
        let style = self.style;
        let channels = self.channels;
        let mut k: usize = 0;
        let ghost x0 = self.cursor_x as int;
        while k < n
            invariant
                k <= n,
                n == chars@.len(),
                self.wf(),
                y == self@.cursor_y,
                self@ == (NcPlaneView {
                    grid: self@.grid,
                    cursor_x: self@.cursor_x,
                    ..old(self)@
                }),
                style == old(self)@.style,
                channels == old(self)@.channels,
                self@.grid.rows == old(self)@.grid.rows,
                self@.grid.cols == old(self)@.grid.cols,
                forall|j: int| 0 <= j < n ==> printable(#[trigger] chars@[j]),
                self@.cursor_x + text_width(chars@.skip(k as int)) == x0 + text_width(chars@),
                x0 + text_width(chars@) <= self@.grid.cols,
                x0 == old(self)@.cursor_x,
                written(
                    self@.grid,
                    y as int,
                    self@.cursor_x,
                    chars@.skip(k as int),
                    style,
                    channels,
                ) == written(old(self)@.grid, y as int, x0, chars@, style, channels),
            decreases n - k,
        {
            let c = chars[k];
            let w = egc_width(c);
            proof {
                assert(chars@.skip(k as int).drop_first() =~= chars@.skip(k as int + 1));
                lemma_text_width_bounds(chars@.skip(k as int + 1));
                lemma_index_inside(
                    self@.grid.rows,
                    self@.grid.cols,
                    y as int,
                    self@.cursor_x,
                );
                if w == 2 {
                    lemma_index_inside(
                        self@.grid.rows,
                        self@.grid.cols,
                        y as int,
                        self@.cursor_x + 1,
                    );
                }
            }
            let x = self.cursor_x;
            let ghost before = self@.grid;
            self.grid.set(y, x, NcCell { glyph: NcGlyph::Egc(c), style, channels });
            let ghost head = self@.grid;
            if w == 2 {
                self.grid.set(y, x + 1, NcCell::transparent());
            }
            self.cursor_x = x + w;
            k = k + 1;
            proof {
                lemma_put_cells(
                    before,
                    y as int,
                    x as int,
                    NcCell { glyph: NcGlyph::Egc(c), style, channels },
                );
                if w == 2 {
                    lemma_put_cells(head, y as int, x as int + 1, transparent_cell());
                }
                assert forall|j: int| 0 <= j < self@.grid.cells.len() implies plane_cell(
                    #[trigger] self@.grid.cells[j],
                ) by {
                    assert(plane_cell(before.cells[j]));
                }
            }
        }
        Ok(width)
    }
}

} // verus!
