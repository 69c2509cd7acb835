//! The context: one terminal's pile, capabilities, sink and input, from
//! start to stop.

use vstd::prelude::*;
use crate::caps::NcCapabilities;
use crate::cell::{blank_cell, NcCell, NcChannelPair, NcEgc, NcGlyph, NcStyleMask};
use crate::codec::{decimal_of, push_bytes, push_decimal};
use crate::compose::{composite, frame_ok};
use crate::error::{NcError, NcResult};
use crate::event::{NcEvent, NcInput};
use crate::file::{NcFile, NcFileView};
use crate::grid::{filled, NcDimension, NcGrid, NcGridView, NC_MAX_DIM};
use crate::input::{
    acquire_step, resume_step, same_result, NcAcquired, NcInputMux, NcInputState, NcInputView,
    NcTime, NcWaitOutcome,
};
use crate::options::{
    flag_set, NcLogLevel, NotcursesOptions, NCOPTION_NO_ALTERNATE_SCREEN,
    NCOPTION_NO_QUIT_SIGHANDLERS, NCOPTION_NO_WINCH_SIGHANDLER, NCOPTION_SUPPRESS_BANNERS,
};
use crate::pile::{NcPile, NcPileView, NcPlaneId, NCPLANE_STANDARD};
use crate::plane::{fresh_plane, min_int, NcPlane, NcPlaneView};
use crate::raster::{elided, raster_ops, raster_scan, rasterize, NcRasterOp};
use crate::signal::{NcSignalSet, SIGINT, SIGQUIT, SIGTERM, SIGWINCH};
use crate::vt::{
    clear_bytes, push_clear, enter_alt_bytes, hide_cursor_bytes, leave_alt_bytes, mouse_off_bytes, mouse_on_bytes,
    move_bytes, ops_bytes, push_alt_screen, push_hide_cursor, push_mouse, push_move, push_ops,
    push_show_cursor, show_cursor_bytes,
};

verus! {

/// The mode of a terminal, as far as a context changes it.
#[derive(Clone, Copy, Debug, PartialEq, Eq, Structural)]
pub struct NcTermMode {
    pub cursor_visible: bool,
    pub alt_screen: bool,
    /// Whether the line discipline turns keys into signals.
    pub line_signals: bool,
    /// Whether the terminal reports the mouse.
    pub mouse: bool,
}

/// What the caller found out about the terminal that a context is to run on.
#[derive(Clone, Copy, Debug, PartialEq, Eq, Structural)]
pub struct NcTerminal {
    pub rows: NcDimension,
    pub cols: NcDimension,
    pub caps: NcCapabilities,
    /// The mode that the terminal is in, and is to be left in.
    pub mode: NcTermMode,
    /// Whether a context is running on this terminal already.
    pub in_use: bool,
    /// The descriptor to wait on for input.
    pub input_fd: i32,
}

/// Whether a context can be used.
#[derive(Clone, Copy, Debug, PartialEq, Eq, Structural)]
pub enum NcLifecycle {
    Active,
    Stopped,
}

/// Counters of the work done.
#[derive(Clone, Copy, Debug, PartialEq, Eq, Structural)]
pub struct NcStats {
    /// Frames rendered.
    pub renders: u64,
    /// Bytes that rendering produced.
    pub render_bytes: u64,
    /// Cells that rendering found unchanged and left alone.
    pub cells_elided: u64,
}

/// A context as a value.
pub struct NotcursesView {
    pub state: NcLifecycle,
    pub options: NotcursesOptions,
    pub term_rows: NcDimension,
    pub term_cols: NcDimension,
    pub caps: NcCapabilities,
    pub pile: NcPileView,
    /// The frame that the screen shows: what was last written out.
    pub snapshot: NcGridView,
    /// Whether a frame was rendered yet.
    pub rendered: bool,
    pub sink: NcFileView,
    pub input: NcInputView,
    /// The mode that the terminal was put in.
    pub mode: NcTermMode,
    /// The mode that the terminal was found in.
    pub prior: NcTermMode,
    /// Where the cursor is shown, while it is visible.
    pub cursor_y: NcDimension,
    pub cursor_x: NcDimension,
    pub stats: NcStats,
    pub input_fd: i32,
}

/// The sum, or the largest number where the sum is larger.
pub open spec fn sat_add(a: u64, b: int) -> u64 {
    if a + b > u64::MAX {
        u64::MAX
    } else {
        (a + b) as u64
    }
}

/// The text of the banner.
pub open spec fn version_text() -> Seq<char> {
    "notcurses 2.1.5"@
}

/// The banner: the version and a line feed.
pub open spec fn banner_bytes() -> Seq<u8> {
    vstd::utf8::encode_utf8(version_text()) + seq![0x0au8]
}

/// What a context writes first: it enters the alternate screen unless told
/// not to, hides the cursor, and prints the banner unless told not to.
pub open spec fn startup_bytes(options: NotcursesOptions) -> Seq<u8> {
    (if flag_set(options.flags, NCOPTION_NO_ALTERNATE_SCREEN) {
        Seq::<u8>::empty()
    } else {
        enter_alt_bytes()
    }) + hide_cursor_bytes() + (if flag_set(options.flags, NCOPTION_SUPPRESS_BANNERS) {
        Seq::<u8>::empty()
    } else {
        banner_bytes()
    })
}

/// The mode that a context puts the terminal in.
pub open spec fn startup_mode(term: NcTerminal, options: NotcursesOptions) -> NcTermMode {
    NcTermMode {
        cursor_visible: false,
        alt_screen: term.mode.alt_screen || !flag_set(options.flags, NCOPTION_NO_ALTERNATE_SCREEN),
        line_signals: term.mode.line_signals,
        mouse: term.mode.mouse,
    }
}

/// The signals that no wait blocks: the resize of the terminal, and the
/// interrupt, quit and termination signals, each unless the options inhibit it.
pub open spec fn observed_signals(options: NotcursesOptions) -> Set<int> {
    Set::new(
        |s: int|
            (s == SIGWINCH && !flag_set(options.flags, NCOPTION_NO_WINCH_SIGHANDLER)) || ((s
                == SIGINT || s == SIGQUIT || s == SIGTERM) && !flag_set(
                options.flags,
                NCOPTION_NO_QUIT_SIGHANDLERS,
            )),
    )
}

/// Why no context can be started, if none can: the terminal is taken, or
/// the margins leave it no cell.
pub open spec fn start_refused(term: NcTerminal, options: NotcursesOptions) -> Option<NcError> {
    if term.in_use {
        Some(NcError::LifecycleError)
    } else if term.rows > NC_MAX_DIM || term.cols > NC_MAX_DIM || options.margin_t
        + options.margin_b >= term.rows || options.margin_l + options.margin_r >= term.cols {
        Some(NcError::GeometryError)
    } else {
        None
    }
}

/// True of a context that was just started.
pub open spec fn just_started(v: NotcursesView, term: NcTerminal, options: NotcursesOptions) -> bool {
    &&& v.state == NcLifecycle::Active
    &&& v.options == options
    &&& v.term_rows == term.rows
    &&& v.term_cols == term.cols
    &&& v.caps == term.caps
    &&& v.pile.rows == term.rows - options.margin_t - options.margin_b
    &&& v.pile.cols == term.cols - options.margin_l - options.margin_r
    &&& v.pile.caps == term.caps
    &&& v.pile.order == seq![NCPLANE_STANDARD]
    &&& v.pile.planes.len() == 1
    &&& v.pile.planes[0]@ == fresh_plane(
        0,
        0,
        v.pile.rows,
        v.pile.cols,
        v.pile.rows,
        v.pile.cols,
        term.caps,
        true,
    )
    &&& v.snapshot == filled(v.pile.rows, v.pile.cols, blank_cell())
    &&& !v.rendered
    &&& v.sink == (NcFileView { open: true, data: startup_bytes(options) })
    &&& v.input.state == NcInputState::Idle
    &&& v.input.queue == Seq::<NcEvent>::empty()
    &&& !v.input.mouse
    &&& v.input.open
    &&& v.input.delivered == 0
    &&& v.input.observed == observed_signals(options)
    &&& v.mode == startup_mode(term, options)
    &&& v.prior == term.mode
    &&& v.stats == (NcStats { renders: 0, render_bytes: 0, cells_elided: 0 })
    &&& v.input_fd == term.input_fd
}

/// What starting a context comes to.
pub open spec fn start_outcome(r: NcResult<Notcurses>, term: NcTerminal, options: NotcursesOptions) -> bool {
    match start_refused(term, options) {
        Some(e) => r is Err && r->Err_0 == e,
        None => r is Ok && r->Ok_0.wf() && just_started(r->Ok_0@, term, options),
    }
}

/// The options with the given flags and nothing else.
pub open spec fn flags_only(flags: u64) -> NotcursesOptions {
    NotcursesOptions { loglevel: 0, margin_t: 0, margin_r: 0, margin_b: 0, margin_l: 0, flags }
}

/// What stopping writes: each part of the mode that differs from the mode
/// that the terminal was found in is put back.
pub open spec fn restore_bytes(mode: NcTermMode, prior: NcTermMode) -> Seq<u8> {
    (if mode.mouse != prior.mouse {
        if prior.mouse {
            mouse_on_bytes()
        } else {
            mouse_off_bytes()
        }
    } else {
        Seq::<u8>::empty()
    }) + (if mode.alt_screen != prior.alt_screen {
        if prior.alt_screen {
            enter_alt_bytes()
        } else {
            leave_alt_bytes()
        }
    } else {
        Seq::<u8>::empty()
    }) + (if mode.cursor_visible != prior.cursor_visible {
        if prior.cursor_visible {
            show_cursor_bytes()
        } else {
            hide_cursor_bytes()
        }
    } else {
        Seq::<u8>::empty()
    })
}

impl NotcursesView {
    pub open spec fn wf(self) -> bool {
        &&& self.pile.wf()
        &&& frame_ok(self.snapshot)
        &&& self.snapshot.rows == self.pile.rows
        &&& self.snapshot.cols == self.pile.cols
        &&& self.pile.caps == self.caps
        &&& self.term_rows <= NC_MAX_DIM
        &&& self.term_cols <= NC_MAX_DIM
        &&& self.options.margin_t + self.pile.rows + self.options.margin_b == self.term_rows
        &&& self.options.margin_l + self.pile.cols + self.options.margin_r == self.term_cols
        &&& self.cursor_y < self.pile.rows
        &&& self.cursor_x < self.pile.cols
    }

    pub open spec fn active(self) -> bool {
        self.state == NcLifecycle::Active
    }

    /// The move that puts the cursor back where it is shown, while it is visible.
    pub open spec fn cursor_bytes(self) -> Seq<u8> {
        if self.mode.cursor_visible {
            move_bytes(
                self.cursor_y + self.options.margin_t,
                self.cursor_x + self.options.margin_l,
            )
        } else {
            Seq::empty()
        }
    }

    /// The bytes that turn the screen into `frame`: the operations from the
    /// frame on the screen to that one, and the cursor put back.
    pub open spec fn bytes_for(self, frame: NcGridView) -> Seq<u8> {
        ops_bytes(rasterize(frame, self.snapshot), self.options.margin_t, self.options.margin_l)
            + self.cursor_bytes()
    }

    /// The context once the screen shows `frame`, with the work counted.
    pub open spec fn shows(self, frame: NcGridView) -> NotcursesView {
        NotcursesView {
            snapshot: frame,
            rendered: true,
            stats: NcStats {
                renders: sat_add(self.stats.renders, 1),
                render_bytes: sat_add(self.stats.render_bytes, self.bytes_for(frame).len() as int),
                cells_elided: sat_add(
                    self.stats.cells_elided,
                    elided(frame, self.snapshot) as int,
                ),
            },
            ..self
        }
    }

    /// The operations of the next render: from the frame on the screen to
    /// the frame of the pile.
    pub open spec fn frame_ops(self) -> Seq<NcRasterOp> {
        rasterize(composite(self.pile), self.snapshot)
    }

    /// The bytes of the next render.
    pub open spec fn frame_bytes(self) -> Seq<u8> {
        self.bytes_for(composite(self.pile))
    }

    /// The context after a render: the screen shows the frame of the pile.
    pub open spec fn after_render(self) -> NotcursesView {
        self.shows(composite(self.pile))
    }

    /// The bytes that paint the frame on the screen onto a blank one.
    pub open spec fn repaint_bytes(self) -> Seq<u8> {
        ops_bytes(
            rasterize(self.snapshot, filled(self.snapshot.rows, self.snapshot.cols, blank_cell())),
            self.options.margin_t,
            self.options.margin_l,
        )
    }

    /// The context with more bytes in its sink.
    pub open spec fn wrote(self, bytes: Seq<u8>) -> NotcursesView {
        NotcursesView { sink: NcFileView { data: self.sink.data + bytes, ..self.sink }, ..self }
    }

    /// The context with another plane under the handle `id`.
    pub open spec fn with_plane(self, id: NcPlaneId, plane: NcPlane) -> NotcursesView {
        NotcursesView {
            pile: NcPileView { planes: self.pile.planes.update(id as int, plane), ..self.pile },
            ..self
        }
    }

    /// The rows that the margins leave of `rows`.
    pub open spec fn rows_within(self, rows: NcDimension) -> int {
        rows - self.options.margin_t - self.options.margin_b
    }

    /// The columns that the margins leave of `cols`.
    pub open spec fn cols_within(self, cols: NcDimension) -> int {
        cols - self.options.margin_l - self.options.margin_r
    }

    /// Whether the terminal can have `rows` by `cols` cells: the margins
    /// leave a cell, and every plane fits what they leave.
    pub open spec fn can_resize(self, rows: NcDimension, cols: NcDimension) -> bool {
        &&& rows <= NC_MAX_DIM
        &&& cols <= NC_MAX_DIM
        &&& self.rows_within(rows) >= 1
        &&& self.cols_within(cols) >= 1
        &&& self.pile.planes_fit(self.rows_within(rows), self.cols_within(cols))
    }

    /// Whether `new` is this context on a terminal of `rows` by `cols`
    /// cells: the pile has what the margins leave, the screen is erased and
    /// taken to be blank, the cursor is brought back inside, and a resize
    /// event is queued.
    pub open spec fn resized_to(self, new: NotcursesView, rows: NcDimension, cols: NcDimension) -> bool {
        &&& self.pile.resized_to(new.pile, self.rows_within(rows), self.cols_within(cols))
        &&& new == (NotcursesView {
            pile: new.pile,
            term_rows: rows,
            term_cols: cols,
            snapshot: filled(self.rows_within(rows), self.cols_within(cols), blank_cell()),
            cursor_y: min_int(self.cursor_y as int, self.rows_within(rows) - 1) as NcDimension,
            cursor_x: min_int(self.cursor_x as int, self.cols_within(cols) - 1) as NcDimension,
            input: NcInputView {
                queue: self.input.queue.push(NcEvent::Resize { rows, cols }),
                ..self.input
            },
            sink: if self.sink.open {
                NcFileView { data: self.sink.data + clear_bytes(), ..self.sink }
            } else {
                self.sink
            },
            ..self
        })
    }

    /// The context after it was stopped.
    pub open spec fn stopped(self) -> NotcursesView {
        NotcursesView {
            state: NcLifecycle::Stopped,
            mode: self.prior,
            sink: if self.sink.open {
                NcFileView {
                    data: self.sink.data + restore_bytes(self.mode, self.prior),
                    ..self.sink
                }
            } else {
                self.sink
            },
            ..self
        }
    }
}

/// The context.
#[derive(Debug)]
pub struct Notcurses {
    state: NcLifecycle,
    options: NotcursesOptions,
    term_rows: NcDimension,
    term_cols: NcDimension,
    caps: NcCapabilities,
    pile: NcPile,
    snapshot: NcGrid,
    rendered: bool,
    sink: NcFile,
    input: NcInputMux,
    mode: NcTermMode,
    prior: NcTermMode,
    cursor_y: NcDimension,
    cursor_x: NcDimension,
    stats: NcStats,
    input_fd: i32,
}

impl View for Notcurses {
    type V = NotcursesView;

    closed spec fn view(&self) -> NotcursesView {
        NotcursesView {
            state: self.state,
            options: self.options,
            term_rows: self.term_rows,
            term_cols: self.term_cols,
            caps: self.caps,
            pile: self.pile@,
            snapshot: self.snapshot@,
            rendered: self.rendered,
            sink: self.sink@,
            input: self.input@,
            mode: self.mode,
            prior: self.prior,
            cursor_y: self.cursor_y,
            cursor_x: self.cursor_x,
            stats: self.stats,
            input_fd: self.input_fd,
        }
    }
}

fn observed_set(options: &NotcursesOptions) -> (set: NcSignalSet)
    ensures
        set@ == observed_signals(*options),
{
    let mut set = NcSignalSet::new();
    if !options.has(NCOPTION_NO_WINCH_SIGHANDLER) {
        set.addset(SIGWINCH);
    }
    if !options.has(NCOPTION_NO_QUIT_SIGHANDLERS) {
        set.addset(SIGINT);
        set.addset(SIGQUIT);
        set.addset(SIGTERM);
    }
    set
}

fn push_restore(out: &mut Vec<u8>, mode: NcTermMode, prior: NcTermMode)
    ensures
        final(out)@ == old(out)@ + restore_bytes(mode, prior),
{
    if mode.mouse != prior.mouse {
        push_mouse(out, prior.mouse);
    }
    if mode.alt_screen != prior.alt_screen {
        push_alt_screen(out, prior.alt_screen);
    }
    if mode.cursor_visible != prior.cursor_visible {
        if prior.cursor_visible {
            push_show_cursor(out);
        } else {
            push_hide_cursor(out);
        }
    }
    assert(out@ =~= old(out)@ + restore_bytes(mode, prior));
}

/// The line that describes a plane: its handle, its rows and columns, and
/// the row and column of its first cell.
pub open spec fn plane_line(id: NcPlaneId, plane: NcPlaneView) -> Seq<u8> {
    seq![0x70u8, 0x6cu8, 0x61u8, 0x6eu8, 0x65u8, 0x20u8] + decimal_of(id as nat) + seq![
        0x3au8,
        0x20u8,
    ] + decimal_of(plane.grid.rows as nat) + seq![0x78u8] + decimal_of(plane.grid.cols as nat)
        + seq![0x20u8, 0x61u8, 0x74u8, 0x20u8] + decimal_of(plane.y as nat) + seq![0x2cu8]
        + decimal_of(plane.x as nat) + seq![0x0au8]
}

/// The lines of the planes from depth `k` down.
pub open spec fn plane_lines(pile: NcPileView, k: int) -> Seq<u8>
    decreases pile.order.len() - k,
{
    if k < 0 || k >= pile.order.len() {
        Seq::empty()
    } else {
        plane_line(pile.order[k], pile.planes[pile.order[k] as int]@) + plane_lines(pile, k + 1)
    }
}

fn push_plane_line(out: &mut Vec<u8>, id: NcPlaneId, plane: &NcPlane)
    ensures
        final(out)@ == old(out)@ + plane_line(id, plane@),
{
    let (rows, cols) = plane.dim_yx();
    let (y, x) = plane.yx();
    push_bytes(out, [0x70u8, 0x6cu8, 0x61u8, 0x6eu8, 0x65u8, 0x20u8].as_slice());
    push_decimal(out, id as u64);
    push_bytes(out, [0x3au8, 0x20u8].as_slice());
    push_decimal(out, rows as u64);
    out.push(0x78);
    push_decimal(out, cols as u64);
    push_bytes(out, [0x20u8, 0x61u8, 0x74u8, 0x20u8].as_slice());
    push_decimal(out, y as u64);
    out.push(0x2c);
    push_decimal(out, x as u64);
    out.push(0x0a);
}

/// The signals that a mask names, where one is given.
pub open spec fn mask_view(sigmask: Option<&NcSignalSet>) -> Option<Set<int>> {
    match sigmask {
        Some(m) => Some(m@),
        None => None,
    }
}

/// What a query gives: the value, or `LifecycleError` from a stopped context.
pub open spec fn refuse_stopped<T>(v: NotcursesView, value: T) -> NcResult<T> {
    if v.active() {
        Ok(value)
    } else {
        Err(NcError::LifecycleError)
    }
}

fn sat(a: u64, b: usize) -> (r: u64)
    ensures
        r == sat_add(a, b as int),
{
    if b as u64 > u64::MAX - a {
        u64::MAX
    } else {
        a + b as u64
    }
}

impl Notcurses {
    /// True of every context that this library hands out.
    pub open spec fn wf(&self) -> bool {
        self@.wf()
    }

    /// Starts a context without a banner.
    pub fn new(term: NcTerminal) -> (r: NcResult<Notcurses>)
        ensures
            start_outcome(r, term, flags_only(NCOPTION_SUPPRESS_BANNERS)),
    {
        Self::with_flags(term, NCOPTION_SUPPRESS_BANNERS)
    }

    /// Starts a context with a banner.
    pub fn with_banners(term: NcTerminal) -> (r: NcResult<Notcurses>)
        ensures
            start_outcome(r, term, flags_only(0)),
    {
        Self::with_flags(term, 0)
    }

    /// Starts a context on the main screen.
    pub fn without_altscreen(term: NcTerminal) -> (r: NcResult<Notcurses>)
        ensures
            start_outcome(r, term, flags_only(NCOPTION_NO_ALTERNATE_SCREEN)),
    {
        Self::with_flags(term, NCOPTION_NO_ALTERNATE_SCREEN)
    }

    /// Starts a context on the main screen, without a banner.
    pub fn without_altscreen_nor_banners(term: NcTerminal) -> (r: NcResult<Notcurses>)
        ensures
            start_outcome(
                r,
                term,
                flags_only(NCOPTION_NO_ALTERNATE_SCREEN | NCOPTION_SUPPRESS_BANNERS),
            ),
    {
        Self::with_flags(term, NCOPTION_NO_ALTERNATE_SCREEN | NCOPTION_SUPPRESS_BANNERS)
    }

    /// Starts a context with the given flags.
    pub fn with_flags(term: NcTerminal, flags: u64) -> (r: NcResult<Notcurses>)
        ensures
            start_outcome(r, term, flags_only(flags)),
    {
        Self::with_options(term, NotcursesOptions::with_flags(flags))
    }

    /// Starts a context with the given log level and flags.
    pub fn with_debug(term: NcTerminal, loglevel: NcLogLevel, flags: u64) -> (r: NcResult<Notcurses>)
        ensures
            start_outcome(r, term, NotcursesOptions { loglevel, ..flags_only(flags) }),
    {
        Self::with_options(term, NotcursesOptions::with_all_options(loglevel, 0, 0, 0, 0, flags))
    }

    /// Starts a context on the terminal that `term` describes, with the
    /// given options, which are applied here and never again. It is refused
    /// with `LifecycleError` where a context runs on the terminal already,
    /// and else with `GeometryError` where the margins leave no cell. The
    /// pile spans what the margins leave; its standard plane is transparent
    /// and the screen is taken to be blank.
    pub fn with_options(term: NcTerminal, options: NotcursesOptions) -> (r: NcResult<Notcurses>)
        ensures
            start_outcome(r, term, options),
    {
        if term.in_use {
            return Err(NcError::LifecycleError);
        }
        if term.rows > NC_MAX_DIM || term.cols > NC_MAX_DIM || options.margin_t as u64
            + options.margin_b as u64 >= term.rows as u64 || options.margin_l as u64
            + options.margin_r as u64 >= term.cols as u64 {
            return Err(NcError::GeometryError);
        }
        let rows = term.rows - options.margin_t - options.margin_b;
        let cols = term.cols - options.margin_l - options.margin_r;
        let pile = match NcPile::new(rows, cols, term.caps) {
            Ok(p) => p,
            Err(e) => { return Err(e); },
        };
        let snapshot = NcGrid::new(rows, cols, NcCell::blank());
        let mut sink = NcFile::new();
        let mut bytes: Vec<u8> = Vec::new();
        let alt = !options.has(NCOPTION_NO_ALTERNATE_SCREEN);
        if alt {
            push_alt_screen(&mut bytes, true);
        }
        push_hide_cursor(&mut bytes);
        if !options.has(NCOPTION_SUPPRESS_BANNERS) {
            push_bytes(&mut bytes, "notcurses 2.1.5".as_bytes());
            bytes.push(0x0a);
        }
        assert(bytes@ =~= startup_bytes(options));
        let _ = sink.write(bytes.as_slice());
        assert(sink@.data =~= startup_bytes(options));
        let input = NcInputMux::new(observed_set(&options));
        proof {
            crate::screen::lemma_blank_is_frame(rows as int, cols as int);
        }
        Ok(
            Notcurses {
                state: NcLifecycle::Active,
                options,
                term_rows: term.rows,
                term_cols: term.cols,
                caps: term.caps,
                pile,
                snapshot,
                rendered: false,
                sink,
                input,
                mode: NcTermMode {
                    cursor_visible: false,
                    alt_screen: term.mode.alt_screen || alt,
                    line_signals: term.mode.line_signals,
                    mouse: term.mode.mouse,
                },
                prior: term.mode,
                cursor_y: 0,
                cursor_x: 0,
                stats: NcStats { renders: 0, render_bytes: 0, cells_elided: 0 },
                input_fd: term.input_fd,
            },
        )
    }

    /// Whether the palette can be redefined.
    pub fn canchangecolor(&self) -> (r: NcResult<bool>)
        ensures
            r == refuse_stopped(self@, self@.caps.can_change_colors),
    {
        if !self.is_active() {
            return Err(NcError::LifecycleError);
        }
        Ok(self.caps.can_change_colors)
    }

    /// Whether fading is possible: it takes 24-bit colour or a palette that
    /// can be redefined.
    pub fn canfade(&self) -> (r: NcResult<bool>)
        ensures
            r == refuse_stopped(self@, self@.caps.truecolor || self@.caps.can_change_colors),
    {
        if !self.is_active() {
            return Err(NcError::LifecycleError);
        }
        Ok(self.caps.truecolor || self.caps.can_change_colors)
    }

    /// Whether images can be loaded.
    pub fn canopen_images(&self) -> (r: NcResult<bool>)
        ensures
            r == refuse_stopped(self@, self@.caps.images),
    {
        if !self.is_active() {
            return Err(NcError::LifecycleError);
        }
        Ok(self.caps.images)
    }

    /// Whether videos can be loaded.
    pub fn canopen_videos(&self) -> (r: NcResult<bool>)
        ensures
            r == refuse_stopped(self@, self@.caps.videos),
    {
        if !self.is_active() {
            return Err(NcError::LifecycleError);
        }
        Ok(self.caps.videos)
    }

    /// Whether sixel graphics are understood.
    pub fn cansixel(&self) -> (r: NcResult<bool>)
        ensures
            r == refuse_stopped(self@, self@.caps.sixel),
    {
        if !self.is_active() {
            return Err(NcError::LifecycleError);
        }
        Ok(self.caps.sixel)
    }

    /// Whether the sextant glyphs can be relied on.
    pub fn cansextant(&self) -> (r: NcResult<bool>)
        ensures
            r == refuse_stopped(self@, self@.caps.sextant),
    {
        if !self.is_active() {
            return Err(NcError::LifecycleError);
        }
        Ok(self.caps.sextant)
    }

    /// Whether 24-bit colours can be given cell by cell.
    pub fn cantruecolor(&self) -> (r: NcResult<bool>)
        ensures
            r == refuse_stopped(self@, self@.caps.truecolor),
    {
        if !self.is_active() {
            return Err(NcError::LifecycleError);
        }
        Ok(self.caps.truecolor)
    }

    /// Whether the encoding is UTF-8.
    pub fn canutf8(&self) -> (r: NcResult<bool>)
        ensures
            r == refuse_stopped(self@, self@.caps.utf8),
    {
        if !self.is_active() {
            return Err(NcError::LifecycleError);
        }
        Ok(self.caps.utf8)
    }

    /// The number of colours of the palette; 1 where there is no colour.
    pub fn palette_size(&self) -> (r: NcResult<u32>)
        ensures
            r == refuse_stopped(
                self@,
                if self@.caps.colors == 0 {
                    1u32
                } else {
                    self@.caps.colors
                },
            ),
    {
        if !self.is_active() {
            return Err(NcError::LifecycleError);
        }
        Ok(if self.caps.colors == 0 { 1 } else { self.caps.colors })
    }

    /// The styles that the terminal can show together with colour.
    pub fn supported_styles(&self) -> (r: NcResult<NcStyleMask>)
        ensures
            r == refuse_stopped(self@, self@.caps.styles),
    {
        if !self.is_active() {
            return Err(NcError::LifecycleError);
        }
        Ok(self.caps.styles)
    }

    /// The rows and columns of the terminal.
    pub fn term_dim_yx(&self) -> (r: NcResult<(NcDimension, NcDimension)>)
        ensures
            r == refuse_stopped(self@, (self@.term_rows, self@.term_cols)),
    {
        if !self.is_active() {
            return Err(NcError::LifecycleError);
        }
        Ok((self.term_rows, self.term_cols))
    }

    /// The frame of the pile, as the next render would show it.
    pub fn composite(&self) -> (r: NcResult<NcGrid>)
        requires
            self.wf(),
        ensures
            r is Ok <==> self@.active(),
            r is Err ==> r->Err_0 == NcError::LifecycleError,
            r matches Ok(frame) ==> frame.wf() && frame@ == composite(self@.pile) && frame_ok(
                frame@,
            ),
    {
        if !self.is_active() {
            return Err(NcError::LifecycleError);
        }
        Ok(self.pile.composite())
    }

    /// The operations of the next render, which is not made.
    pub fn render_ops(&self) -> (r: NcResult<Vec<NcRasterOp>>)
        requires
            self.wf(),
        ensures
            r is Ok <==> self@.active(),
            r is Err ==> r->Err_0 == NcError::LifecycleError,
            r matches Ok(ops) ==> ops@ == self@.frame_ops(),
    {
        if !self.is_active() {
            return Err(NcError::LifecycleError);
        }
        let frame = self.pile.composite();
        Ok(raster_ops(&frame, &self.snapshot))
    }

    /// Rasterizes `frame`, and takes it for the screen's.
    fn next_frame(&mut self, frame: NcGrid) -> (bytes: Vec<u8>)
        requires
            old(self).wf(),
            frame.wf(),
            frame_ok(frame@),
            frame@.rows == old(self)@.pile.rows,
            frame@.cols == old(self)@.pile.cols,
        ensures
            final(self).wf(),
            bytes@ == old(self)@.bytes_for(frame@),
            final(self)@ == old(self)@.shows(frame@),
    {
        let (ops, left_alone) = raster_scan(&frame, &self.snapshot);
        let mut bytes: Vec<u8> = Vec::new();
        push_ops(&mut bytes, &ops, self.options.margin_t, self.options.margin_l);
        assert(bytes@ =~= ops_bytes(ops@, self.options.margin_t, self.options.margin_l));
        self.push_cursor(&mut bytes);
        self.snapshot = frame;
        self.rendered = true;
        self.stats = NcStats {
            renders: sat(self.stats.renders, 1),
            render_bytes: sat(self.stats.render_bytes, bytes.len()),
            cells_elided: sat(self.stats.cells_elided, left_alone),
        };
        bytes
    }

    fn push_cursor(&self, out: &mut Vec<u8>)
        ensures
            final(out)@ == old(out)@ + self@.cursor_bytes(),
    {
        if self.mode.cursor_visible {
            push_move(
                out,
                self.cursor_y as u64 + self.options.margin_t as u64,
                self.cursor_x as u64 + self.options.margin_l as u64,
            );
        }
        assert(out@ =~= old(out)@ + self@.cursor_bytes());
    }

    /// Renders: composites the pile, rasterizes the frame against what the
    /// screen shows, and writes the bytes to the sink; the frame is then what
    /// the screen shows. The result is the number of bytes written. A
    /// stopped context is refused with `LifecycleError`, a closed sink with
    /// `WriteoutError`; either way nothing changes, so that a later render
    /// starts again from what was last written.
    pub fn render(&mut self) -> (r: NcResult<usize>)
        requires
            old(self).wf(),
        ensures
            final(self).wf(),
            r == if !old(self)@.active() {
                Err::<usize, NcError>(NcError::LifecycleError)
            } else if !old(self)@.sink.open {
                Err::<usize, NcError>(NcError::WriteoutError)
            } else {
                Ok::<usize, NcError>(old(self)@.frame_bytes().len() as usize)
            },
            r is Err ==> final(self)@ == old(self)@,
            r is Ok ==> final(self)@ == old(self)@.after_render().wrote(old(self)@.frame_bytes()),
    {
        if !self.is_active() {
            return Err(NcError::LifecycleError);
        }
        if !self.sink.is_open() {
            return Err(NcError::WriteoutError);
        }
        let frame = self.pile.composite();
        let bytes = self.next_frame(frame);
        let _ = self.sink.write(bytes.as_slice());
        Ok(bytes.len())
    }

    /// Renders another pile onto this context's screen, as `render` does
    /// the context's own: the screen then shows the frame of `pile`. The
    /// pile is to span what the context's pile spans: `GeometryError`
    /// otherwise. `LifecycleError` from a stopped context comes before that,
    /// `WriteoutError` for a closed sink after; nothing changes then.
    pub fn render_pile(&mut self, pile: &NcPile) -> (r: NcResult<usize>)
        requires
            old(self).wf(),
            pile.wf(),
        ensures
            final(self).wf(),
            r == if !old(self)@.active() {
                Err::<usize, NcError>(NcError::LifecycleError)
            } else if pile@.rows != old(self)@.pile.rows || pile@.cols != old(self)@.pile.cols {
                Err::<usize, NcError>(NcError::GeometryError)
            } else if !old(self)@.sink.open {
                Err::<usize, NcError>(NcError::WriteoutError)
            } else {
                Ok::<usize, NcError>(old(self)@.bytes_for(composite(pile@)).len() as usize)
            },
            r is Err ==> final(self)@ == old(self)@,
            r is Ok ==> final(self)@ == old(self)@.shows(composite(pile@)).wrote(
                old(self)@.bytes_for(composite(pile@)),
            ),
    {
        if !self.is_active() {
            return Err(NcError::LifecycleError);
        }
        if pile.rows() != self.pile.rows() || pile.cols() != self.pile.cols() {
            return Err(NcError::GeometryError);
        }
        if !self.sink.is_open() {
            return Err(NcError::WriteoutError);
        }
        let frame = pile.composite();
        let bytes = self.next_frame(frame);
        let _ = self.sink.write(bytes.as_slice());
        Ok(bytes.len())
    }

    /// A new pile for this context's screen: it spans what the context's
    /// own pile spans, and holds a standard plane of its own and nothing
    /// else. `LifecycleError` from a stopped context.
    pub fn pile_create(&self) -> (r: NcResult<NcPile>)
        requires
            self.wf(),
        ensures
            r is Ok <==> self@.active(),
            r is Err ==> r->Err_0 == NcError::LifecycleError,
            r matches Ok(p) ==> {
                &&& p.wf()
                &&& p@.rows == self@.pile.rows
                &&& p@.cols == self@.pile.cols
                &&& p@.caps == self@.caps
                &&& p@.order == seq![NCPLANE_STANDARD]
                &&& p@.planes.len() == 1
                &&& p@.planes[0]@ == fresh_plane(
                    0,
                    0,
                    p@.rows,
                    p@.cols,
                    p@.rows,
                    p@.cols,
                    self@.caps,
                    true,
                )
            },
    {
        if !self.is_active() {
            return Err(NcError::LifecycleError);
        }
        NcPile::new(self.pile.rows(), self.pile.cols(), self.caps)
    }

    /// The context's own pile.
    pub fn pile(&self) -> (p: &NcPile)
        ensures
            p@ == self@.pile,
    {
        &self.pile
    }

    /// Moves a plane of the context's pile into the pile `to`: see
    /// `NcPile::migrate`. `LifecycleError` from a stopped context.
    pub fn plane_migrate(&mut self, id: NcPlaneId, to: &mut NcPile, y: NcDimension, x: NcDimension) -> (r:
        NcResult<NcPlaneId>)
        requires
            old(self).wf(),
            old(to).wf(),
        ensures
            final(self).wf(),
            final(to).wf(),
            r is Ok <==> old(self)@.active() && id != NCPLANE_STANDARD && old(self)@.pile.live(
                id,
            ) && crate::plane::fits(
                y as int,
                x as int,
                old(self)@.pile.planes[id as int]@.grid.rows,
                old(self)@.pile.planes[id as int]@.grid.cols,
                old(to)@.rows,
                old(to)@.cols,
            ),
            r is Err ==> final(self)@ == old(self)@ && final(to)@ == old(to)@,
            r is Err ==> r->Err_0 == if !old(self)@.active() || id == NCPLANE_STANDARD || !old(self)@.pile.live(id) {
                NcError::LifecycleError
            } else {
                NcError::GeometryError
            },
            r matches Ok(moved) ==> {
                &&& final(self)@ == (NotcursesView { pile: final(self)@.pile, ..old(self)@ })
                &&& final(self)@.pile.order == old(self)@.pile.order.remove(
                    old(self)@.pile.z_of(id),
                )
                &&& !final(self)@.pile.live(id)
                &&& moved == old(to)@.planes.len()
                &&& final(to)@.order == seq![moved] + old(to)@.order
                &&& final(to)@.live(moved)
                &&& final(to)@.planes[moved as int]@ == crate::plane::rehomed(
                    old(self)@.pile.planes[id as int]@,
                    y as int,
                    x as int,
                    old(to)@.rows,
                    old(to)@.cols,
                    old(to)@.caps,
                )
            },
    {
        if !self.is_active() {
            return Err(NcError::LifecycleError);
        }
        self.pile.migrate(id, to, y, x)
    }

    /// Moves a plane of the pile `from` into the context's pile: see
    /// `NcPile::migrate`. `LifecycleError` from a stopped context.
    pub fn plane_adopt(&mut self, from: &mut NcPile, id: NcPlaneId, y: NcDimension, x: NcDimension) -> (r:
        NcResult<NcPlaneId>)
        requires
            old(self).wf(),
            old(from).wf(),
        ensures
            final(self).wf(),
            final(from).wf(),
            r is Ok <==> old(self)@.active() && id != NCPLANE_STANDARD && old(from)@.live(id)
                && crate::plane::fits(
                y as int,
                x as int,
                old(from)@.planes[id as int]@.grid.rows,
                old(from)@.planes[id as int]@.grid.cols,
                old(self)@.pile.rows,
                old(self)@.pile.cols,
            ),
            r is Err ==> final(self)@ == old(self)@ && final(from)@ == old(from)@,
            r is Err ==> r->Err_0 == if !old(self)@.active() || id == NCPLANE_STANDARD || !old(from)@.live(id) {
                NcError::LifecycleError
            } else {
                NcError::GeometryError
            },
            r matches Ok(moved) ==> {
                &&& final(self)@ == (NotcursesView { pile: final(self)@.pile, ..old(self)@ })
                &&& moved == old(self)@.pile.planes.len()
                &&& final(self)@.pile.order == seq![moved] + old(self)@.pile.order
                &&& final(self)@.pile.live(moved)
                &&& final(self)@.pile.planes[moved as int]@ == crate::plane::rehomed(
                    old(from)@.planes[id as int]@,
                    y as int,
                    x as int,
                    old(self)@.pile.rows,
                    old(self)@.pile.cols,
                    old(self)@.caps,
                )
                &&& final(from)@.order == old(from)@.order.remove(old(from)@.z_of(id))
                &&& !final(from)@.live(id)
            },
    {
        if !self.is_active() {
            return Err(NcError::LifecycleError);
        }
        from.migrate(id, &mut self.pile, y, x)
    }

    /// Renders into a buffer of the caller's, for writing later: as `render`,
    /// but the bytes are appended to `buffer` and the sink is left alone. The
    /// frame counts as written, so the next frame can be rendered while the
    /// caller writes this one.
    pub fn render_to_buffer(&mut self, buffer: &mut Vec<u8>) -> (r: NcResult<()>)
        requires
            old(self).wf(),
        ensures
            final(self).wf(),
            r == if old(self)@.active() {
                Ok::<(), NcError>(())
            } else {
                Err::<(), NcError>(NcError::LifecycleError)
            },
            r is Err ==> final(self)@ == old(self)@ && final(buffer)@ == old(buffer)@,
            r is Ok ==> final(self)@ == old(self)@.after_render() && final(buffer)@ == old(buffer)@ + old(self)@.frame_bytes(),
    {
        if !self.is_active() {
            return Err(NcError::LifecycleError);
        }
        let frame = self.pile.composite();
        let bytes = self.next_frame(frame);
        push_bytes(buffer, bytes.as_slice());
        Ok(())
    }

    /// The bytes that paint the frame on the screen onto a blank screen.
    fn repaint(&self) -> (bytes: Vec<u8>)
        requires
            self.wf(),
        ensures
            bytes@ == self@.repaint_bytes(),
    {
        let blank = NcGrid::new(self.snapshot.rows(), self.snapshot.cols(), NcCell::blank());
        let ops = raster_ops(&self.snapshot, &blank);
        let mut bytes: Vec<u8> = Vec::new();
        push_ops(&mut bytes, &ops, self.options.margin_t, self.options.margin_l);
        assert(bytes@ =~= self@.repaint_bytes());
        bytes
    }

    /// Writes the frame that was last rendered, all of it, to `fp`; nothing
    /// where no frame was rendered yet. A stopped context is refused with
    /// `LifecycleError`, a closed `fp` with `WriteoutError`.
    pub fn render_to_file(&mut self, fp: &mut NcFile) -> (r: NcResult<()>)
        requires
            old(self).wf(),
        ensures
            final(self)@ == old(self)@,
            r == if !old(self)@.active() {
                Err::<(), NcError>(NcError::LifecycleError)
            } else if old(self)@.rendered && !old(fp)@.open {
                Err::<(), NcError>(NcError::WriteoutError)
            } else {
                Ok::<(), NcError>(())
            },
            final(fp)@ == if r is Ok && old(self)@.rendered {
                NcFileView { data: old(fp)@.data + old(self)@.repaint_bytes(), ..old(fp)@ }
            } else {
                old(fp)@
            },
    {
        if !self.is_active() {
            return Err(NcError::LifecycleError);
        }
        if !self.rendered {
            return Ok(());
        }
        if !fp.is_open() {
            return Err(NcError::WriteoutError);
        }
        let bytes = self.repaint();
        let _ = fp.write(bytes.as_slice());
        Ok(())
    }

    /// Paints the screen anew from what was last rendered, for a screen that
    /// something else upset: the screen is erased and the frame written in
    /// full, without a look at the planes. The result is the terminal's rows
    /// and columns. A stopped context is refused with `LifecycleError`, a
    /// closed sink with `WriteoutError`, and nothing changes.
    pub fn refresh(&mut self) -> (r: NcResult<(NcDimension, NcDimension)>)
        requires
            old(self).wf(),
        ensures
            final(self).wf(),
            r == if !old(self)@.active() {
                Err::<(NcDimension, NcDimension), NcError>(NcError::LifecycleError)
            } else if !old(self)@.sink.open {
                Err::<(NcDimension, NcDimension), NcError>(NcError::WriteoutError)
            } else {
                Ok::<(NcDimension, NcDimension), NcError>(
                    (old(self)@.term_rows, old(self)@.term_cols),
                )
            },
            r is Err ==> final(self)@ == old(self)@,
            r is Ok ==> final(self)@ == old(self)@.wrote(
                clear_bytes() + old(self)@.repaint_bytes() + old(self)@.cursor_bytes(),
            ),
    {
        if !self.is_active() {
            return Err(NcError::LifecycleError);
        }
        if !self.sink.is_open() {
            return Err(NcError::WriteoutError);
        }
        let mut bytes: Vec<u8> = Vec::new();
        push_clear(&mut bytes);
        let paint = self.repaint();
        push_bytes(&mut bytes, paint.as_slice());
        self.push_cursor(&mut bytes);
        assert(bytes@ =~= clear_bytes() + self@.repaint_bytes() + self@.cursor_bytes());
        let _ = self.sink.write(bytes.as_slice());
        Ok((self.term_rows, self.term_cols))
    }

    /// The cell at row `y`, column `x` of the screen as last rendered: its
    /// grapheme is the result, `None` for the second column of a
    /// double-width one, and its styles and channels are written to
    /// `stylemask` and `channels`. A stopped context is refused with
    /// `LifecycleError`, a place outside the screen with `GeometryError`,
    /// and nothing is written.
    pub fn at_yx(
        &mut self,
        y: NcDimension,
        x: NcDimension,
        stylemask: &mut NcStyleMask,
        channels: &mut NcChannelPair,
    ) -> (r: NcResult<Option<NcEgc>>)
        requires
            old(self).wf(),
        ensures
            final(self)@ == old(self)@,
            r == if !old(self)@.active() {
                Err::<Option<NcEgc>, NcError>(NcError::LifecycleError)
            } else if !old(self)@.snapshot.inside(y as int, x as int) {
                Err::<Option<NcEgc>, NcError>(NcError::GeometryError)
            } else {
                Ok::<Option<NcEgc>, NcError>(
                    match old(self)@.snapshot.at(y as int, x as int).glyph {
                        NcGlyph::Egc(c) => Some(c),
                        _ => None,
                    },
                )
            },
            r is Err ==> *final(stylemask) == *old(stylemask) && *final(channels) == *old(channels),
            r is Ok ==> *final(stylemask) == old(self)@.snapshot.at(y as int, x as int).style
                && *final(channels) == old(self)@.snapshot.at(y as int, x as int).channels,
    {
        if !self.is_active() {
            return Err(NcError::LifecycleError);
        }
        if y >= self.snapshot.rows() || x >= self.snapshot.cols() {
            return Err(NcError::GeometryError);
        }
        let cell = self.snapshot.get(y, x);
        *stylemask = cell.style;
        *channels = cell.channels;
        Ok(
            match cell.glyph {
                NcGlyph::Egc(c) => Some(c),
                _ => None,
            },
        )
    }

    /// Acquires the next input event. With one queued it is taken off the
    /// queue, and its details are written to `input` where that is given.
    /// With none queued, a time of zero gives no event at once; any other
    /// time, or none, gives the wait that the caller is to perform and
    /// report to `getc_resume`. The signals of `sigmask`, all of them where
    /// none is given, less those that are always observed, are to be blocked
    /// from the moment the wait begins. A stopped context is refused with
    /// `LifecycleError`; a source that is closed, once the queue is empty, is
    /// `InputError`. See `acquire_step`.
    pub fn getc(
        &mut self,
        time: Option<NcTime>,
        sigmask: Option<&NcSignalSet>,
        input: Option<&mut NcInput>,
    ) -> (r: NcResult<NcAcquired>)
        ensures
            old(self).wf() ==> final(self).wf(),
            !old(self)@.active() ==> r is Err && r->Err_0 == NcError::LifecycleError && final(self)@ == old(self)@,
            old(self)@.active() ==> {
                &&& final(self)@ == (NotcursesView {
                    input: acquire_step(old(self)@.input, time, mask_view(sigmask)).0,
                    ..old(self)@
                })
                &&& same_result(r, acquire_step(old(self)@.input, time, mask_view(sigmask)).1)
            },
            input matches Some(i) ==> *final(i) == match r {
                Ok(NcAcquired::Event(e)) => e.spec_details(final(self)@.input.delivered),
                _ => *i,
            },
    {
        if !self.is_active() {
            return Err(NcError::LifecycleError);
        }
        let r = self.input.acquire(time, sigmask);
        self.deliver(&r, input);
        r
    }

    /// Writes the details of a delivered event to `input`, where both are there.
    fn deliver(&self, r: &NcResult<NcAcquired>, input: Option<&mut NcInput>)
        ensures
            input matches Some(i) ==> *final(i) == match *r {
                Ok(NcAcquired::Event(e)) => e.spec_details(self@.input.delivered),
                _ => *i,
            },
    {
        match input {
            Some(i) => {
                match r {
                    Ok(NcAcquired::Event(e)) => {
                        *i = e.details(self.input.delivered());
                    },
                    _ => {},
                }
            },
            None => {},
        }
    }

    /// Takes the report of how a wait ended, and goes on with the
    /// acquisition that asked for it: see `resume_step`.
    pub fn getc_resume(&mut self, outcome: NcWaitOutcome, input: Option<&mut NcInput>) -> (r: NcResult<
        NcAcquired,
    >)
        ensures
            old(self).wf() ==> final(self).wf(),
            !old(self)@.active() ==> r is Err && r->Err_0 == NcError::LifecycleError && final(self)@ == old(self)@,
            old(self)@.active() ==> {
                &&& final(self)@ == (NotcursesView {
                    input: resume_step(old(self)@.input, outcome@).0,
                    ..old(self)@
                })
                &&& same_result(r, resume_step(old(self)@.input, outcome@).1)
            },
            input matches Some(i) ==> *final(i) == match r {
                Ok(NcAcquired::Event(e)) => e.spec_details(final(self)@.input.delivered),
                _ => *i,
            },
    {
        if !self.is_active() {
            return Err(NcError::LifecycleError);
        }
        let r = self.input.resume(outcome);
        self.deliver(&r, input);
        r
    }

    /// Polls for input, without a wait: the identifier of the next event,
    /// whose details are written to `input`, or the null character where
    /// none is queued. This is `getc` with a time of zero and all signals
    /// named.
    pub fn getc_nblock(&mut self, input: &mut NcInput) -> (r: NcResult<char>)
        ensures
            old(self).wf() ==> final(self).wf(),
            !old(self)@.active() ==> r is Err && r->Err_0 == NcError::LifecycleError && final(self)@ == old(self)@ && *final(input) == *old(input),
            old(self)@.active() ==> {
                &&& final(self)@ == (NotcursesView {
                    input: acquire_step(
                        old(self)@.input,
                        Some(NcTime { tv_sec: 0, tv_nsec: 0 }),
                        Some(crate::signal::all_signals()),
                    ).0,
                    ..old(self)@
                })
                &&& if old(self)@.input.queue.len() > 0 {
                    &&& r is Ok
                    &&& r->Ok_0 == old(self)@.input.queue[0].spec_id()
                    &&& *final(input) == old(self)@.input.queue[0].spec_details(
                        final(self)@.input.delivered,
                    )
                } else {
                    &&& *final(input) == *old(input)
                    &&& if old(self)@.input.open {
                        r is Ok && r->Ok_0 == '\0'
                    } else {
                        r is Err && r->Err_0 == NcError::InputError
                    }
                }
            },
    {
        let mask = NcSignalSet::full();
        match self.getc(Some(NcTime::new()), Some(&mask), Some(input)) {
            Ok(NcAcquired::Event(e)) => Ok(e.id()),
            Ok(_) => Ok('\0'),
            Err(e) => Err(e),
        }
    }

    /// Asks for input without a bound on the wait and with no signal named:
    /// the next event where one is queued, and else the wait that the
    /// caller is to perform. This is `getc` with no time and the empty set
    /// of signals.
    pub fn getc_nblocking(&mut self, input: &mut NcInput) -> (r: NcResult<NcAcquired>)
        ensures
            old(self).wf() ==> final(self).wf(),
            !old(self)@.active() ==> r is Err && r->Err_0 == NcError::LifecycleError && final(self)@ == old(self)@,
            old(self)@.active() ==> {
                &&& final(self)@ == (NotcursesView {
                    input: acquire_step(
                        old(self)@.input,
                        None,
                        Some(Set::<int>::empty()),
                    ).0,
                    ..old(self)@
                })
                &&& same_result(
                    r,
                    acquire_step(old(self)@.input, None, Some(Set::<int>::empty())).1,
                )
            },
            *final(input) == match r {
                Ok(NcAcquired::Event(e)) => e.spec_details(final(self)@.input.delivered),
                _ => *old(input),
            },
    {
        let mask = NcSignalSet::new();
        self.getc(None, Some(&mask), Some(input))
    }

    /// Classifies bytes that the caller read from the input source, and
    /// queues their events. A stopped context is refused with
    /// `LifecycleError`.
    pub fn feed(&mut self, bytes: &[u8]) -> (r: NcResult<()>)
        ensures
            old(self).wf() ==> final(self).wf(),
            r is Ok <==> old(self)@.active(),
            r is Err ==> r->Err_0 == NcError::LifecycleError && final(self)@ == old(self)@,
            r is Ok ==> final(self)@ == (NotcursesView {
                input: NcInputView {
                    queue: old(self)@.input.queue + crate::event::decode_all(
                        bytes@,
                        old(self)@.input.mouse,
                    ),
                    ..old(self)@.input
                },
                ..old(self)@
            }),
    {
        if !self.is_active() {
            return Err(NcError::LifecycleError);
        }
        self.input.feed(bytes);
        Ok(())
    }

    /// Queues a signal that the caller caught between two waits, and says
    /// whether it did: a number that names no signal is not queued.
    /// `LifecycleError` from a stopped context.
    pub fn inject_signal(&mut self, signo: u8) -> (r: NcResult<bool>)
        ensures
            old(self).wf() ==> final(self).wf(),
            r == refuse_stopped(old(self)@, crate::signal::is_signal(signo as int)),
            r == Ok::<bool, NcError>(true) ==> final(self)@ == (NotcursesView {
                input: NcInputView {
                    queue: old(self)@.input.queue.push(NcEvent::Signal { signo }),
                    ..old(self)@.input
                },
                ..old(self)@
            }),
            r != Ok::<bool, NcError>(true) ==> final(self)@ == old(self)@,
    {
        if !self.is_active() {
            return Err(NcError::LifecycleError);
        }
        if signo < 1 || signo > 64 {
            return Ok(false);
        }
        self.input.inject(NcEvent::Signal { signo });
        Ok(true)
    }

    /// Marks the input source as gone: once the queue is empty, acquiring
    /// fails with `InputError`. This is the device's side of the context,
    /// and is taken from a stopped context too.
    pub fn close_input(&mut self)
        ensures
            old(self).wf() ==> final(self).wf(),
            final(self)@ == (NotcursesView {
                input: NcInputView { open: false, ..old(self)@.input },
                ..old(self)@
            }),
    {
        self.input.close();
    }

    /// Whether there is a descriptor to wait on for input: there is while
    /// the context is active and its source open. `LifecycleError` from a
    /// stopped context, `InputError` for a closed source.
    pub fn inputready_fd(&mut self) -> (r: NcResult<()>)
        ensures
            final(self)@ == old(self)@,
            r == if !old(self)@.active() {
                Err::<(), NcError>(NcError::LifecycleError)
            } else if !old(self)@.input.open {
                Err::<(), NcError>(NcError::InputError)
            } else {
                Ok::<(), NcError>(())
            },
    {
        if !self.is_active() {
            return Err(NcError::LifecycleError);
        }
        if !self.input.is_open() {
            return Err(NcError::InputError);
        }
        Ok(())
    }

    /// The descriptor to wait on for input, as the caller gave it.
    pub fn input_fd(&self) -> (fd: i32)
        ensures
            fd == self@.input_fd,
    {
        self.input_fd
    }

    /// Turns mouse reporting on: the terminal is asked for reports, and from
    /// now on they are classified as mouse events. `LifecycleError` from a
    /// stopped context, `CapabilityError` where the terminal has no mouse,
    /// `WriteoutError` where the sink is closed; nothing changes then.
    pub fn mouse_enable(&mut self) -> (r: NcResult<()>)
        ensures
            old(self).wf() ==> final(self).wf(),
            r == if !old(self)@.active() {
                Err::<(), NcError>(NcError::LifecycleError)
            } else if !old(self)@.caps.mouse {
                Err::<(), NcError>(NcError::CapabilityError)
            } else if !old(self)@.sink.open {
                Err::<(), NcError>(NcError::WriteoutError)
            } else {
                Ok::<(), NcError>(())
            },
            r is Err ==> final(self)@ == old(self)@,
            r is Ok ==> final(self)@ == (NotcursesView {
                input: NcInputView { mouse: true, ..old(self)@.input },
                mode: NcTermMode { mouse: true, ..old(self)@.mode },
                ..old(self)@.wrote(mouse_on_bytes())
            }),
    {
        if !self.is_active() {
            return Err(NcError::LifecycleError);
        }
        if !self.caps.mouse {
            return Err(NcError::CapabilityError);
        }
        if !self.sink.is_open() {
            return Err(NcError::WriteoutError);
        }
        let mut bytes: Vec<u8> = Vec::new();
        push_mouse(&mut bytes, true);
        assert(bytes@ =~= mouse_on_bytes());
        let _ = self.sink.write(bytes.as_slice());
        self.input.set_mouse(true);
        self.mode.mouse = true;
        Ok(())
    }

    /// Turns mouse reporting off. Events that are queued stay.
    /// `LifecycleError` from a stopped context, `WriteoutError` where the
    /// sink is closed; nothing changes then.
    pub fn mouse_disable(&mut self) -> (r: NcResult<()>)
        ensures
            old(self).wf() ==> final(self).wf(),
            r == if !old(self)@.active() {
                Err::<(), NcError>(NcError::LifecycleError)
            } else if !old(self)@.sink.open {
                Err::<(), NcError>(NcError::WriteoutError)
            } else {
                Ok::<(), NcError>(())
            },
            r is Err ==> final(self)@ == old(self)@,
            r is Ok ==> final(self)@ == (NotcursesView {
                input: NcInputView { mouse: false, ..old(self)@.input },
                mode: NcTermMode { mouse: false, ..old(self)@.mode },
                ..old(self)@.wrote(mouse_off_bytes())
            }),
    {
        if !self.is_active() {
            return Err(NcError::LifecycleError);
        }
        if !self.sink.is_open() {
            return Err(NcError::WriteoutError);
        }
        let mut bytes: Vec<u8> = Vec::new();
        push_mouse(&mut bytes, false);
        assert(bytes@ =~= mouse_off_bytes());
        let _ = self.sink.write(bytes.as_slice());
        self.input.set_mouse(false);
        self.mode.mouse = false;
        Ok(())
    }

    /// Has the line discipline turn no key into a signal.
    pub fn linesigs_disable(&mut self) -> (r: NcResult<()>)
        ensures
            old(self).wf() ==> final(self).wf(),
            r == refuse_stopped(old(self)@, ()),
            r is Err ==> final(self)@ == old(self)@,
            r is Ok ==> final(self)@ == (NotcursesView {
                mode: NcTermMode { line_signals: false, ..old(self)@.mode },
                ..old(self)@
            }),
    {
        if !self.is_active() {
            return Err(NcError::LifecycleError);
        }
        self.mode.line_signals = false;
        Ok(())
    }

    /// Has the line discipline turn the interrupt, quit and suspend keys
    /// into signals again.
    pub fn linesigs_enable(&mut self) -> (r: NcResult<()>)
        ensures
            old(self).wf() ==> final(self).wf(),
            r == refuse_stopped(old(self)@, ()),
            r is Err ==> final(self)@ == old(self)@,
            r is Ok ==> final(self)@ == (NotcursesView {
                mode: NcTermMode { line_signals: true, ..old(self)@.mode },
                ..old(self)@
            }),
    {
        if !self.is_active() {
            return Err(NcError::LifecycleError);
        }
        self.mode.line_signals = true;
        Ok(())
    }

    /// Shows the cursor at row `y`, column `x` of the standard plane, at
    /// once. `LifecycleError` from a stopped context, `GeometryError` for a
    /// place outside the standard plane, `WriteoutError` where the sink is
    /// closed; nothing changes then.
    pub fn cursor_enable(&mut self, y: NcDimension, x: NcDimension) -> (r: NcResult<()>)
        ensures
            old(self).wf() ==> final(self).wf(),
            r == if !old(self)@.active() {
                Err::<(), NcError>(NcError::LifecycleError)
            } else if y >= old(self)@.pile.rows || x >= old(self)@.pile.cols {
                Err::<(), NcError>(NcError::GeometryError)
            } else if !old(self)@.sink.open {
                Err::<(), NcError>(NcError::WriteoutError)
            } else {
                Ok::<(), NcError>(())
            },
            r is Err ==> final(self)@ == old(self)@,
            r is Ok ==> final(self)@ == (NotcursesView {
                mode: NcTermMode { cursor_visible: true, ..old(self)@.mode },
                cursor_y: y,
                cursor_x: x,
                ..old(self)@.wrote(
                    move_bytes(
                        y + old(self)@.options.margin_t,
                        x + old(self)@.options.margin_l,
                    ) + show_cursor_bytes(),
                )
            }),
    {
        if !self.is_active() {
            return Err(NcError::LifecycleError);
        }
        if y >= self.pile.rows() || x >= self.pile.cols() {
            return Err(NcError::GeometryError);
        }
        if !self.sink.is_open() {
            return Err(NcError::WriteoutError);
        }
        let mut bytes: Vec<u8> = Vec::new();
        push_move(
            &mut bytes,
            y as u64 + self.options.margin_t as u64,
            x as u64 + self.options.margin_l as u64,
        );
        push_show_cursor(&mut bytes);
        assert(bytes@ =~= move_bytes(y + self.options.margin_t, x + self.options.margin_l)
            + show_cursor_bytes());
        let _ = self.sink.write(bytes.as_slice());
        self.mode.cursor_visible = true;
        self.cursor_y = y;
        self.cursor_x = x;
        Ok(())
    }

    /// Hides the cursor, at once. `LifecycleError` from a stopped context,
    /// `WriteoutError` where the sink is closed; nothing changes then.
    pub fn cursor_disable(&mut self) -> (r: NcResult<()>)
        ensures
            old(self).wf() ==> final(self).wf(),
            r == if !old(self)@.active() {
                Err::<(), NcError>(NcError::LifecycleError)
            } else if !old(self)@.sink.open {
                Err::<(), NcError>(NcError::WriteoutError)
            } else {
                Ok::<(), NcError>(())
            },
            r is Err ==> final(self)@ == old(self)@,
            r is Ok ==> final(self)@ == (NotcursesView {
                mode: NcTermMode { cursor_visible: false, ..old(self)@.mode },
                ..old(self)@.wrote(hide_cursor_bytes())
            }),
    {
        if !self.is_active() {
            return Err(NcError::LifecycleError);
        }
        if !self.sink.is_open() {
            return Err(NcError::WriteoutError);
        }
        let mut bytes: Vec<u8> = Vec::new();
        push_hide_cursor(&mut bytes);
        assert(bytes@ =~= hide_cursor_bytes());
        let _ = self.sink.write(bytes.as_slice());
        self.mode.cursor_visible = false;
        Ok(())
    }

    /// The mode that the terminal is to be in, for the caller to apply what
    /// no byte can say.
    pub fn term_mode(&self) -> (m: NcTermMode)
        ensures
            m == self@.mode,
    {
        self.mode
    }

    /// Takes out the bytes that wait in the sink, for the caller to write
    /// them to the terminal. This is the device's side of the context, and
    /// works on a stopped context too: what stopping wrote is taken out so.
    pub fn take_output(&mut self) -> (bytes: Vec<u8>)
        ensures
            old(self).wf() ==> final(self).wf(),
            bytes@ == old(self)@.sink.data,
            final(self)@ == (NotcursesView {
                sink: NcFileView { data: Seq::empty(), ..old(self)@.sink },
                ..old(self)@
            }),
    {
        self.sink.take()
    }

    /// Closes the sink: the caller could not write to the terminal. This
    /// is the device's side of the context, and is taken from a stopped
    /// context too.
    pub fn close_output(&mut self)
        ensures
            old(self).wf() ==> final(self).wf(),
            final(self)@ == (NotcursesView {
                sink: NcFileView { open: false, ..old(self)@.sink },
                ..old(self)@
            }),
    {
        self.sink.close();
    }

    /// The standard plane, to be changed. `LifecycleError` from a stopped
    /// context. The context ends as it was but for what the caller makes of
    /// the plane.
    pub fn stdplane(&mut self) -> (r: NcResult<&mut NcPlane>)
        requires
            old(self).wf(),
        ensures
            r is Ok <==> old(self)@.active(),
            r is Err ==> r->Err_0 == NcError::LifecycleError && final(self)@ == old(self)@,
            r matches Ok(p) ==> *p == old(self)@.pile.planes[0] && p.wf() && p@.standard && final(self)@ == old(self)@.with_plane(NCPLANE_STANDARD, *final(p)),
    {
        self.plane_mut(NCPLANE_STANDARD)
    }

    /// The standard plane. `LifecycleError` from a stopped context.
    pub fn stdplane_const(&self) -> (r: NcResult<&NcPlane>)
        requires
            self.wf(),
        ensures
            r is Ok <==> self@.active(),
            r is Err ==> r->Err_0 == NcError::LifecycleError,
            r matches Ok(p) ==> *p == self@.pile.planes[0] && p.wf() && p@.standard,
    {
        self.plane(NCPLANE_STANDARD)
    }

    /// The standard plane, to be changed, with its rows and columns written
    /// to `y` and `x`: see `stdplane`.
    pub fn stddim_yx(&mut self, y: &mut NcDimension, x: &mut NcDimension) -> (r: NcResult<
        &mut NcPlane,
    >)
        requires
            old(self).wf(),
        ensures
            r is Ok <==> old(self)@.active(),
            r is Err ==> r->Err_0 == NcError::LifecycleError && final(self)@ == old(self)@
                && *final(y) == *old(y) && *final(x) == *old(x),
            r matches Ok(p) ==> *p == old(self)@.pile.planes[0] && p.wf() && p@.standard && final(self)@ == old(self)@.with_plane(NCPLANE_STANDARD, *final(p)) && *final(y) == old(self)@.pile.rows && *final(x) == old(self)@.pile.cols,
    {
        if !self.is_active() {
            return Err(NcError::LifecycleError);
        }
        *y = self.pile.rows();
        *x = self.pile.cols();
        self.plane_mut(NCPLANE_STANDARD)
    }

    /// The standard plane, with its rows and columns written to `y` and `x`.
    pub fn stddim_yx_const(&self, y: &mut NcDimension, x: &mut NcDimension) -> (r: NcResult<
        &NcPlane,
    >)
        requires
            self.wf(),
        ensures
            r is Ok <==> self@.active(),
            r is Err ==> r->Err_0 == NcError::LifecycleError && *final(y) == *old(y) && *final(x)
                == *old(x),
            r matches Ok(p) ==> *p == self@.pile.planes[0] && p.wf() && p@.standard && *final(y)
                == self@.pile.rows && *final(x) == self@.pile.cols,
    {
        if !self.is_active() {
            return Err(NcError::LifecycleError);
        }
        *y = self.pile.rows();
        *x = self.pile.cols();
        self.plane(NCPLANE_STANDARD)
    }

    /// The topmost plane, to be changed: see `plane_mut`.
    pub fn top(&mut self) -> (r: NcResult<&mut NcPlane>)
        requires
            old(self).wf(),
        ensures
            r is Ok <==> old(self)@.active(),
            r is Err ==> r->Err_0 == NcError::LifecycleError && final(self)@ == old(self)@,
            r matches Ok(p) ==> *p == old(self)@.pile.planes[old(self)@.pile.order[0] as int]
                && p.wf() && final(self)@ == old(self)@.with_plane(
                old(self)@.pile.order[0],
                *final(p),
            ),
    {
        let id = self.pile.top();
        self.plane_mut(id)
    }

    /// The bottommost plane, to be changed: see `plane_mut`.
    pub fn bottom(&mut self) -> (r: NcResult<&mut NcPlane>)
        requires
            old(self).wf(),
        ensures
            r is Ok <==> old(self)@.active(),
            r is Err ==> r->Err_0 == NcError::LifecycleError && final(self)@ == old(self)@,
            r matches Ok(p) ==> *p == old(self)@.pile.planes[old(self)@.pile.order[old(self)@.pile.order.len() - 1] as int] && p.wf() && final(self)@ == old(self)@.with_plane(
                old(self)@.pile.order[old(self)@.pile.order.len() - 1],
                *final(p),
            ),
    {
        let id = self.pile.bottom();
        self.plane_mut(id)
    }

    /// The handles of the planes that exist, topmost first.
    /// `LifecycleError` from a stopped context.
    pub fn planes(&self) -> (r: NcResult<Vec<NcPlaneId>>)
        requires
            self.wf(),
        ensures
            r is Ok <==> self@.active(),
            r is Err ==> r->Err_0 == NcError::LifecycleError,
            r matches Ok(ids) ==> ids@ == self@.pile.order,
    {
        if !self.is_active() {
            return Err(NcError::LifecycleError);
        }
        let n = self.pile.count();
        let mut ids: Vec<NcPlaneId> = Vec::new();
        let mut k: usize = 0;
        while k < n
            invariant
                self.wf(),
                k <= n,
                n == self@.pile.order.len(),
                ids@ == self@.pile.order.take(k as int),
            decreases n - k,
        {
            ids.push(self.pile.order_at(k));
            k = k + 1;
        }
        Ok(ids)
    }

    /// The plane with the handle `id`. `LifecycleError` from a stopped
    /// context, and for a handle that names no plane.
    pub fn plane(&self, id: NcPlaneId) -> (r: NcResult<&NcPlane>)
        requires
            self.wf(),
        ensures
            r is Ok <==> self@.active() && self@.pile.live(id),
            r is Err ==> r->Err_0 == NcError::LifecycleError,
            r matches Ok(p) ==> id < self@.pile.planes.len() && *p == self@.pile.planes[id as int]
                && p.wf() && (p@.standard <==> id == NCPLANE_STANDARD),
    {
        if !self.is_active() {
            return Err(NcError::LifecycleError);
        }
        self.pile.plane(id)
    }

    /// The plane with the handle `id`, to be changed. `LifecycleError` from
    /// a stopped context, and for a handle that names no plane. The context
    /// ends as it was but for what the caller makes of the plane.
    pub fn plane_mut(&mut self, id: NcPlaneId) -> (r: NcResult<&mut NcPlane>)
        requires
            old(self).wf(),
        ensures
            r is Ok <==> old(self)@.active() && old(self)@.pile.live(id),
            r is Err ==> r->Err_0 == NcError::LifecycleError && final(self)@ == old(self)@,
            r matches Ok(p) ==> id < old(self)@.pile.planes.len() && *p == old(self)@.pile.planes[id as int] && p.wf() && (p@.standard <==> id == NCPLANE_STANDARD)
                && final(self)@ == old(self)@.with_plane(id, *final(p)),
    {
        if !self.is_active() {
            return Err(NcError::LifecycleError);
        }
        self.pile.plane_mut(id)
    }

    /// Makes a plane on top of all others: see `NcPile::create`.
    /// `LifecycleError` from a stopped context, `GeometryError` where the
    /// plane does not fit the pile; nothing changes then.
    pub fn plane_create(
        &mut self,
        y: NcDimension,
        x: NcDimension,
        rows: NcDimension,
        cols: NcDimension,
    ) -> (r: NcResult<NcPlaneId>)
        requires
            old(self).wf(),
        ensures
            final(self).wf(),
            r is Ok <==> old(self)@.active() && crate::plane::fits(
                y as int,
                x as int,
                rows as int,
                cols as int,
                old(self)@.pile.rows,
                old(self)@.pile.cols,
            ),
            r is Err ==> final(self)@ == old(self)@ && r->Err_0 == if old(self)@.active() {
                NcError::GeometryError
            } else {
                NcError::LifecycleError
            },
            r matches Ok(id) ==> {
                &&& id == old(self)@.pile.planes.len()
                &&& final(self)@.pile.order == seq![id] + old(self)@.pile.order
                &&& final(self)@.pile.planes.len() == id + 1
                &&& final(self)@.pile.planes.subrange(0, id as int) == old(self)@.pile.planes
                &&& final(self)@.pile.planes[id as int]@ == fresh_plane(
                    y as int,
                    x as int,
                    rows as int,
                    cols as int,
                    old(self)@.pile.rows,
                    old(self)@.pile.cols,
                    old(self)@.caps,
                    false,
                )
                &&& final(self)@ == (NotcursesView { pile: final(self)@.pile, ..old(self)@ })
                &&& final(self)@.pile.live(id)
                &&& forall|other: NcPlaneId|
                    old(self)@.pile.live(other) ==> #[trigger] final(self)@.pile.live(other)
            },
    {
        if !self.is_active() {
            return Err(NcError::LifecycleError);
        }
        self.pile.create(y, x, rows, cols)
    }

    /// Destroys a plane: see `NcPile::destroy`. `LifecycleError` from a
    /// stopped context, for the standard plane and for a handle that names
    /// no plane; nothing changes then.
    pub fn plane_destroy(&mut self, id: NcPlaneId) -> (r: NcResult<()>)
        requires
            old(self).wf(),
        ensures
            final(self).wf(),
            r is Ok <==> old(self)@.active() && id != NCPLANE_STANDARD && old(self)@.pile.live(
                id,
            ),
            r is Err ==> r->Err_0 == NcError::LifecycleError && final(self)@ == old(self)@,
            r is Ok ==> final(self)@ == (NotcursesView {
                pile: old(self)@.pile.without(id),
                ..old(self)@
            }),
            r is Ok ==> !final(self)@.pile.live(id) && forall|other: NcPlaneId|
                other != id ==> (#[trigger] final(self)@.pile.live(other) <==> old(self)@.pile.live(other)),
    {
        if !self.is_active() {
            return Err(NcError::LifecycleError);
        }
        self.pile.destroy(id)
    }

    /// Moves a plane to depth `z` of the order: see `NcPile::move_to`.
    /// `LifecycleError` from a stopped context and for a handle that names
    /// no plane; nothing changes then.
    pub fn plane_move_to(&mut self, id: NcPlaneId, z: usize) -> (r: NcResult<()>)
        requires
            old(self).wf(),
        ensures
            final(self).wf(),
            r is Ok <==> old(self)@.active() && old(self)@.pile.live(id),
            r is Err ==> r->Err_0 == NcError::LifecycleError && final(self)@ == old(self)@,
            r is Ok ==> final(self)@ == (NotcursesView {
                pile: old(self)@.pile.moved(id, z as int),
                ..old(self)@
            }),
            r is Ok ==> final(self)@.pile.order[old(self)@.pile.depth(z as int)] == id
                && forall|other: NcPlaneId|
                #[trigger] final(self)@.pile.live(other) <==> old(self)@.pile.live(other),
    {
        if !self.is_active() {
            return Err(NcError::LifecycleError);
        }
        self.pile.move_to(id, z)
    }

    /// Destroys every plane but the standard one. `LifecycleError` from a
    /// stopped context.
    pub fn drop_planes(&mut self) -> (r: NcResult<()>)
        requires
            old(self).wf(),
        ensures
            final(self).wf(),
            r == refuse_stopped(old(self)@, ()),
            r is Err ==> final(self)@ == old(self)@,
            r is Ok ==> final(self)@ == (NotcursesView {
                pile: NcPileView { order: seq![NCPLANE_STANDARD], ..old(self)@.pile },
                ..old(self)@
            }),
    {
        if !self.is_active() {
            return Err(NcError::LifecycleError);
        }
        self.pile.drop_planes();
        Ok(())
    }

    /// Copies the counters to `stats`. `LifecycleError` from a stopped
    /// context, and `stats` stays as it is.
    pub fn stats(&mut self, stats: &mut NcStats) -> (r: NcResult<()>)
        ensures
            final(self)@ == old(self)@,
            r == refuse_stopped(old(self)@, ()),
            *final(stats) == if old(self)@.active() {
                old(self)@.stats
            } else {
                *old(stats)
            },
    {
        if !self.is_active() {
            return Err(NcError::LifecycleError);
        }
        *stats = self.stats;
        Ok(())
    }

    /// Counters that are all zero. `LifecycleError` from a stopped context.
    pub fn stats_alloc(&mut self) -> (r: NcResult<NcStats>)
        ensures
            final(self)@ == old(self)@,
            r == refuse_stopped(
                old(self)@,
                NcStats { renders: 0, render_bytes: 0, cells_elided: 0 },
            ),
    {
        if !self.is_active() {
            return Err(NcError::LifecycleError);
        }
        Ok(NcStats { renders: 0, render_bytes: 0, cells_elided: 0 })
    }

    /// Copies the counters to `stats` and sets them to zero.
    /// `LifecycleError` from a stopped context: nothing changes.
    pub fn stats_reset(&mut self, stats: &mut NcStats) -> (r: NcResult<()>)
        ensures
            old(self).wf() ==> final(self).wf(),
            r == refuse_stopped(old(self)@, ()),
            r is Err ==> final(self)@ == old(self)@ && *final(stats) == *old(stats),
            r is Ok ==> *final(stats) == old(self)@.stats && final(self)@ == (NotcursesView {
                stats: NcStats { renders: 0, render_bytes: 0, cells_elided: 0 },
                ..old(self)@
            }),
    {
        if !self.is_active() {
            return Err(NcError::LifecycleError);
        }
        *stats = self.stats;
        self.stats = NcStats { renders: 0, render_bytes: 0, cells_elided: 0 };
        Ok(())
    }

    /// Writes the geometry of the planes to `debugfp`, a line for each,
    /// from the top down: see `plane_line`. `LifecycleError` from a stopped
    /// context, `WriteoutError` where `debugfp` is closed; nothing is
    /// written then.
    pub fn debug(&mut self, debugfp: &mut NcFile) -> (r: NcResult<()>)
        requires
            old(self).wf(),
        ensures
            final(self)@ == old(self)@,
            r == if !old(self)@.active() {
                Err::<(), NcError>(NcError::LifecycleError)
            } else if !old(debugfp)@.open {
                Err::<(), NcError>(NcError::WriteoutError)
            } else {
                Ok::<(), NcError>(())
            },
            final(debugfp)@ == if r is Ok {
                NcFileView {
                    data: old(debugfp)@.data + plane_lines(old(self)@.pile, 0),
                    ..old(debugfp)@
                }
            } else {
                old(debugfp)@
            },
    {
        if !self.is_active() {
            return Err(NcError::LifecycleError);
        }
        if !debugfp.is_open() {
            return Err(NcError::WriteoutError);
        }
        let n = self.pile.count();
        let mut bytes: Vec<u8> = Vec::new();
        let mut k: usize = 0;
        assert(bytes@ + plane_lines(self@.pile, 0) =~= plane_lines(self@.pile, 0));
        while k < n
            invariant
                self.wf(),
                k <= n,
                n == self@.pile.order.len(),
                bytes@ + plane_lines(self@.pile, k as int) == plane_lines(self@.pile, 0),
            decreases n - k,
        {
            let id = self.pile.order_at(k);
            let ghost before = bytes@;
            let ghost rest = plane_lines(self@.pile, k as int + 1);
            push_plane_line(&mut bytes, id, self.pile.plane_at(id));
            assert(bytes@ + rest =~= before + (plane_line(id, self@.pile.planes[id as int]@)
                + rest));
            k = k + 1;
        }
        assert(bytes@ + Seq::<u8>::empty() =~= bytes@);
        let _ = debugfp.write(bytes.as_slice());
        Ok(())
    }

    /// Takes note that the terminal has `rows` by `cols` cells now: see
    /// `NotcursesView::resized_to`. `LifecycleError` from a stopped context;
    /// `GeometryError` where the margins would leave no cell or a plane
    /// would lie outside what they leave; nothing changes then.
    pub fn resize(&mut self, rows: NcDimension, cols: NcDimension) -> (r: NcResult<()>)
        requires
            old(self).wf(),
        ensures
            final(self).wf(),
            r == if !old(self)@.active() {
                Err::<(), NcError>(NcError::LifecycleError)
            } else if !old(self)@.can_resize(rows, cols) {
                Err::<(), NcError>(NcError::GeometryError)
            } else {
                Ok::<(), NcError>(())
            },
            r is Err ==> final(self)@ == old(self)@,
            r is Ok ==> old(self)@.resized_to(final(self)@, rows, cols),
    {
        if !self.is_active() {
            return Err(NcError::LifecycleError);
        }
        if rows > NC_MAX_DIM || cols > NC_MAX_DIM || self.options.margin_t as u64
            + self.options.margin_b as u64 >= rows as u64 || self.options.margin_l as u64
            + self.options.margin_r as u64 >= cols as u64 {
            return Err(NcError::GeometryError);
        }
        let inner_rows = rows - self.options.margin_t - self.options.margin_b;
        let inner_cols = cols - self.options.margin_l - self.options.margin_r;
        match self.pile.resize(inner_rows, inner_cols) {
            Ok(_) => {},
            Err(e) => { return Err(e); },
        }
        self.term_rows = rows;
        self.term_cols = cols;
        self.snapshot = NcGrid::new(inner_rows, inner_cols, NcCell::blank());
        if self.cursor_y > inner_rows - 1 {
            self.cursor_y = inner_rows - 1;
        }
        if self.cursor_x > inner_cols - 1 {
            self.cursor_x = inner_cols - 1;
        }
        self.input.inject(NcEvent::Resize { rows, cols });
        if self.sink.is_open() {
            let mut bytes: Vec<u8> = Vec::new();
            push_clear(&mut bytes);
            assert(bytes@ =~= clear_bytes());
            let _ = self.sink.write(bytes.as_slice());
        }
        proof {
            crate::screen::lemma_blank_is_frame(inner_rows as int, inner_cols as int);
        }
        Ok(())
    }

    /// Whether the context can be used.
    pub fn is_active(&self) -> (r: bool)
        ensures
            r == self@.active(),
    {
        match self.state {
            NcLifecycle::Active => true,
            NcLifecycle::Stopped => false,
        }
    }

    /// Stops the context: the terminal is put back into the mode that it
    /// was found in, and the context is of no use from then on. A context
    /// that is stopped already is refused with `LifecycleError`, and
    /// nothing is written and nothing changes. Where the sink is closed the
    /// context stops all the same, nothing is written, and the result is
    /// `WriteoutError`.
    pub fn stop(&mut self) -> (r: NcResult<()>)
        ensures
            !old(self)@.active() ==> r == Err::<(), NcError>(NcError::LifecycleError) && final(self)@ == old(self)@,
            old(self)@.active() ==> final(self)@ == old(self)@.stopped() && r == if old(self)@.sink.open {
                Ok::<(), NcError>(())
            } else {
                Err::<(), NcError>(NcError::WriteoutError)
            },
            old(self).wf() ==> final(self).wf(),
    {
        if !self.is_active() {
            return Err(NcError::LifecycleError);
        }
        let mut bytes: Vec<u8> = Vec::new();
        push_restore(&mut bytes, self.mode, self.prior);
        assert(bytes@ =~= restore_bytes(self.mode, self.prior));
        let r = self.sink.write(bytes.as_slice());
        self.mode = self.prior;
        self.state = NcLifecycle::Stopped;
        match r {
            Ok(_) => Ok(()),
            Err(e) => Err(e),
        }
    }
}

} // verus!
