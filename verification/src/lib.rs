//! A terminal rendering engine: planes stacked into a pile, composited into a
//! frame, and rasterized into the fewest escape sequences that turn the screen
//! into that frame; beside it, one source of input events.
//!
//! Nothing here touches a terminal. The caller reads bytes from the device and
//! feeds them in, and takes the rendered bytes out and writes them.

pub mod caps;
pub mod cell;
pub mod codec;
pub mod compose;
pub mod direct;
pub mod error;
pub mod event;
pub mod file;
pub mod grid;
pub mod input;
pub mod names;
pub mod notcurses;
pub mod options;
pub mod pile;
pub mod plane;
pub mod raster;
pub mod screen;
pub mod signal;
pub mod vt;

pub use crate::caps::NcCapabilities;
pub use crate::cell::{
    NcAlpha, NcCell, NcChannel, NcChannelPair, NcColor, NcEgc, NcGlyph, NcInk, NcPaletteIndex,
    NcPen, NcRgb, NcStyleMask, NCSTYLE_BLINK, NCSTYLE_BOLD, NCSTYLE_DIM, NCSTYLE_INVIS,
    NCSTYLE_ITALIC, NCSTYLE_MASK, NCSTYLE_NONE, NCSTYLE_REVERSE, NCSTYLE_STRUCK,
    NCSTYLE_UNDERLINE,
};
pub use crate::direct::{
    ncdirect_getc, ncdirect_getc_nblock, ncdirect_getc_nblocking, ncdirect_getc_resume,
    ncdirect_set_bg_rgb, ncdirect_set_bg_rgb8, ncdirect_set_fg_rgb, ncdirect_set_fg_rgb8,
    rgb_pack, rgb_unpack, NcDirect,
};
pub use crate::error::{NcError, NcIntResult, NcResult, NCRESULT_ERR, NCRESULT_MAX, NCRESULT_OK};
pub use crate::event::{
    read_event, read_events, NcEvent, NcInput, NcMouseAction, NCKEY_BUTTON1, NCKEY_BUTTON2,
    NCKEY_BUTTON3, NCKEY_DOWN, NCKEY_END, NCKEY_ESC, NCKEY_HOME, NCKEY_INVALID, NCKEY_LEFT,
    NCKEY_MOTION, NCKEY_RELEASE, NCKEY_RESIZE, NCKEY_RIGHT, NCKEY_SIGNAL, NCKEY_UP,
};
pub use crate::file::{writeout, writeout_to_buffer, NcFile};
pub use crate::grid::{NcDimension, NcGrid, NC_MAX_DIM};
pub use crate::input::{
    NcAcquired, NcInputMux, NcInputState, NcTime, NcWaitOutcome, NcWaitRequest,
};
pub use crate::names::{
    notcurses_align, NcAlign, NcBlitter, NcScale, NCALIGN_CENTER, NCALIGN_LEFT, NCALIGN_RIGHT,
    NCALIGN_UNALIGNED, NCBLIT_1x1, NCBLIT_2x1, NCBLIT_2x2, NCBLIT_3x2, NCBLIT_4x1, NCBLIT_8x1,
    NCBLIT_BRAILLE, NCBLIT_DEFAULT, NCBLIT_SIXEL, NCSCALE_NONE, NCSCALE_NONE_HIRES,
    NCSCALE_SCALE, NCSCALE_SCALE_HIRES, NCSCALE_STRETCH, NCVERSION_MAJOR, NCVERSION_MINOR,
    NCVERSION_PATCH, NCVERSION_TWEAK,
};
pub use crate::notcurses::{NcLifecycle, NcStats, NcTermMode, NcTerminal, Notcurses};
pub use crate::options::{
    NcLogLevel, NotcursesOptions, NCOPTION_INHIBIT_SETLOCALE, NCOPTION_NO_ALTERNATE_SCREEN,
    NCOPTION_NO_FONT_CHANGES, NCOPTION_NO_QUIT_SIGHANDLERS, NCOPTION_NO_WINCH_SIGHANDLER,
    NCOPTION_SUPPRESS_BANNERS,
};
pub use crate::pile::{NcPile, NcPlaneId, NCPLANE_STANDARD};
pub use crate::plane::NcPlane;
pub use crate::raster::{raster_ops, NcRasterOp, NcRasterState};
pub use crate::signal::{NcSignalSet, NCSIG_MAX, SIGINT, SIGQUIT, SIGTERM, SIGWINCH};
pub use crate::vt::{push_op, push_ops};
