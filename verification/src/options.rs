//! The configuration that a context is made with.

use vstd::prelude::*;
use crate::grid::NcDimension;

verus! {

/// How much is logged: higher levels log more.
pub type NcLogLevel = i32;

/// Do not touch the locale.
pub const NCOPTION_INHIBIT_SETLOCALE: u64 = 0x0001;

/// Do not observe the terminal-resize signal.
pub const NCOPTION_NO_WINCH_SIGHANDLER: u64 = 0x0004;

/// Do not observe the interrupt, quit and termination signals.
pub const NCOPTION_NO_QUIT_SIGHANDLERS: u64 = 0x0008;

/// Print no banner at startup.
pub const NCOPTION_SUPPRESS_BANNERS: u64 = 0x0020;

/// Stay on the main screen.
pub const NCOPTION_NO_ALTERNATE_SCREEN: u64 = 0x0040;

/// Leave the font alone.
pub const NCOPTION_NO_FONT_CHANGES: u64 = 0x0080;

/// Whether the flag `flag` is set in `flags`.
pub open spec fn flag_set(flags: u64, flag: u64) -> bool {
    flags & flag != 0
}

/// The options of a context.
#[derive(Clone, Copy, Debug, PartialEq, Eq, Structural)]
pub struct NotcursesOptions {
    pub loglevel: NcLogLevel,
    /// The margins: rows and columns at the screen's edges that are left alone.
    pub margin_t: NcDimension,
    pub margin_r: NcDimension,
    pub margin_b: NcDimension,
    pub margin_l: NcDimension,
    /// The `NCOPTION_` flags that are set.
    pub flags: u64,
}

impl NotcursesOptions {
    /// No margins, no flags, the lowest log level.
    pub fn new() -> (r: Self)
        ensures
            r == (NotcursesOptions {
                loglevel: 0,
                margin_t: 0,
                margin_r: 0,
                margin_b: 0,
                margin_l: 0,
                flags: 0,
            }),
    {
        Self::with_all_options(0, 0, 0, 0, 0, 0)
    }

    /// The given margins, no flags.
    pub fn with_margins(
        top: NcDimension,
        right: NcDimension,
        bottom: NcDimension,
        left: NcDimension,
    ) -> (r: Self)
        ensures
            r == (NotcursesOptions {
                loglevel: 0,
                margin_t: top,
                margin_r: right,
                margin_b: bottom,
                margin_l: left,
                flags: 0,
            }),
    {
        Self::with_all_options(0, top, right, bottom, left, 0)
    }

    /// The given flags, no margins.
    pub fn with_flags(flags: u64) -> (r: Self)
        ensures
            r == (NotcursesOptions {
                loglevel: 0,
                margin_t: 0,
                margin_r: 0,
                margin_b: 0,
                margin_l: 0,
                flags,
            }),
    {
        Self::with_all_options(0, 0, 0, 0, 0, flags)
    }

    /// All the options as given.
    pub fn with_all_options(
        loglevel: NcLogLevel,
        margin_t: NcDimension,
        margin_r: NcDimension,
        margin_b: NcDimension,
        margin_l: NcDimension,
        flags: u64,
    ) -> (r: Self)
        ensures
            r == (NotcursesOptions { loglevel, margin_t, margin_r, margin_b, margin_l, flags }),
    {
        NotcursesOptions { loglevel, margin_t, margin_r, margin_b, margin_l, flags }
    }

    /// Whether the flag `flag` is set.
    pub fn has(&self, flag: u64) -> (r: bool)
        ensures
            r == flag_set(self.flags, flag),
    {
        self.flags & flag != 0
    }
}

} // verus!
