//! What the terminal can do, as probed once when the context is made.

use vstd::prelude::*;
use crate::cell::{printable, NcEgc, NcInk, NcStyleMask};

verus! {

/// The terminal's capabilities.
#[derive(Clone, Copy, Debug, PartialEq, Eq, Structural)]
pub struct NcCapabilities {
    /// 24-bit colours can be given cell by cell.
    pub truecolor: bool,
    /// The encoding is UTF-8.
    pub utf8: bool,
    /// The number of colours of the palette; 1 where there is no colour.
    pub colors: u32,
    /// The palette can be redefined.
    pub can_change_colors: bool,
    /// Sixel graphics are understood.
    pub sixel: bool,
    /// The sextant glyphs can be relied on.
    pub sextant: bool,
    /// Images can be decoded.
    pub images: bool,
    /// Videos can be decoded.
    pub videos: bool,
    /// Mouse events can be asked for.
    pub mouse: bool,
    /// The styles that can be shown together with colour.
    pub styles: NcStyleMask,
}

/// Whether the terminal can show the colour.
pub open spec fn ink_supported(caps: NcCapabilities, ink: NcInk) -> bool {
    match ink {
        NcInk::Default => true,
        NcInk::Rgb { .. } => caps.truecolor,
        NcInk::Palette(i) => (i as u32) < caps.colors,
    }
}

/// Whether the terminal can show all the styles of `style`.
pub open spec fn style_supported(caps: NcCapabilities, style: NcStyleMask) -> bool {
    style & !caps.styles == 0
}

/// Whether the grapheme can be written: it is no control character, and
/// without UTF-8 it is ASCII.
pub open spec fn egc_supported(caps: NcCapabilities, c: NcEgc) -> bool {
    printable(c) && (caps.utf8 || (c as u32) < 0x80)
}

impl NcCapabilities {
    pub fn supports_ink(&self, ink: NcInk) -> (r: bool)
        ensures
            r == ink_supported(*self, ink),
    {
        match ink {
            NcInk::Default => true,
            NcInk::Rgb { .. } => self.truecolor,
            NcInk::Palette(i) => (i as u32) < self.colors,
        }
    }

    pub fn supports_style(&self, style: NcStyleMask) -> (r: bool)
        ensures
            r == style_supported(*self, style),
    {
        style & !self.styles == 0
    }

    pub fn supports_egc(&self, c: NcEgc) -> (r: bool)
        ensures
            r == egc_supported(*self, c),
    {
        let v: u32 = c as u32;
        v >= 0x20 && !(0x7f <= v && v < 0xa0) && (self.utf8 || v < 0x80)
    }
}

} // verus!
