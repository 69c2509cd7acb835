//! Cells: one grapheme with its styles and its two colours.

use vstd::prelude::*;

verus! {

/// One component of a colour.
pub type NcColor = u8;

/// A 24-bit colour: red, green and blue, eight bits each.
pub type NcRgb = u32;

/// An index into the terminal's palette.
pub type NcPaletteIndex = u8;

/// A set of styles, one bit each.
pub type NcStyleMask = u16;

/// A grapheme: one Unicode scalar value.
pub type NcEgc = char;

pub const NCSTYLE_NONE: NcStyleMask = 0;

pub const NCSTYLE_INVIS: NcStyleMask = 0x0002;

pub const NCSTYLE_BOLD: NcStyleMask = 0x0004;

pub const NCSTYLE_DIM: NcStyleMask = 0x0008;

pub const NCSTYLE_BLINK: NcStyleMask = 0x0010;

pub const NCSTYLE_REVERSE: NcStyleMask = 0x0020;

pub const NCSTYLE_UNDERLINE: NcStyleMask = 0x0040;

pub const NCSTYLE_ITALIC: NcStyleMask = 0x0100;

pub const NCSTYLE_STRUCK: NcStyleMask = 0x0200;

/// Every style there is.
pub const NCSTYLE_MASK: NcStyleMask = 0x037e;

/// A colour as the terminal is told it.
#[derive(Clone, Copy, Debug, PartialEq, Eq, Structural)]
pub enum NcInk {
    /// The terminal's own default.
    Default,
    /// A 24-bit colour.
    Rgb { r: NcColor, g: NcColor, b: NcColor },
    /// An entry of the palette.
    Palette(NcPaletteIndex),
}

/// How a channel of a cell combines with what lies below it.
#[derive(Clone, Copy, Debug, PartialEq, Eq, Structural)]
pub enum NcAlpha {
    /// The channel's own colour shows.
    Opaque,
    /// The colour is mixed with the one below.
    Blend,
    /// The colour below shows.
    Transparent,
}

/// One colour channel of a cell.
#[derive(Clone, Copy, Debug, PartialEq, Eq, Structural)]
pub struct NcChannel {
    pub ink: NcInk,
    pub alpha: NcAlpha,
}

/// The foreground and background channels of a cell.
#[derive(Clone, Copy, Debug, PartialEq, Eq, Structural)]
pub struct NcChannelPair {
    pub fg: NcChannel,
    pub bg: NcChannel,
}

/// What a cell shows.
#[derive(Clone, Copy, Debug, PartialEq, Eq, Structural)]
pub enum NcGlyph {
    /// Nothing: the cell lets the planes below show through.
    Transparent,
    /// The second column of the double-width grapheme to the left.
    Continuation,
    /// A grapheme.
    Egc(NcEgc),
}

/// One character position.
#[derive(Clone, Copy, Debug, PartialEq, Eq, Structural)]
pub struct NcCell {
    pub glyph: NcGlyph,
    pub style: NcStyleMask,
    pub channels: NcChannelPair,
}

/// What is active on the terminal while graphemes are written: the styles and
/// the two colours.
#[derive(Clone, Copy, Debug, PartialEq, Eq, Structural)]
pub struct NcPen {
    pub style: NcStyleMask,
    pub fg: NcInk,
    pub bg: NcInk,
}

/// The opaque channel of a colour.
pub open spec fn opaque(ink: NcInk) -> NcChannel {
    NcChannel { ink, alpha: NcAlpha::Opaque }
}

/// The opaque default channels.
pub open spec fn default_channels() -> NcChannelPair {
    NcChannelPair { fg: opaque(NcInk::Default), bg: opaque(NcInk::Default) }
}

/// The cell that lets everything through.
pub open spec fn transparent_cell() -> NcCell {
    NcCell { glyph: NcGlyph::Transparent, style: NCSTYLE_NONE, channels: default_channels() }
}

/// The empty cell: a blank in the default colours.
pub open spec fn blank_cell() -> NcCell {
    NcCell { glyph: NcGlyph::Egc(' '), style: NCSTYLE_NONE, channels: default_channels() }
}

/// The cell that writing `c` with `pen` leaves on the screen.
pub open spec fn inked_cell(c: NcEgc, pen: NcPen) -> NcCell {
    NcCell {
        glyph: NcGlyph::Egc(c),
        style: pen.style,
        channels: NcChannelPair { fg: opaque(pen.fg), bg: opaque(pen.bg) },
    }
}

/// The second column of a double-width grapheme written with `pen`.
pub open spec fn continuation_cell(pen: NcPen) -> NcCell {
    NcCell {
        glyph: NcGlyph::Continuation,
        style: pen.style,
        channels: NcChannelPair { fg: opaque(pen.fg), bg: opaque(pen.bg) },
    }
}

/// The pen that a cell was written with.
pub open spec fn pen_of(cell: NcCell) -> NcPen {
    NcPen { style: cell.style, fg: cell.channels.fg.ink, bg: cell.channels.bg.ink }
}

/// True of the scalars that take two columns: the East Asian wide and
/// fullwidth blocks, and the emoji of the supplementary planes.
pub open spec fn wide_scalar(v: u32) -> bool {
    ||| 0x1100 <= v <= 0x115f
    ||| 0x2e80 <= v <= 0xa4cf
    ||| 0xac00 <= v <= 0xd7a3
    ||| 0xf900 <= v <= 0xfaff
    ||| 0xfe30 <= v <= 0xfe4f
    ||| 0xff00 <= v <= 0xff60
    ||| 0xffe0 <= v <= 0xffe6
    ||| 0x1f300 <= v <= 0x1f64f
    ||| 0x20000 <= v <= 0x3fffd
}

/// True of the graphemes that a cell may hold: no control character.
pub open spec fn printable(c: NcEgc) -> bool {
    (c as u32) >= 0x20 && !(0x7f <= (c as u32) && (c as u32) < 0xa0)
}

/// The number of columns that a grapheme takes: 1 or 2.
pub open spec fn spec_egc_width(c: NcEgc) -> u32 {
    if wide_scalar(c as u32) {
        2
    } else {
        1
    }
}

#[verifier::when_used_as_spec(spec_egc_width)]
pub fn egc_width(c: NcEgc) -> (w: u32)
    ensures
        w == spec_egc_width(c),
{
    let v: u32 = c as u32;
    if (0x1100 <= v && v <= 0x115f) || (0x2e80 <= v && v <= 0xa4cf) || (0xac00 <= v && v
        <= 0xd7a3) || (0xf900 <= v && v <= 0xfaff) || (0xfe30 <= v && v <= 0xfe4f) || (0xff00 <= v
        && v <= 0xff60) || (0xffe0 <= v && v <= 0xffe6) || (0x1f300 <= v && v <= 0x1f64f) || (0x20000
        <= v && v <= 0x3fffd) {
        2
    } else {
        1
    }
}

pub fn is_printable(c: NcEgc) -> (r: bool)
    ensures
        r == printable(c),
{
    let v: u32 = c as u32;
    v >= 0x20 && !(0x7f <= v && v < 0xa0)
}

impl NcGlyph {
    /// True of a grapheme that takes two columns.
    pub open spec fn spec_is_wide(self) -> bool {
        self matches NcGlyph::Egc(c) && wide_scalar(c as u32)
    }

    #[verifier::when_used_as_spec(spec_is_wide)]
    pub fn is_wide(self) -> (r: bool)
        ensures
            r == self.spec_is_wide(),
    {
        match self {
            NcGlyph::Egc(c) => egc_width(c) == 2,
            _ => false,
        }
    }
}

/// The mean of two colour components, rounded down.
pub open spec fn mix(a: NcColor, b: NcColor) -> NcColor {
    ((a + b) / 2) as NcColor
}

/// Blending of a colour with the one below it: straight alpha at equal
/// weight. Two 24-bit colours give their mean, component by component; where
/// either is the default or a palette entry, which have no components to
/// mix, the upper colour stays.
pub open spec fn blend(top: NcInk, below: NcInk) -> NcInk {
    match (top, below) {
        (NcInk::Rgb { r: r1, g: g1, b: b1 }, NcInk::Rgb { r: r2, g: g2, b: b2 }) => NcInk::Rgb {
            r: mix(r1, r2),
            g: mix(g1, g2),
            b: mix(b1, b2),
        },
        _ => top,
    }
}

/// The colour that shows where `top` lies over the colour `below`.
pub open spec fn show_through(top: NcChannel, below: NcInk) -> NcInk {
    match top.alpha {
        NcAlpha::Opaque => top.ink,
        NcAlpha::Blend => blend(top.ink, below),
        NcAlpha::Transparent => below,
    }
}

/// The cell that shows where `top`, a cell with a grapheme, lies over the
/// resolved cell `below`: the grapheme and styles of `top`, each colour seen
/// through its channel.
pub open spec fn overlay(top: NcCell, below: NcCell) -> NcCell {
    NcCell {
        glyph: top.glyph,
        style: top.style,
        channels: NcChannelPair {
            fg: opaque(show_through(top.channels.fg, below.channels.fg.ink)),
            bg: opaque(show_through(top.channels.bg, below.channels.bg.ink)),
        },
    }
}

/// True of a cell that needs nothing from below: both channels are opaque.
pub open spec fn solid(cell: NcCell) -> bool {
    cell.channels.fg.alpha == NcAlpha::Opaque && cell.channels.bg.alpha == NcAlpha::Opaque
}

fn mix_of(a: NcColor, b: NcColor) -> (m: NcColor)
    ensures
        m == mix(a, b),
{
    ((a as u16 + b as u16) / 2) as u8
}

fn blend_of(top: NcInk, below: NcInk) -> (k: NcInk)
    ensures
        k == blend(top, below),
{
    match (top, below) {
        (NcInk::Rgb { r: r1, g: g1, b: b1 }, NcInk::Rgb { r: r2, g: g2, b: b2 }) => NcInk::Rgb {
            r: mix_of(r1, r2),
            g: mix_of(g1, g2),
            b: mix_of(b1, b2),
        },
        _ => top,
    }
}

fn show_through_of(top: NcChannel, below: NcInk) -> (k: NcInk)
    ensures
        k == show_through(top, below),
{
    match top.alpha {
        NcAlpha::Opaque => top.ink,
        NcAlpha::Blend => blend_of(top.ink, below),
        NcAlpha::Transparent => below,
    }
}

impl NcChannel {
    pub fn new(ink: NcInk) -> (r: Self)
        ensures
            r == opaque(ink),
    {
        NcChannel { ink, alpha: NcAlpha::Opaque }
    }
}

impl NcChannelPair {
    pub fn new() -> (r: Self)
        ensures
            r == default_channels(),
    {
        NcChannelPair { fg: NcChannel::new(NcInk::Default), bg: NcChannel::new(NcInk::Default) }
    }
}

impl NcPen {
    /// No styles, default colours.
    pub fn new() -> (r: Self)
        ensures
            r == (NcPen { style: NCSTYLE_NONE, fg: NcInk::Default, bg: NcInk::Default }),
    {
        NcPen { style: NCSTYLE_NONE, fg: NcInk::Default, bg: NcInk::Default }
    }
}

impl NcCell {
    pub fn transparent() -> (r: Self)
        ensures
            r == transparent_cell(),
    {
        NcCell {
            glyph: NcGlyph::Transparent,
            style: NCSTYLE_NONE,
            channels: NcChannelPair::new(),
        }
    }

    pub fn blank() -> (r: Self)
        ensures
            r == blank_cell(),
    {
        NcCell { glyph: NcGlyph::Egc(' '), style: NCSTYLE_NONE, channels: NcChannelPair::new() }
    }

    /// The second column of a double-width grapheme written as `head` was.
    pub fn continuation(head: NcCell) -> (r: Self)
        ensures
            r == continuation_cell(pen_of(head)),
    {
        NcCell {
            glyph: NcGlyph::Continuation,
            style: head.style,
            channels: NcChannelPair {
                fg: NcChannel::new(head.channels.fg.ink),
                bg: NcChannel::new(head.channels.bg.ink),
            },
        }
    }

    pub fn pen(self) -> (r: NcPen)
        ensures
            r == pen_of(self),
    {
        NcPen { style: self.style, fg: self.channels.fg.ink, bg: self.channels.bg.ink }
    }

    pub fn is_solid(self) -> (r: bool)
        ensures
            r == solid(self),
    {
        self.channels.fg.alpha == NcAlpha::Opaque && self.channels.bg.alpha == NcAlpha::Opaque
    }

    /// This cell laid over the resolved cell `below`.
    pub fn over(self, below: NcCell) -> (r: NcCell)
        ensures
            r == overlay(self, below),
    {
        NcCell {
            glyph: self.glyph,
            style: self.style,
            channels: NcChannelPair {
                fg: NcChannel::new(show_through_of(self.channels.fg, below.channels.fg.ink)),
                bg: NcChannel::new(show_through_of(self.channels.bg, below.channels.bg.ink)),
            },
        }
    }
}

} // verus!
