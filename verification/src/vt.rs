//! The control sequences of the terminal: the rasterizer's operations as bytes.

use vstd::prelude::*;
use crate::cell::{
    NcInk, NcStyleMask, NCSTYLE_BLINK, NCSTYLE_BOLD, NCSTYLE_DIM, NCSTYLE_INVIS, NCSTYLE_ITALIC,
    NCSTYLE_REVERSE, NCSTYLE_STRUCK, NCSTYLE_UNDERLINE,
};
use crate::codec::{decimal_of, push_decimal, push_utf8, utf8_of};
use crate::grid::NcDimension;
use crate::raster::NcRasterOp;

verus! {

/// The control sequence introducer: escape, `[`.
pub open spec fn csi() -> Seq<u8> {
    seq![0x1bu8, 0x5bu8]
}

/// Cursor position: the introducer, the row and the column counted from 1
/// and parted by `;`, then `H`.
pub open spec fn move_bytes(y: int, x: int) -> Seq<u8> {
    csi() + decimal_of((y + 1) as nat) + seq![0x3bu8] + decimal_of((x + 1) as nat) + seq![0x48u8]
}

/// One more parameter of a rendition, where the style is on: `;` and a digit.
pub open spec fn code_if(on: bool, digit: u8) -> Seq<u8> {
    if on {
        seq![0x3bu8, digit]
    } else {
        Seq::empty()
    }
}

/// The parameters for the styles that are on.
pub open spec fn style_codes(style: NcStyleMask) -> Seq<u8> {
    code_if(style & NCSTYLE_BOLD != 0, 0x31) + code_if(style & NCSTYLE_DIM != 0, 0x32) + code_if(
        style & NCSTYLE_ITALIC != 0,
        0x33,
    ) + code_if(style & NCSTYLE_UNDERLINE != 0, 0x34) + code_if(style & NCSTYLE_BLINK != 0, 0x35)
        + code_if(style & NCSTYLE_REVERSE != 0, 0x37) + code_if(style & NCSTYLE_INVIS != 0, 0x38)
        + code_if(style & NCSTYLE_STRUCK != 0, 0x39)
}

/// Select rendition: the introducer, `0` to reset, the parameters of the
/// styles, then `m`.
pub open spec fn style_bytes(style: NcStyleMask) -> Seq<u8> {
    csi() + seq![0x30u8] + style_codes(style) + seq![0x6du8]
}

/// Select a colour: `3` for the foreground or `4` for the background, then
/// `9` for the default, `8;5;` and the index for a palette entry, `8;2;` and
/// the three components for a 24-bit colour; then `m`.
pub open spec fn ink_bytes(ink: NcInk, ground: u8) -> Seq<u8> {
    match ink {
        NcInk::Default => csi() + seq![ground, 0x39u8, 0x6du8],
        NcInk::Palette(i) => csi() + seq![ground, 0x38u8, 0x3bu8, 0x35u8, 0x3bu8] + decimal_of(
            i as nat,
        ) + seq![0x6du8],
        NcInk::Rgb { r, g, b } => csi() + seq![ground, 0x38u8, 0x3bu8, 0x32u8, 0x3bu8]
            + decimal_of(r as nat) + seq![0x3bu8] + decimal_of(g as nat) + seq![0x3bu8]
            + decimal_of(b as nat) + seq![0x6du8],
    }
}

/// The bytes of one operation, on a terminal whose rendering area begins
/// `top` rows and `left` columns into the screen.
pub open spec fn op_bytes(op: NcRasterOp, top: NcDimension, left: NcDimension) -> Seq<u8> {
    match op {
        NcRasterOp::Move { y, x } => move_bytes(y + top, x + left),
        NcRasterOp::Style(style) => style_bytes(style),
        NcRasterOp::Fg(ink) => ink_bytes(ink, 0x33),
        NcRasterOp::Bg(ink) => ink_bytes(ink, 0x34),
        NcRasterOp::Put(c) => utf8_of(c),
    }
}

/// The bytes of the operations, in order.
pub open spec fn ops_bytes(ops: Seq<NcRasterOp>, top: NcDimension, left: NcDimension) -> Seq<u8>
    decreases ops.len(),
{
    if ops.len() == 0 {
        Seq::empty()
    } else {
        op_bytes(ops[0], top, left) + ops_bytes(ops.drop_first(), top, left)
    }
}

/// Erase the whole screen.
pub open spec fn clear_bytes() -> Seq<u8> {
    csi() + seq![0x32u8, 0x4au8]
}

/// Show the cursor.
pub open spec fn show_cursor_bytes() -> Seq<u8> {
    csi() + seq![0x3fu8, 0x32u8, 0x35u8, 0x68u8]
}

/// Hide the cursor.
pub open spec fn hide_cursor_bytes() -> Seq<u8> {
    csi() + seq![0x3fu8, 0x32u8, 0x35u8, 0x6cu8]
}

/// Enter the alternate screen.
pub open spec fn enter_alt_bytes() -> Seq<u8> {
    csi() + seq![0x3fu8, 0x31u8, 0x30u8, 0x34u8, 0x39u8, 0x68u8]
}

/// Leave the alternate screen.
pub open spec fn leave_alt_bytes() -> Seq<u8> {
    csi() + seq![0x3fu8, 0x31u8, 0x30u8, 0x34u8, 0x39u8, 0x6cu8]
}

/// Ask for mouse reports: button events, with coordinates in UTF-8.
pub open spec fn mouse_on_bytes() -> Seq<u8> {
    csi() + seq![0x3fu8, 0x31u8, 0x30u8, 0x30u8, 0x32u8, 0x3bu8, 0x31u8, 0x30u8, 0x30u8, 0x35u8, 0x68u8]
}

/// Ask for no more mouse reports.
pub open spec fn mouse_off_bytes() -> Seq<u8> {
    csi() + seq![0x3fu8, 0x31u8, 0x30u8, 0x30u8, 0x32u8, 0x3bu8, 0x31u8, 0x30u8, 0x30u8, 0x35u8, 0x6cu8]
}

fn push_csi(out: &mut Vec<u8>)
    ensures
        final(out)@ == old(out)@ + csi(),
{
    out.push(0x1b);
    out.push(0x5b);
}

fn push_code_if(out: &mut Vec<u8>, on: bool, digit: u8)
    ensures
        final(out)@ == old(out)@ + code_if(on, digit),
{
    if on {
        out.push(0x3b);
        out.push(digit);
    }
}

pub fn push_move(out: &mut Vec<u8>, y: u64, x: u64)
    requires
        y < u64::MAX,
        x < u64::MAX,
    ensures
        final(out)@ == old(out)@ + move_bytes(y as int, x as int),
{
    push_csi(out);
    push_decimal(out, y + 1);
    out.push(0x3b);
    push_decimal(out, x + 1);
    out.push(0x48);
    assert(out@ =~= old(out)@ + move_bytes(y as int, x as int));
}

proof fn lemma_concat_assoc(a: Seq<u8>, b: Seq<u8>, c: Seq<u8>)
    ensures
        (a + b) + c == a + (b + c),
{
}

fn push_style_codes(out: &mut Vec<u8>, style: NcStyleMask)
    ensures
        final(out)@ == old(out)@ + style_codes(style),
{
    let ghost o = old(out)@;
    let ghost bold = code_if(style & NCSTYLE_BOLD != 0, 0x31);
    let ghost dim = code_if(style & NCSTYLE_DIM != 0, 0x32);
    let ghost italic = code_if(style & NCSTYLE_ITALIC != 0, 0x33);
    let ghost underline = code_if(style & NCSTYLE_UNDERLINE != 0, 0x34);
    let ghost blink = code_if(style & NCSTYLE_BLINK != 0, 0x35);
    let ghost reverse = code_if(style & NCSTYLE_REVERSE != 0, 0x37);
    let ghost invis = code_if(style & NCSTYLE_INVIS != 0, 0x38);
    let ghost struck = code_if(style & NCSTYLE_STRUCK != 0, 0x39);
    push_code_if(out, style & NCSTYLE_BOLD != 0, 0x31);
    push_code_if(out, style & NCSTYLE_DIM != 0, 0x32);
    push_code_if(out, style & NCSTYLE_ITALIC != 0, 0x33);
    push_code_if(out, style & NCSTYLE_UNDERLINE != 0, 0x34);
    push_code_if(out, style & NCSTYLE_BLINK != 0, 0x35);
    push_code_if(out, style & NCSTYLE_REVERSE != 0, 0x37);
    push_code_if(out, style & NCSTYLE_INVIS != 0, 0x38);
    push_code_if(out, style & NCSTYLE_STRUCK != 0, 0x39);
    proof {
        lemma_concat_assoc(o, bold, dim);
        lemma_concat_assoc(o, bold + dim, italic);
        lemma_concat_assoc(o, bold + dim + italic, underline);
        lemma_concat_assoc(o, bold + dim + italic + underline, blink);
        lemma_concat_assoc(o, bold + dim + italic + underline + blink, reverse);
        lemma_concat_assoc(o, bold + dim + italic + underline + blink + reverse, invis);
        lemma_concat_assoc(o, bold + dim + italic + underline + blink + reverse + invis, struck);
    }
}

pub fn push_style(out: &mut Vec<u8>, style: NcStyleMask)
    ensures
        final(out)@ == old(out)@ + style_bytes(style),
{
    push_csi(out);
    out.push(0x30);
    push_style_codes(out, style);
    out.push(0x6d);
    proof {
        lemma_concat_assoc(old(out)@, csi(), seq![0x30u8]);
        lemma_concat_assoc(old(out)@, csi() + seq![0x30u8], style_codes(style));
        lemma_concat_assoc(
            old(out)@,
            csi() + seq![0x30u8] + style_codes(style),
            seq![0x6du8],
        );
    }
}

pub fn push_ink(out: &mut Vec<u8>, ink: NcInk, ground: u8)
    ensures
        final(out)@ == old(out)@ + ink_bytes(ink, ground),
{
    push_csi(out);
    out.push(ground);
    match ink {
        NcInk::Default => {
            out.push(0x39);
        },
        NcInk::Palette(i) => {
            out.push(0x38);
            out.push(0x3b);
            out.push(0x35);
            out.push(0x3b);
            push_decimal(out, i as u64);
        },
        NcInk::Rgb { r, g, b } => {
            out.push(0x38);
            out.push(0x3b);
            out.push(0x32);
            out.push(0x3b);
            push_decimal(out, r as u64);
            out.push(0x3b);
            push_decimal(out, g as u64);
            out.push(0x3b);
            push_decimal(out, b as u64);
        },
    }
    out.push(0x6d);
    assert(out@ =~= old(out)@ + ink_bytes(ink, ground));
}

/// Appends the bytes of one operation.
pub fn push_op(out: &mut Vec<u8>, op: NcRasterOp, top: NcDimension, left: NcDimension)
    ensures
        final(out)@ == old(out)@ + op_bytes(op, top, left),
{
    match op {
        NcRasterOp::Move { y, x } => push_move(out, y as u64 + top as u64, x as u64 + left as u64),
        NcRasterOp::Style(style) => push_style(out, style),
        NcRasterOp::Fg(ink) => push_ink(out, ink, 0x33),
        NcRasterOp::Bg(ink) => push_ink(out, ink, 0x34),
        NcRasterOp::Put(c) => push_utf8(out, c),
    }
}

/// Appends the bytes of the operations, in order.
pub fn push_ops(out: &mut Vec<u8>, ops: &Vec<NcRasterOp>, top: NcDimension, left: NcDimension)
    ensures
        final(out)@ == old(out)@ + ops_bytes(ops@, top, left),
{
    let n = ops.len();
    let mut i: usize = 0;
    assert(ops@.skip(0) =~= ops@);
    while i < n
        invariant
            i <= n,
            n == ops@.len(),
            out@ + ops_bytes(ops@.skip(i as int), top, left) == old(out)@ + ops_bytes(
                ops@,
                top,
                left,
            ),
        decreases n - i,
    {
        let ghost before = out@;
        let ghost rest = ops_bytes(ops@.skip(i as int + 1), top, left);
        proof {
            assert(ops@.skip(i as int).drop_first() =~= ops@.skip(i as int + 1));
        }
        push_op(out, ops[i], top, left);
        assert(out@ + rest =~= before + (op_bytes(ops@[i as int], top, left) + rest));
        i = i + 1;
    }
    assert(ops_bytes(ops@.skip(n as int), top, left) =~= Seq::<u8>::empty());
}

pub fn push_clear(out: &mut Vec<u8>)
    ensures
        final(out)@ == old(out)@ + clear_bytes(),
{
    push_csi(out);
    out.push(0x32);
    out.push(0x4a);
    assert(out@ =~= old(out)@ + clear_bytes());
}

pub fn push_show_cursor(out: &mut Vec<u8>)
    ensures
        final(out)@ == old(out)@ + show_cursor_bytes(),
{
    push_csi(out);
    out.push(0x3f);
    out.push(0x32);
    out.push(0x35);
    out.push(0x68);
    assert(out@ =~= old(out)@ + show_cursor_bytes());
}

pub fn push_hide_cursor(out: &mut Vec<u8>)
    ensures
        final(out)@ == old(out)@ + hide_cursor_bytes(),
{
    push_csi(out);
    out.push(0x3f);
    out.push(0x32);
    out.push(0x35);
    out.push(0x6c);
    assert(out@ =~= old(out)@ + hide_cursor_bytes());
}

pub fn push_alt_screen(out: &mut Vec<u8>, enter: bool)
    ensures
        final(out)@ == old(out)@ + if enter {
            enter_alt_bytes()
        } else {
            leave_alt_bytes()
        },
{
    push_csi(out);
    out.push(0x3f);
    out.push(0x31);
    out.push(0x30);
    out.push(0x34);
    out.push(0x39);
    out.push(if enter { 0x68 } else { 0x6c });
    assert(out@ =~= old(out)@ + if enter {
        enter_alt_bytes()
    } else {
        leave_alt_bytes()
    });
}

pub fn push_mouse(out: &mut Vec<u8>, on: bool)
    ensures
        final(out)@ == old(out)@ + if on {
            mouse_on_bytes()
        } else {
            mouse_off_bytes()
        },
{
    push_csi(out);
    out.push(0x3f);
    out.push(0x31);
    out.push(0x30);
    out.push(0x30);
    out.push(0x32);
    out.push(0x3b);
    out.push(0x31);
    out.push(0x30);
    out.push(0x30);
    out.push(0x35);
    out.push(if on { 0x68 } else { 0x6c });
    assert(out@ =~= old(out)@ + if on {
        mouse_on_bytes()
    } else {
        mouse_off_bytes()
    });
}

} // verus!
