use notcurses::{
    NcAlpha, NcCapabilities, NcCell, NcChannel, NcChannelPair, NcError, NcGlyph, NcInk,
    NcTermMode, NcTerminal, Notcurses, NCSTYLE_BOLD, NCSTYLE_ITALIC, NCSTYLE_MASK, NCSTYLE_NONE,
};

fn caps(truecolor: bool, utf8: bool) -> NcCapabilities {
    NcCapabilities {
        truecolor,
        utf8,
        colors: 16,
        can_change_colors: false,
        sixel: false,
        sextant: false,
        images: false,
        videos: false,
        mouse: false,
        styles: NCSTYLE_BOLD,
    }
}

fn term(rows: u32, cols: u32, caps: NcCapabilities) -> NcTerminal {
    NcTerminal {
        rows,
        cols,
        caps,
        mode: NcTermMode {
            cursor_visible: true,
            alt_screen: false,
            line_signals: true,
            mouse: false,
        },
        in_use: false,
        input_fd: 0,
    }
}

fn transparent() -> NcCell {
    NcCell {
        glyph: NcGlyph::Transparent,
        style: NCSTYLE_NONE,
        channels: NcChannelPair {
            fg: NcChannel { ink: NcInk::Default, alpha: NcAlpha::Opaque },
            bg: NcChannel { ink: NcInk::Default, alpha: NcAlpha::Opaque },
        },
    }
}

#[test]
fn resizing_out_of_the_pile_fails_and_changes_nothing() {
    let mut nc = Notcurses::new(term(10, 20, caps(true, true))).unwrap();
    let id = nc.plane_create(2, 3, 4, 5).unwrap();
    let plane = nc.plane_mut(id).unwrap();
    plane.putstr("abc").unwrap();
    assert_eq!(plane.resize(9, 5), Err(NcError::GeometryError));
    assert_eq!(plane.dim_yx(), (4, 5));
    assert_eq!(plane.resize(4, 18), Err(NcError::GeometryError));
    assert_eq!(plane.resize(0, 5), Err(NcError::GeometryError));
    assert_eq!(plane.resize(4, 0), Err(NcError::GeometryError));
    assert_eq!(plane.resize(4_000_000_000, 5), Err(NcError::GeometryError));
    assert_eq!(plane.dim_yx(), (4, 5));
    assert_eq!(plane.yx(), (2, 3));
    assert_eq!(plane.cursor_yx(), (0, 3));
    assert_eq!(plane.at_yx(0, 2).unwrap().glyph, NcGlyph::Egc('c'));
    // The largest size that fits is taken.
    assert_eq!(plane.resize(8, 17), Ok(()));
    assert_eq!(plane.dim_yx(), (8, 17));
}

#[test]
fn resizing_keeps_what_lies_inside_both_sizes() {
    let mut nc = Notcurses::new(term(10, 20, caps(true, true))).unwrap();
    let id = nc.plane_create(0, 0, 2, 4).unwrap();
    let plane = nc.plane_mut(id).unwrap();
    plane.putstr("abcd").unwrap();
    plane.cursor_move_yx(1, 0).unwrap();
    plane.putstr("efg").unwrap();
    assert_eq!(plane.resize(3, 2), Ok(()));
    assert_eq!(plane.dim_yx(), (3, 2));
    assert_eq!(plane.cursor_yx(), (1, 2));
    assert_eq!(plane.at_yx(0, 0).unwrap().glyph, NcGlyph::Egc('a'));
    assert_eq!(plane.at_yx(0, 1).unwrap().glyph, NcGlyph::Egc('b'));
    assert_eq!(plane.at_yx(1, 1).unwrap().glyph, NcGlyph::Egc('f'));
    assert_eq!(plane.at_yx(2, 0).unwrap(), transparent());
    assert_eq!(plane.at_yx(0, 2), Err(NcError::GeometryError));
    assert_eq!(plane.resize(1, 3), Ok(()));
    assert_eq!(plane.cursor_yx(), (0, 2));
    assert_eq!(plane.at_yx(0, 2).unwrap(), transparent());
}

#[test]
fn the_standard_plane_stays_as_it_is() {
    let mut nc = Notcurses::new(term(10, 20, caps(true, true))).unwrap();
    let mut y = 0;
    let mut x = 0;
    let plane = nc.stddim_yx(&mut y, &mut x).unwrap();
    assert_eq!((y, x), (10, 20));
    assert!(plane.is_standard());
    assert_eq!(plane.resize(5, 5), Err(NcError::GeometryError));
    assert_eq!(plane.move_yx(0, 0), Err(NcError::GeometryError));
    assert_eq!(plane.dim_yx(), (10, 20));
    let (mut y, mut x) = (1, 1);
    assert_eq!(nc.stddim_yx_const(&mut y, &mut x).unwrap().yx(), (0, 0));
    assert_eq!((y, x), (10, 20));
}

#[test]
fn planes_are_made_inside_the_pile() {
    let mut nc = Notcurses::new(term(10, 20, caps(true, true))).unwrap();
    assert_eq!(nc.plane_create(0, 0, 11, 1), Err(NcError::GeometryError));
    assert_eq!(nc.plane_create(9, 0, 2, 1), Err(NcError::GeometryError));
    assert_eq!(nc.plane_create(0, 19, 1, 2), Err(NcError::GeometryError));
    assert_eq!(nc.plane_create(0, 0, 0, 1), Err(NcError::GeometryError));
    assert_eq!(nc.plane_create(4_294_967_295, 0, 1, 1), Err(NcError::GeometryError));
    assert_eq!(nc.planes().unwrap().len(), 1);
    let id = nc.plane_create(9, 19, 1, 1).unwrap();
    let plane = nc.plane_mut(id).unwrap();
    assert!(!plane.is_standard());
    assert_eq!(plane.at_yx(0, 0).unwrap(), transparent());
    assert_eq!(plane.move_yx(9, 20), Err(NcError::GeometryError));
    assert_eq!(plane.move_yx(10, 19), Err(NcError::GeometryError));
    assert_eq!(plane.yx(), (9, 19));
    assert_eq!(plane.move_yx(0, 0), Ok(()));
    assert_eq!(plane.yx(), (0, 0));
    assert!(plane.covers(0, 0));
    assert!(!plane.covers(0, 1));
}

#[test]
fn text_is_put_as_a_whole_or_not_at_all() {
    let mut nc = Notcurses::new(term(2, 5, caps(true, true))).unwrap();
    let plane = nc.stdplane().unwrap();
    assert_eq!(plane.putstr("abcdef"), Err(NcError::GeometryError));
    assert_eq!(plane.at_yx(0, 0).unwrap(), transparent());
    assert_eq!(plane.cursor_yx(), (0, 0));
    assert_eq!(plane.putstr("ab\ncd"), Err(NcError::CapabilityError));
    assert_eq!(plane.putstr("ab\u{7f}"), Err(NcError::CapabilityError));
    assert_eq!(plane.putstr("\u{9b}"), Err(NcError::CapabilityError));
    // Both faults: the grapheme is the one reported.
    assert_eq!(plane.putstr("abcdef\u{1b}"), Err(NcError::CapabilityError));
    assert_eq!(plane.at_yx(0, 0).unwrap(), transparent());
    assert_eq!(plane.putstr(""), Ok(0));
    assert_eq!(plane.putstr("abcde"), Ok(5));
    assert_eq!(plane.cursor_yx(), (0, 5));
    assert_eq!(plane.putstr(""), Ok(0));
    assert_eq!(plane.putstr("f"), Err(NcError::GeometryError));
    assert_eq!(plane.putchar('f'), Err(NcError::GeometryError));
    assert_eq!(plane.cursor_move_yx(1, 3), Ok(()));
    // A wide grapheme needs two columns.
    assert_eq!(plane.putstr("x\u{4e2d}"), Err(NcError::GeometryError));
    assert_eq!(plane.putchar('\u{4e2d}'), Ok(2));
    assert_eq!(plane.cursor_yx(), (1, 5));
    assert_eq!(plane.at_yx(1, 3).unwrap().glyph, NcGlyph::Egc('\u{4e2d}'));
    assert_eq!(plane.at_yx(1, 4).unwrap(), transparent());
}

#[test]
fn the_cursor_moves_to_cells_only() {
    let mut nc = Notcurses::new(term(2, 5, caps(true, true))).unwrap();
    let plane = nc.stdplane().unwrap();
    assert_eq!(plane.cursor_move_yx(2, 0), Err(NcError::GeometryError));
    assert_eq!(plane.cursor_move_yx(0, 5), Err(NcError::GeometryError));
    assert_eq!(plane.cursor_yx(), (0, 0));
    assert_eq!(plane.cursor_move_yx(1, 4), Ok(()));
    assert_eq!(plane.cursor_yx(), (1, 4));
    plane.putstr("z").unwrap();
    plane.erase();
    assert_eq!(plane.cursor_yx(), (0, 0));
    assert_eq!(plane.at_yx(1, 4).unwrap(), transparent());
}

#[test]
fn what_the_terminal_lacks_is_refused_at_once() {
    let mut nc = Notcurses::new(term(2, 5, caps(false, false))).unwrap();
    let plane = nc.stdplane().unwrap();
    assert_eq!(plane.set_fg_rgb8(1, 2, 3), Err(NcError::CapabilityError));
    assert_eq!(plane.set_bg_rgb8(1, 2, 3), Err(NcError::CapabilityError));
    assert_eq!(plane.set_fg(NcInk::Rgb { r: 0, g: 0, b: 0 }), Err(NcError::CapabilityError));
    assert_eq!(plane.set_bg(NcInk::Palette(16)), Err(NcError::CapabilityError));
    assert_eq!(plane.set_fg(NcInk::Palette(15)), Ok(()));
    assert_eq!(plane.set_bg(NcInk::Default), Ok(()));
    assert_eq!(plane.set_styles(NCSTYLE_ITALIC), Err(NcError::CapabilityError));
    assert_eq!(plane.set_styles(NCSTYLE_BOLD | NCSTYLE_ITALIC), Err(NcError::CapabilityError));
    assert_eq!(plane.set_styles(NCSTYLE_BOLD), Ok(()));
    assert_eq!(plane.styles(), NCSTYLE_BOLD);
    assert_eq!(plane.channels().fg.ink, NcInk::Palette(15));
    assert_eq!(plane.putstr("\u{e9}"), Err(NcError::CapabilityError));
    assert_eq!(plane.putstr("e"), Ok(1));
    let cell = plane.at_yx(0, 0).unwrap();
    assert_eq!(cell.glyph, NcGlyph::Egc('e'));
    assert_eq!(cell.style, NCSTYLE_BOLD);
    assert_eq!(cell.channels.fg, NcChannel { ink: NcInk::Palette(15), alpha: NcAlpha::Opaque });
}

#[test]
fn with_the_capabilities_all_is_taken() {
    let mut nc = Notcurses::new(term(
        2,
        5,
        NcCapabilities { styles: NCSTYLE_MASK, ..caps(true, true) },
    ))
    .unwrap();
    let plane = nc.stdplane().unwrap();
    assert_eq!(plane.set_fg_rgb8(1, 2, 3), Ok(()));
    assert_eq!(plane.set_styles(NCSTYLE_BOLD | NCSTYLE_ITALIC), Ok(()));
    plane.set_fg_alpha(NcAlpha::Blend);
    plane.set_bg_alpha(NcAlpha::Transparent);
    assert_eq!(
        plane.channels(),
        NcChannelPair {
            fg: NcChannel { ink: NcInk::Rgb { r: 1, g: 2, b: 3 }, alpha: NcAlpha::Blend },
            bg: NcChannel { ink: NcInk::Default, alpha: NcAlpha::Transparent },
        }
    );
    assert_eq!(plane.putstr("\u{e9}\u{1f600}"), Ok(3));
}
