use notcurses::{
    ncdirect_set_bg_rgb, ncdirect_set_bg_rgb8, ncdirect_set_fg_rgb, ncdirect_set_fg_rgb8,
    notcurses_align, rgb_pack, rgb_unpack, writeout, writeout_to_buffer, NcCapabilities,
    NcDirect, NcError, NcFile, NcStats, NcTermMode, NcTerminal, Notcurses, NotcursesOptions,
    NCALIGN_CENTER, NCALIGN_LEFT, NCALIGN_RIGHT, NCALIGN_UNALIGNED, NCBLIT_1x1, NCBLIT_2x1,
    NCBLIT_2x2, NCBLIT_3x2, NCBLIT_4x1, NCBLIT_8x1, NCBLIT_BRAILLE, NCBLIT_DEFAULT,
    NCBLIT_SIXEL, NCOPTION_NO_ALTERNATE_SCREEN, NCOPTION_SUPPRESS_BANNERS, NCRESULT_ERR,
    NCRESULT_MAX, NCRESULT_OK, NCSCALE_NONE, NCSCALE_NONE_HIRES, NCSCALE_SCALE,
    NCSCALE_SCALE_HIRES, NCSCALE_STRETCH, NCSTYLE_BOLD, NCSTYLE_MASK,
};

fn caps() -> NcCapabilities {
    NcCapabilities {
        truecolor: true,
        utf8: true,
        colors: 256,
        can_change_colors: false,
        sixel: true,
        sextant: false,
        images: true,
        videos: false,
        mouse: true,
        styles: NCSTYLE_BOLD,
    }
}

fn mode() -> NcTermMode {
    NcTermMode { cursor_visible: true, alt_screen: false, line_signals: true, mouse: false }
}

fn term(rows: u32, cols: u32) -> NcTerminal {
    NcTerminal { rows, cols, caps: caps(), mode: mode(), in_use: false, input_fd: 3 }
}

const ENTER_ALT: &[u8] = b"\x1b[?1049h";
const LEAVE_ALT: &[u8] = b"\x1b[?1049l";
const HIDE: &[u8] = b"\x1b[?25l";
const SHOW: &[u8] = b"\x1b[?25h";
const BANNER: &[u8] = b"notcurses 2.1.5\n";

fn joined(parts: &[&[u8]]) -> Vec<u8> {
    parts.concat()
}

#[test]
fn options_are_built_from_their_parts() {
    assert_eq!(
        NotcursesOptions::new(),
        NotcursesOptions {
            loglevel: 0,
            margin_t: 0,
            margin_r: 0,
            margin_b: 0,
            margin_l: 0,
            flags: 0,
        }
    );
    assert_eq!(
        NotcursesOptions::with_margins(1, 2, 3, 4),
        NotcursesOptions {
            loglevel: 0,
            margin_t: 1,
            margin_r: 2,
            margin_b: 3,
            margin_l: 4,
            flags: 0,
        }
    );
    assert_eq!(
        NotcursesOptions::with_flags(0x60),
        NotcursesOptions {
            loglevel: 0,
            margin_t: 0,
            margin_r: 0,
            margin_b: 0,
            margin_l: 0,
            flags: 0x60,
        }
    );
    let all = NotcursesOptions::with_all_options(7, 1, 2, 3, 4, 0x20);
    assert_eq!(
        all,
        NotcursesOptions {
            loglevel: 7,
            margin_t: 1,
            margin_r: 2,
            margin_b: 3,
            margin_l: 4,
            flags: 0x20,
        }
    );
    assert!(all.has(NCOPTION_SUPPRESS_BANNERS));
    assert!(!all.has(NCOPTION_NO_ALTERNATE_SCREEN));
}

#[test]
fn each_constructor_applies_its_flags_once() {
    let mut nc = Notcurses::new(term(24, 80)).unwrap();
    assert_eq!(nc.take_output(), joined(&[ENTER_ALT, HIDE]));
    let mut nc = Notcurses::with_banners(term(24, 80)).unwrap();
    assert_eq!(nc.take_output(), joined(&[ENTER_ALT, HIDE, BANNER]));
    assert_eq!(
        nc.term_mode(),
        NcTermMode { cursor_visible: false, alt_screen: true, line_signals: true, mouse: false }
    );
    let mut nc = Notcurses::without_altscreen(term(24, 80)).unwrap();
    assert_eq!(nc.take_output(), joined(&[HIDE, BANNER]));
    assert_eq!(
        nc.term_mode(),
        NcTermMode { cursor_visible: false, alt_screen: false, line_signals: true, mouse: false }
    );
    let mut nc = Notcurses::without_altscreen_nor_banners(term(24, 80)).unwrap();
    assert_eq!(nc.take_output(), joined(&[HIDE]));
    let mut nc = Notcurses::with_flags(term(24, 80), NCOPTION_SUPPRESS_BANNERS).unwrap();
    assert_eq!(nc.take_output(), joined(&[ENTER_ALT, HIDE]));
    let mut nc = Notcurses::with_debug(term(24, 80), 5, NCOPTION_NO_ALTERNATE_SCREEN).unwrap();
    assert_eq!(nc.take_output(), joined(&[HIDE, BANNER]));
    assert!(nc.take_output().is_empty());
    let mut nc =
        Notcurses::with_options(term(24, 80), NotcursesOptions::with_margins(1, 1, 1, 1))
            .unwrap();
    assert_eq!(nc.take_output(), joined(&[ENTER_ALT, HIDE, BANNER]));
    assert_eq!(nc.stdplane_const().unwrap().dim_yx(), (22, 78));
    assert!(nc.is_active());
}

#[test]
fn a_terminal_that_is_taken_or_too_small_starts_nothing() {
    let taken = NcTerminal { in_use: true, ..term(24, 80) };
    assert_eq!(Notcurses::new(taken).err(), Some(NcError::LifecycleError));
    assert_eq!(Notcurses::with_banners(taken).err(), Some(NcError::LifecycleError));
    // Taken and too small: taken is what is reported.
    let both = NcTerminal { in_use: true, ..term(0, 0) };
    assert_eq!(Notcurses::new(both).err(), Some(NcError::LifecycleError));
    assert_eq!(Notcurses::new(term(0, 80)).err(), Some(NcError::GeometryError));
    assert_eq!(Notcurses::new(term(24, 0)).err(), Some(NcError::GeometryError));
    assert_eq!(Notcurses::new(term(65536, 80)).err(), Some(NcError::GeometryError));
    assert_eq!(Notcurses::new(term(24, 65536)).err(), Some(NcError::GeometryError));
    assert!(Notcurses::new(term(65535, 1)).is_ok());
    assert!(Notcurses::new(term(1, 1)).is_ok());
    let start = |t, r, b, l| {
        Notcurses::with_options(term(10, 20), NotcursesOptions::with_margins(t, r, b, l))
            .map(|nc| nc.stdplane_const().unwrap().dim_yx())
    };
    assert_eq!(start(5, 0, 5, 0).err(), Some(NcError::GeometryError));
    assert_eq!(start(0, 10, 0, 10).err(), Some(NcError::GeometryError));
    assert_eq!(start(4_000_000_000, 0, 4_000_000_000, 0).err(), Some(NcError::GeometryError));
    assert_eq!(start(5, 10, 4, 9).ok(), Some((1, 1)));
}

#[test]
fn stopping_puts_the_terminal_back() {
    let mut nc = Notcurses::with_banners(term(24, 80)).unwrap();
    nc.mouse_enable().unwrap();
    nc.linesigs_disable().unwrap();
    assert!(!nc.term_mode().line_signals);
    nc.take_output();
    assert_eq!(nc.stop(), Ok(()));
    assert_eq!(nc.take_output(), joined(&[b"\x1b[?1002;1005l", LEAVE_ALT, SHOW]));
    assert_eq!(nc.term_mode(), mode());
    assert!(!nc.is_active());
    // A terminal that was found in other ways is left in those.
    let found = NcTermMode {
        cursor_visible: false,
        alt_screen: true,
        line_signals: false,
        mouse: true,
    };
    let mut nc = Notcurses::new(NcTerminal { mode: found, ..term(24, 80) }).unwrap();
    assert_eq!(nc.take_output(), joined(&[ENTER_ALT, HIDE]));
    nc.cursor_enable(0, 0).unwrap();
    nc.linesigs_enable().unwrap();
    nc.take_output();
    assert_eq!(nc.stop(), Ok(()));
    assert_eq!(nc.take_output(), joined(&[HIDE]));
    assert_eq!(nc.term_mode(), found);
}

#[test]
fn stopping_a_stopped_context_fails_and_has_no_effect() {
    let mut nc = Notcurses::new(term(24, 80)).unwrap();
    nc.stdplane().unwrap().putstr("x").unwrap();
    assert_eq!(nc.stop(), Ok(()));
    nc.take_output();
    for _ in 0..3 {
        assert_eq!(nc.stop(), Err(NcError::LifecycleError));
        assert!(nc.take_output().is_empty());
        assert_eq!(nc.term_mode(), mode());
        assert!(!nc.is_active());
    }
}

#[test]
fn stopping_with_a_closed_sink_stops_all_the_same() {
    let mut nc = Notcurses::new(term(24, 80)).unwrap();
    nc.take_output();
    nc.close_output();
    assert_eq!(nc.stop(), Err(NcError::WriteoutError));
    assert!(nc.take_output().is_empty());
    assert!(!nc.is_active());
    assert_eq!(nc.term_mode(), mode());
    assert_eq!(nc.stop(), Err(NcError::LifecycleError));
}

#[test]
fn a_stopped_context_refuses_everything() {
    let mut nc = Notcurses::new(term(24, 80)).unwrap();
    let id = nc.plane_create(0, 0, 1, 1).unwrap();
    nc.stop().unwrap();
    nc.take_output();
    let e = NcError::LifecycleError;
    assert_eq!(nc.canchangecolor(), Err(e));
    assert_eq!(nc.canfade(), Err(e));
    assert_eq!(nc.canopen_images(), Err(e));
    assert_eq!(nc.canopen_videos(), Err(e));
    assert_eq!(nc.cansixel(), Err(e));
    assert_eq!(nc.cansextant(), Err(e));
    assert_eq!(nc.cantruecolor(), Err(e));
    assert_eq!(nc.canutf8(), Err(e));
    assert_eq!(nc.palette_size(), Err(e));
    assert_eq!(nc.supported_styles(), Err(e));
    assert_eq!(nc.term_dim_yx(), Err(e));
    assert_eq!(nc.render(), Err(e));
    let mut buffer = Vec::new();
    assert_eq!(nc.render_to_buffer(&mut buffer), Err(e));
    assert!(buffer.is_empty());
    let mut fp = NcFile::new();
    assert_eq!(nc.render_to_file(&mut fp), Err(e));
    assert_eq!(nc.debug(&mut fp), Err(e));
    assert_eq!(fp.len(), 0);
    assert_eq!(nc.refresh(), Err(e));
    assert_eq!(nc.composite().err(), Some(e));
    assert_eq!(nc.render_ops().err(), Some(e));
    let (mut style, mut y, mut x) = (9, 8, 7);
    let mut channels = notcurses::NcChannelPair::new();
    assert_eq!(nc.at_yx(0, 0, &mut style, &mut channels), Err(e));
    assert_eq!(nc.stdplane().err(), Some(e));
    assert_eq!(nc.stdplane_const().err(), Some(e));
    assert_eq!(nc.stddim_yx(&mut y, &mut x).err(), Some(e));
    assert_eq!(nc.stddim_yx_const(&mut y, &mut x).err(), Some(e));
    assert_eq!((style, y, x), (9, 8, 7));
    assert_eq!(nc.top().err(), Some(e));
    assert_eq!(nc.bottom().err(), Some(e));
    assert_eq!(nc.plane(id).err(), Some(e));
    assert_eq!(nc.plane_mut(id).err(), Some(e));
    assert_eq!(nc.plane_create(0, 0, 1, 1), Err(e));
    assert_eq!(nc.plane_destroy(id), Err(e));
    assert_eq!(nc.plane_move_to(id, 0), Err(e));
    assert_eq!(nc.drop_planes(), Err(e));
    assert_eq!(nc.planes(), Err(e));
    assert_eq!(nc.cursor_enable(0, 0), Err(e));
    assert_eq!(nc.cursor_disable(), Err(e));
    assert_eq!(nc.linesigs_enable(), Err(e));
    assert_eq!(nc.linesigs_disable(), Err(e));
    assert_eq!(nc.resize(10, 10), Err(e));
    let mut stats = NcStats { renders: 5, render_bytes: 6, cells_elided: 7 };
    assert_eq!(nc.stats(&mut stats), Err(e));
    assert_eq!(nc.stats_reset(&mut stats), Err(e));
    assert_eq!(nc.stats_alloc(), Err(e));
    assert_eq!(stats, NcStats { renders: 5, render_bytes: 6, cells_elided: 7 });
    assert!(nc.take_output().is_empty());
}

#[test]
fn capabilities_are_what_was_probed() {
    let nc = Notcurses::new(term(24, 80)).unwrap();
    assert_eq!(nc.canchangecolor(), Ok(false));
    assert_eq!(nc.canfade(), Ok(true));
    assert_eq!(nc.canopen_images(), Ok(true));
    assert_eq!(nc.canopen_videos(), Ok(false));
    assert_eq!(nc.cansixel(), Ok(true));
    assert_eq!(nc.cansextant(), Ok(false));
    assert_eq!(nc.cantruecolor(), Ok(true));
    assert_eq!(nc.canutf8(), Ok(true));
    assert_eq!(nc.palette_size(), Ok(256));
    assert_eq!(nc.supported_styles(), Ok(NCSTYLE_BOLD));
    assert_eq!(nc.term_dim_yx(), Ok((24, 80)));
    let plain = NcCapabilities {
        truecolor: false,
        utf8: false,
        colors: 0,
        can_change_colors: false,
        sixel: false,
        sextant: true,
        images: false,
        videos: true,
        mouse: false,
        styles: NCSTYLE_MASK,
    };
    let nc = Notcurses::new(NcTerminal { caps: plain, ..term(24, 80) }).unwrap();
    assert_eq!(nc.canfade(), Ok(false));
    assert_eq!(nc.palette_size(), Ok(1));
    assert_eq!(nc.cansextant(), Ok(true));
    assert_eq!(nc.canopen_videos(), Ok(true));
    assert_eq!(nc.canutf8(), Ok(false));
    let ccc = NcCapabilities { can_change_colors: true, ..plain };
    let nc = Notcurses::new(NcTerminal { caps: ccc, ..term(24, 80) }).unwrap();
    assert_eq!(nc.canfade(), Ok(true));
    assert_eq!(nc.canchangecolor(), Ok(true));
}

#[test]
fn the_cursor_is_shown_inside_the_standard_plane() {
    let options = NotcursesOptions::with_all_options(0, 1, 0, 0, 2, NCOPTION_SUPPRESS_BANNERS);
    let mut nc = Notcurses::with_options(term(10, 20), options).unwrap();
    nc.take_output();
    assert_eq!(nc.cursor_enable(9, 0), Err(NcError::GeometryError));
    assert_eq!(nc.cursor_enable(0, 18), Err(NcError::GeometryError));
    assert!(nc.take_output().is_empty());
    assert!(!nc.term_mode().cursor_visible);
    assert_eq!(nc.cursor_enable(8, 17), Ok(()));
    assert_eq!(nc.take_output(), joined(&[b"\x1b[10;20H", SHOW]));
    assert!(nc.term_mode().cursor_visible);
    // A render leaves the cursor where it is shown.
    nc.stdplane().unwrap().putstr("a").unwrap();
    nc.render().unwrap();
    assert_eq!(nc.take_output(), b"\x1b[2;3H\x1b[0ma\x1b[10;20H".to_vec());
    assert_eq!(nc.cursor_disable(), Ok(()));
    assert_eq!(nc.take_output(), HIDE.to_vec());
    nc.close_output();
    assert_eq!(nc.cursor_enable(0, 0), Err(NcError::WriteoutError));
    assert_eq!(nc.cursor_disable(), Err(NcError::WriteoutError));
    assert!(!nc.term_mode().cursor_visible);
}

#[test]
fn alignment_places_columns() {
    assert_eq!(notcurses_align(80, NCALIGN_LEFT, 10), 0);
    assert_eq!(notcurses_align(80, NCALIGN_CENTER, 10), 35);
    assert_eq!(notcurses_align(80, NCALIGN_CENTER, 11), 34);
    assert_eq!(notcurses_align(80, NCALIGN_RIGHT, 10), 70);
    assert_eq!(notcurses_align(80, NCALIGN_RIGHT, 80), 0);
    assert_eq!(notcurses_align(80, NCALIGN_RIGHT, 81), 0);
    assert_eq!(notcurses_align(80, NCALIGN_CENTER, 81), 0);
    assert_eq!(notcurses_align(10, NCALIGN_LEFT, 81), 0);
    assert_eq!(notcurses_align(80, NCALIGN_UNALIGNED, 10), -NCRESULT_MAX);
    assert_eq!(notcurses_align(80, 4, 10), -NCRESULT_MAX);
    assert_eq!(notcurses_align(80, NCALIGN_UNALIGNED, 100), -NCRESULT_MAX);
    assert_eq!(notcurses_align(u32::MAX, NCALIGN_RIGHT, 0), NCRESULT_MAX);
    assert_eq!(notcurses_align(u32::MAX, NCALIGN_CENTER, 1), 0x7fff_ffff);
    assert_eq!(notcurses_align(u32::MAX, NCALIGN_CENTER, 3), 0x7fff_fffe);
    assert_eq!(Notcurses::align(80, NCALIGN_LEFT, 10), Ok(()));
    assert_eq!(Notcurses::align(80, NCALIGN_CENTER, 100), Ok(()));
    assert_eq!(Notcurses::align(80, NCALIGN_RIGHT, 10), Ok(()));
    assert_eq!(Notcurses::align(80, NCALIGN_UNALIGNED, 10), Err(NcError::GeometryError));
    assert_eq!(Notcurses::align(80, 17, 10), Err(NcError::GeometryError));
}

#[test]
fn blitters_and_scaling_modes_have_names() {
    let blitters = [
        (NCBLIT_DEFAULT, "default"),
        (NCBLIT_1x1, "ascii"),
        (NCBLIT_2x1, "half"),
        (NCBLIT_2x2, "quad"),
        (NCBLIT_3x2, "sex"),
        (NCBLIT_4x1, "fourstep"),
        (NCBLIT_BRAILLE, "braille"),
        (NCBLIT_8x1, "eightstep"),
        (NCBLIT_SIXEL, "sixel"),
    ];
    for (blitter, name) in blitters {
        assert_eq!(Notcurses::str_blitter(blitter), name);
        assert_eq!(Notcurses::lex_blitter(name), Ok(blitter));
        assert_eq!(Notcurses::lex_blitter(&Notcurses::str_blitter(blitter)), Ok(blitter));
    }
    assert_eq!(Notcurses::str_blitter(9), "");
    assert_eq!(Notcurses::lex_blitter(""), Err(NcError::CapabilityError));
    assert_eq!(Notcurses::lex_blitter("Half"), Err(NcError::CapabilityError));
    assert_eq!(Notcurses::lex_blitter("halfs"), Err(NcError::CapabilityError));
    assert_eq!(Notcurses::lex_blitter("hal"), Err(NcError::CapabilityError));
    let scales = [
        (NCSCALE_NONE, "none"),
        (NCSCALE_SCALE, "scale"),
        (NCSCALE_STRETCH, "stretch"),
        (NCSCALE_NONE_HIRES, "hires"),
        (NCSCALE_SCALE_HIRES, "scalehi"),
    ];
    for (scale, name) in scales {
        assert_eq!(Notcurses::str_scalemode(scale), name);
        assert_eq!(Notcurses::lex_scalemode(name), Ok(scale));
    }
    assert_eq!(Notcurses::str_scalemode(5), "");
    assert_eq!(Notcurses::lex_scalemode(""), Err(NcError::CapabilityError));
    assert_eq!(Notcurses::lex_scalemode("scal"), Err(NcError::CapabilityError));
}

#[test]
fn margins_are_lexed() {
    let mut options = NotcursesOptions::with_flags(0x20);
    assert_eq!(Notcurses::lex_margins("3", &mut options), Ok(()));
    assert_eq!(
        options,
        NotcursesOptions {
            loglevel: 0,
            margin_t: 3,
            margin_r: 3,
            margin_b: 3,
            margin_l: 3,
            flags: 0x20,
        }
    );
    assert_eq!(Notcurses::lex_margins("1,20,0,4294967295", &mut options), Ok(()));
    assert_eq!(
        options,
        NotcursesOptions {
            loglevel: 0,
            margin_t: 1,
            margin_r: 20,
            margin_b: 0,
            margin_l: 4294967295,
            flags: 0x20,
        }
    );
    assert_eq!(Notcurses::lex_margins("007", &mut options), Ok(()));
    assert_eq!(options.margin_l, 7);
    let kept = options;
    for bad in [
        "", ",", "1,2", "1,2,3", "1,2,3,4,5", "1,2,3,", ",1,2,3", "1,,2,3", "a", "1,2,3,x", " 1",
        "1 ", "-1", "+1", "4294967296", "1,2,3,99999999999999999999999", "1.5", "1;2;3;4",
        "\u{661}",
    ] {
        assert_eq!(Notcurses::lex_margins(bad, &mut options), Err(NcError::GeometryError));
        assert_eq!(options, kept);
    }
}

#[test]
fn the_version_is_told_in_words_and_numbers() {
    assert_eq!(Notcurses::version(), "notcurses 2.1.5");
    assert_eq!(Notcurses::version_components(), (2, 1, 5, 0));
    let (major, minor, patch, _) = Notcurses::version_components();
    assert_eq!(Notcurses::version(), format!("notcurses {}.{}.{}", major, minor, patch));
}

#[test]
fn debug_lists_the_planes_from_the_top() {
    let mut nc = Notcurses::new(term(24, 80)).unwrap();
    let a = nc.plane_create(1, 2, 3, 4).unwrap();
    let b = nc.plane_create(20, 70, 4, 10).unwrap();
    nc.plane_move_to(a, 0).unwrap();
    nc.plane_destroy(b).unwrap();
    let mut fp = NcFile::new();
    assert_eq!(nc.debug(&mut fp), Ok(()));
    assert_eq!(
        String::from_utf8(fp.take()).unwrap(),
        "plane 1: 3x4 at 1,2\nplane 0: 24x80 at 0,0\n"
    );
    fp.close();
    assert_eq!(nc.debug(&mut fp), Err(NcError::WriteoutError));
    assert_eq!(fp.len(), 0);
}

#[test]
fn colours_pack_into_one_number() {
    assert_eq!(rgb_pack(0x12, 0x34, 0x56), 0x123456);
    assert_eq!(rgb_pack(0, 0, 0), 0);
    assert_eq!(rgb_pack(255, 255, 255), 0xffffff);
    assert_eq!(rgb_pack(1, 0, 0), 65536);
    assert_eq!(rgb_pack(0, 1, 0), 256);
    assert_eq!(rgb_unpack(0x123456), (0x12, 0x34, 0x56));
    assert_eq!(rgb_unpack(0xff123456), (0x12, 0x34, 0x56));
}

#[test]
fn direct_mode_sets_colours_at_once() {
    let mut ncd = NcDirect::new(term(24, 80)).unwrap();
    assert_eq!(ncdirect_set_fg_rgb8(&mut ncd, 1, 2, 3), NCRESULT_OK);
    assert_eq!(ncd.take_output(), b"\x1b[38;2;1;2;3m".to_vec());
    assert_eq!(ncdirect_set_bg_rgb8(&mut ncd, 255, 0, 128), NCRESULT_OK);
    assert_eq!(ncd.take_output(), b"\x1b[48;2;255;0;128m".to_vec());
    assert_eq!(ncdirect_set_fg_rgb(&mut ncd, 0x0a0b0c), NCRESULT_OK);
    assert_eq!(ncd.take_output(), b"\x1b[38;2;10;11;12m".to_vec());
    assert_eq!(ncdirect_set_bg_rgb(&mut ncd, 0x1000000), NCRESULT_ERR);
    assert_eq!(ncdirect_set_fg_rgb(&mut ncd, 0x1000000), NCRESULT_ERR);
    assert!(ncd.take_output().is_empty());
    ncd.close_output();
    assert_eq!(ncdirect_set_fg_rgb8(&mut ncd, 1, 2, 3), NCRESULT_ERR);
    let plain = NcCapabilities { truecolor: false, ..caps() };
    let mut ncd = NcDirect::new(NcTerminal { caps: plain, ..term(24, 80) }).unwrap();
    assert_eq!(ncdirect_set_fg_rgb8(&mut ncd, 1, 2, 3), NCRESULT_ERR);
    assert_eq!(ncdirect_set_bg_rgb8(&mut ncd, 1, 2, 3), NCRESULT_ERR);
    assert!(ncd.take_output().is_empty());
    let mut ncd = NcDirect::new(term(24, 80)).unwrap();
    ncd.stop().unwrap();
    assert_eq!(ncdirect_set_fg_rgb8(&mut ncd, 1, 2, 3), NCRESULT_ERR);
    assert!(!ncd.is_active());
}

#[test]
fn writeout_goes_to_a_sink_or_a_buffer() {
    let mut sink = NcFile::new();
    assert!(sink.is_open());
    assert_eq!(writeout(&mut sink, b"abc"), Ok(()));
    assert_eq!(writeout(&mut sink, b""), Ok(()));
    assert_eq!(sink.write(b"de"), Ok(()));
    assert_eq!(sink.bytes(), &b"abcde".to_vec());
    sink.close();
    assert_eq!(writeout(&mut sink, b"f"), Err(NcError::WriteoutError));
    assert_eq!(sink.len(), 5);
    assert_eq!(sink.take(), b"abcde".to_vec());
    assert_eq!(sink.len(), 0);
    assert!(!sink.is_open());
    let mut buffer = b"xy".to_vec();
    assert_eq!(writeout_to_buffer(&mut buffer, b"z12"), 5);
    assert_eq!(writeout_to_buffer(&mut buffer, b""), 5);
    assert_eq!(buffer, b"xyz12".to_vec());
}

#[test]
fn errors_have_codes() {
    let all = [
        NcError::GeometryError,
        NcError::WriteoutError,
        NcError::InputError,
        NcError::LifecycleError,
        NcError::CapabilityError,
    ];
    let codes: Vec<i32> = all.iter().map(|e| e.code()).collect();
    assert_eq!(codes, vec![-2, -3, -4, -5, -6]);
}

#[test]
fn a_resized_terminal_resizes_the_pile() {
    let options = NotcursesOptions::with_all_options(0, 1, 0, 0, 2, NCOPTION_SUPPRESS_BANNERS);
    let mut nc = Notcurses::with_options(term(10, 20), options).unwrap();
    nc.stdplane().unwrap().putstr("abcdef").unwrap();
    let id = nc.plane_create(2, 3, 4, 5).unwrap();
    nc.plane_mut(id).unwrap().putstr("p").unwrap();
    nc.cursor_enable(8, 17).unwrap();
    nc.render().unwrap();
    nc.take_output();
    // Too small for the plane, for the margins, for a terminal: no change.
    assert_eq!(nc.resize(6, 20), Err(NcError::GeometryError));
    assert_eq!(nc.resize(10, 7), Err(NcError::GeometryError));
    assert_eq!(nc.resize(1, 20), Err(NcError::GeometryError));
    assert_eq!(nc.resize(10, 2), Err(NcError::GeometryError));
    assert_eq!(nc.resize(65536, 20), Err(NcError::GeometryError));
    assert_eq!(nc.term_dim_yx(), Ok((10, 20)));
    assert_eq!(nc.stdplane_const().unwrap().dim_yx(), (9, 18));
    let mut input = notcurses::NcInput::new();
    assert_eq!(nc.getc_nblock(&mut input), Ok('\0'));
    // The smallest that holds the plane.
    assert!(nc.take_output().is_empty());
    assert_eq!(nc.resize(7, 10), Ok(()));
    assert_eq!(nc.take_output(), b"\x1b[2J".to_vec());
    assert_eq!(nc.term_dim_yx(), Ok((7, 10)));
    assert_eq!(nc.stdplane_const().unwrap().dim_yx(), (6, 8));
    assert_eq!(nc.plane(id).unwrap().dim_yx(), (4, 5));
    assert_eq!(nc.getc_nblock(&mut input), Ok(notcurses::NCKEY_RESIZE));
    assert_eq!((input.y, input.x), (7, 10));
    // The screen is taken to be blank, so all that shows is written anew;
    // the cursor came back inside.
    assert!(nc.render().is_ok());
    assert_eq!(
        nc.take_output(),
        b"\x1b[2;3H\x1b[0mabcdef\x1b[4;6Hp\x1b[7;10H".to_vec()
    );
    // A plane made before still fits when the terminal grows.
    assert_eq!(nc.resize(30, 40), Ok(()));
    assert_eq!(nc.stdplane_const().unwrap().dim_yx(), (29, 38));
    assert_eq!(nc.plane_create(28, 37, 1, 1).map(|_| ()), Ok(()));
    assert_eq!(nc.plane_mut(id).unwrap().resize(27, 35), Ok(()));
}
