use notcurses::{
    raster_ops, NcCapabilities, NcCell, NcChannel, NcChannelPair, NcError, NcFile, NcGlyph, NcGrid,
    NcInk, NcAlpha, NcPen, NcRasterOp, NcStats, NcTermMode, NcTerminal, Notcurses,
    NotcursesOptions, NCSTYLE_BOLD, NCSTYLE_MASK, NCSTYLE_NONE, NCSTYLE_UNDERLINE,
};

fn caps() -> NcCapabilities {
    NcCapabilities {
        truecolor: true,
        utf8: true,
        colors: 256,
        can_change_colors: true,
        sixel: false,
        sextant: true,
        images: false,
        videos: false,
        mouse: true,
        styles: NCSTYLE_MASK,
    }
}

fn term(rows: u32, cols: u32) -> NcTerminal {
    NcTerminal {
        rows,
        cols,
        caps: caps(),
        mode: NcTermMode {
            cursor_visible: true,
            alt_screen: false,
            line_signals: true,
            mouse: false,
        },
        in_use: false,
        input_fd: 0,
    }
}

fn cell(c: char) -> NcCell {
    NcCell {
        glyph: NcGlyph::Egc(c),
        style: NCSTYLE_NONE,
        channels: NcChannelPair {
            fg: NcChannel { ink: NcInk::Default, alpha: NcAlpha::Opaque },
            bg: NcChannel { ink: NcInk::Default, alpha: NcAlpha::Opaque },
        },
    }
}

/// A terminal that understands the rasterizer's operations.
struct Screen {
    rows: u32,
    cols: u32,
    cells: Vec<NcCell>,
    y: u32,
    x: u32,
    pen: NcPen,
}

impl Screen {
    fn blank(rows: u32, cols: u32) -> Screen {
        Screen {
            rows,
            cols,
            cells: vec![cell(' '); (rows * cols) as usize],
            y: 7,
            x: 3,
            pen: NcPen { style: NCSTYLE_BOLD, fg: NcInk::Palette(3), bg: NcInk::Default },
        }
    }

    fn apply(&mut self, ops: &[NcRasterOp]) {
        for op in ops {
            match *op {
                NcRasterOp::Move { y, x } => {
                    self.y = y;
                    self.x = x;
                }
                NcRasterOp::Style(style) => {
                    self.pen = NcPen { style, fg: NcInk::Default, bg: NcInk::Default };
                }
                NcRasterOp::Fg(ink) => self.pen.fg = ink,
                NcRasterOp::Bg(ink) => self.pen.bg = ink,
                NcRasterOp::Put(c) => {
                    let wide = notcurses::cell::egc_width(c) == 2;
                    let channels = NcChannelPair {
                        fg: NcChannel { ink: self.pen.fg, alpha: NcAlpha::Opaque },
                        bg: NcChannel { ink: self.pen.bg, alpha: NcAlpha::Opaque },
                    };
                    if self.y < self.rows && self.x < self.cols {
                        let at = (self.y * self.cols + self.x) as usize;
                        self.cells[at] =
                            NcCell { glyph: NcGlyph::Egc(c), style: self.pen.style, channels };
                        if wide && self.x + 1 < self.cols {
                            self.cells[at + 1] = NcCell {
                                glyph: NcGlyph::Continuation,
                                style: self.pen.style,
                                channels,
                            };
                        }
                    }
                    self.x += if wide { 2 } else { 1 };
                }
            }
        }
    }
}

fn cells_of(grid: &NcGrid) -> Vec<NcCell> {
    let mut v = Vec::new();
    for y in 0..grid.rows() {
        for x in 0..grid.cols() {
            v.push(grid.get(y, x));
        }
    }
    v
}

#[test]
fn hello_takes_five_puts_and_one_move() {
    let mut nc = Notcurses::new(term(24, 80)).unwrap();
    assert_eq!(nc.stdplane().unwrap().putstr("hello"), Ok(5));
    let ops = nc.render_ops().unwrap();
    let puts = ops.iter().filter(|op| matches!(op, NcRasterOp::Put(_))).count();
    let moves = ops.iter().filter(|op| matches!(op, NcRasterOp::Move { .. })).count();
    assert_eq!(puts, 5);
    assert!(moves <= 1);
    assert_eq!(
        ops,
        vec![
            NcRasterOp::Move { y: 0, x: 0 },
            NcRasterOp::Style(NCSTYLE_NONE),
            NcRasterOp::Put('h'),
            NcRasterOp::Put('e'),
            NcRasterOp::Put('l'),
            NcRasterOp::Put('l'),
            NcRasterOp::Put('o'),
        ]
    );
    nc.take_output();
    assert_eq!(nc.render(), Ok(15));
    assert_eq!(nc.take_output(), b"\x1b[1;1H\x1b[0mhello".to_vec());
    assert_eq!(nc.render(), Ok(0));
}

#[test]
fn second_render_of_an_unchanged_pile_writes_nothing() {
    let mut nc = Notcurses::new(term(4, 10)).unwrap();
    nc.stdplane().unwrap().putstr("abc").unwrap();
    nc.render().unwrap();
    nc.take_output();
    assert_eq!(nc.render_ops().unwrap(), vec![]);
    nc.render().unwrap();
    assert!(nc.take_output().is_empty());
}

#[test]
fn compositing_twice_gives_one_frame() {
    let mut nc = Notcurses::new(term(4, 10)).unwrap();
    nc.stdplane().unwrap().putstr("abc").unwrap();
    let id = nc.plane_create(1, 1, 2, 3).unwrap();
    nc.plane_mut(id).unwrap().putstr("xy").unwrap();
    let first = cells_of(&nc.composite().unwrap());
    let second = cells_of(&nc.composite().unwrap());
    assert_eq!(first, second);
}

#[test]
fn only_the_changed_cells_are_written() {
    let mut nc = Notcurses::new(term(4, 10)).unwrap();
    nc.stdplane().unwrap().putstr("abcdef").unwrap();
    nc.render().unwrap();
    nc.take_output();
    let plane = nc.stdplane().unwrap();
    plane.cursor_move_yx(0, 2).unwrap();
    plane.putstr("XY").unwrap();
    assert_eq!(
        nc.render_ops().unwrap(),
        vec![
            NcRasterOp::Move { y: 0, x: 2 },
            NcRasterOp::Style(NCSTYLE_NONE),
            NcRasterOp::Put('X'),
            NcRasterOp::Put('Y'),
        ]
    );
}

#[test]
fn cells_apart_need_a_move_each() {
    let mut nc = Notcurses::new(term(4, 10)).unwrap();
    let plane = nc.stdplane().unwrap();
    plane.putstr("a").unwrap();
    plane.cursor_move_yx(2, 5).unwrap();
    plane.putstr("b").unwrap();
    assert_eq!(
        nc.render_ops().unwrap(),
        vec![
            NcRasterOp::Move { y: 0, x: 0 },
            NcRasterOp::Style(NCSTYLE_NONE),
            NcRasterOp::Put('a'),
            NcRasterOp::Move { y: 2, x: 5 },
            NcRasterOp::Put('b'),
        ]
    );
}

#[test]
fn the_end_of_a_row_is_not_the_start_of_the_next() {
    let mut nc = Notcurses::new(term(2, 3)).unwrap();
    let plane = nc.stdplane().unwrap();
    plane.putstr("abc").unwrap();
    plane.cursor_move_yx(1, 0).unwrap();
    plane.putstr("d").unwrap();
    assert_eq!(
        nc.render_ops().unwrap(),
        vec![
            NcRasterOp::Move { y: 0, x: 0 },
            NcRasterOp::Style(NCSTYLE_NONE),
            NcRasterOp::Put('a'),
            NcRasterOp::Put('b'),
            NcRasterOp::Put('c'),
            NcRasterOp::Move { y: 1, x: 0 },
            NcRasterOp::Put('d'),
        ]
    );
}

#[test]
fn pen_switches_only_what_changes() {
    let mut nc = Notcurses::new(term(2, 10)).unwrap();
    let plane = nc.stdplane().unwrap();
    plane.set_fg_rgb8(1, 2, 3).unwrap();
    plane.putstr("ab").unwrap();
    plane.set_bg(NcInk::Palette(7)).unwrap();
    plane.putstr("c").unwrap();
    plane.set_styles(NCSTYLE_BOLD | NCSTYLE_UNDERLINE).unwrap();
    plane.putstr("d").unwrap();
    assert_eq!(
        nc.render_ops().unwrap(),
        vec![
            NcRasterOp::Move { y: 0, x: 0 },
            NcRasterOp::Style(NCSTYLE_NONE),
            NcRasterOp::Fg(NcInk::Rgb { r: 1, g: 2, b: 3 }),
            NcRasterOp::Put('a'),
            NcRasterOp::Put('b'),
            NcRasterOp::Bg(NcInk::Palette(7)),
            NcRasterOp::Put('c'),
            NcRasterOp::Style(NCSTYLE_BOLD | NCSTYLE_UNDERLINE),
            NcRasterOp::Fg(NcInk::Rgb { r: 1, g: 2, b: 3 }),
            NcRasterOp::Bg(NcInk::Palette(7)),
            NcRasterOp::Put('d'),
        ]
    );
    nc.take_output();
    nc.render().unwrap();
    assert_eq!(
        nc.take_output(),
        b"\x1b[1;1H\x1b[0m\x1b[38;2;1;2;3mab\x1b[48;5;7mc\x1b[0;1;4m\x1b[38;2;1;2;3m\x1b[48;5;7md"
            .to_vec()
    );
}

#[test]
fn margins_shift_what_is_written() {
    let options = NotcursesOptions::with_all_options(0, 2, 0, 0, 5, 0x20 | 0x40);
    let mut nc = Notcurses::with_options(term(24, 80), options).unwrap();
    assert_eq!(nc.stdplane_const().unwrap().dim_yx(), (22, 75));
    assert_eq!(nc.term_dim_yx(), Ok((24, 80)));
    nc.stdplane().unwrap().putstr("\u{e9}").unwrap();
    nc.take_output();
    nc.render().unwrap();
    assert_eq!(nc.take_output(), b"\x1b[3;6H\x1b[0m\xc3\xa9".to_vec());
}

#[test]
fn rasterizing_onto_a_blank_screen_leaves_the_frame() {
    let mut nc = Notcurses::new(term(5, 12)).unwrap();
    let plane = nc.stdplane().unwrap();
    plane.set_fg(NcInk::Palette(9)).unwrap();
    plane.putstr("ab\u{4e2d}c").unwrap();
    let id = nc.plane_create(1, 2, 3, 6).unwrap();
    let upper = nc.plane_mut(id).unwrap();
    upper.set_styles(NCSTYLE_BOLD).unwrap();
    upper.set_bg_rgb8(10, 20, 30).unwrap();
    upper.cursor_move_yx(1, 1).unwrap();
    upper.putstr("\u{65e5}\u{672c}").unwrap();
    let frame = nc.composite().unwrap();
    let ops = nc.render_ops().unwrap();
    let mut screen = Screen::blank(5, 12);
    screen.apply(&ops);
    assert_eq!(screen.cells, cells_of(&frame));
    assert_eq!(frame.get(0, 2).glyph, NcGlyph::Egc('\u{4e2d}'));
    assert_eq!(frame.get(0, 3).glyph, NcGlyph::Continuation);
    assert_eq!(frame.get(0, 4).glyph, NcGlyph::Egc('c'));
}

#[test]
fn rasterizing_from_any_frame_leaves_the_new_one() {
    let mut nc = Notcurses::new(term(3, 8)).unwrap();
    nc.stdplane().unwrap().putstr("\u{4e2d}\u{4e2d}ab").unwrap();
    let old = nc.composite().unwrap();
    let mut screen = Screen::blank(3, 8);
    screen.apply(&nc.render_ops().unwrap());
    nc.render().unwrap();
    let plane = nc.stdplane().unwrap();
    plane.erase();
    plane.putstr("x\u{4e2d}y").unwrap();
    let new = nc.composite().unwrap();
    let ops = raster_ops(&new, &old);
    assert_eq!(ops, nc.render_ops().unwrap());
    screen.apply(&ops);
    assert_eq!(screen.cells, cells_of(&new));
}

#[test]
fn what_is_written_depends_on_the_changed_region_alone() {
    // Two pairs of frames that agree inside rows 1..2, columns 2..5, and
    // change nowhere else.
    let mut one = Notcurses::new(term(4, 8)).unwrap();
    let mut two = Notcurses::new(term(4, 8)).unwrap();
    one.stdplane().unwrap().putstr("aaaaaaa").unwrap();
    let p = two.stdplane().unwrap();
    p.cursor_move_yx(3, 0).unwrap();
    p.putstr("zz").unwrap();
    one.render().unwrap();
    two.render().unwrap();
    for nc in [&mut one, &mut two] {
        let p = nc.stdplane().unwrap();
        p.cursor_move_yx(1, 2).unwrap();
        p.set_fg(NcInk::Palette(2)).unwrap();
        p.putstr("new").unwrap();
    }
    assert_eq!(one.render_ops().unwrap(), two.render_ops().unwrap());
    let mut a = Vec::new();
    let mut b = Vec::new();
    one.render_to_buffer(&mut a).unwrap();
    two.render_to_buffer(&mut b).unwrap();
    assert_eq!(a.len(), b.len());
    assert_eq!(a, b"\x1b[2;3H\x1b[0m\x1b[38;5;2mnew".to_vec());
}

#[test]
fn a_closed_sink_fails_the_render_and_keeps_the_snapshot() {
    let mut nc = Notcurses::new(term(2, 4)).unwrap();
    nc.take_output();
    nc.stdplane().unwrap().putstr("hi").unwrap();
    let ops = nc.render_ops().unwrap();
    nc.close_output();
    assert_eq!(nc.render(), Err(NcError::WriteoutError));
    assert!(nc.take_output().is_empty());
    assert_eq!(nc.render_ops().unwrap(), ops);
    let mut style = 0;
    let mut channels = nc.stdplane_const().unwrap().channels();
    assert_eq!(nc.at_yx(0, 0, &mut style, &mut channels), Ok(Some(' ')));
    let mut stats = NcStats { renders: 9, render_bytes: 9, cells_elided: 9 };
    nc.stats(&mut stats).unwrap();
    assert_eq!(stats, NcStats { renders: 0, render_bytes: 0, cells_elided: 0 });
}

#[test]
fn render_to_buffer_appends_and_commits() {
    let mut nc = Notcurses::new(term(2, 4)).unwrap();
    nc.take_output();
    nc.stdplane().unwrap().putstr("hi").unwrap();
    let mut buffer = b"old".to_vec();
    assert_eq!(nc.render_to_buffer(&mut buffer), Ok(()));
    assert_eq!(buffer, b"old\x1b[1;1H\x1b[0mhi".to_vec());
    assert!(nc.take_output().is_empty());
    assert_eq!(nc.render_ops().unwrap(), vec![]);
    let mut stats = nc.stats_alloc().unwrap();
    nc.stats_reset(&mut stats).unwrap();
    assert_eq!(stats, NcStats { renders: 1, render_bytes: 12, cells_elided: 6 });
    nc.stats(&mut stats).unwrap();
    assert_eq!(stats, NcStats { renders: 0, render_bytes: 0, cells_elided: 0 });
}

#[test]
fn at_yx_reads_what_was_last_rendered() {
    let mut nc = Notcurses::new(term(2, 6)).unwrap();
    let plane = nc.stdplane().unwrap();
    plane.set_styles(NCSTYLE_BOLD).unwrap();
    plane.set_fg(NcInk::Palette(4)).unwrap();
    plane.putstr("q\u{4e2d}").unwrap();
    let mut style = 0;
    let mut channels = nc.stdplane_const().unwrap().channels();
    assert_eq!(nc.at_yx(0, 0, &mut style, &mut channels), Ok(Some(' ')));
    assert_eq!(style, NCSTYLE_NONE);
    nc.render().unwrap();
    assert_eq!(nc.at_yx(0, 0, &mut style, &mut channels), Ok(Some('q')));
    assert_eq!(style, NCSTYLE_BOLD);
    assert_eq!(channels.fg.ink, NcInk::Palette(4));
    assert_eq!(nc.at_yx(0, 1, &mut style, &mut channels), Ok(Some('\u{4e2d}')));
    assert_eq!(nc.at_yx(0, 2, &mut style, &mut channels), Ok(None));
    style = 77;
    assert_eq!(nc.at_yx(2, 0, &mut style, &mut channels), Err(NcError::GeometryError));
    assert_eq!(nc.at_yx(0, 6, &mut style, &mut channels), Err(NcError::GeometryError));
    assert_eq!(style, 77);
}

#[test]
fn render_to_file_writes_the_whole_last_frame() {
    let mut nc = Notcurses::new(term(2, 6)).unwrap();
    let mut fp = NcFile::new();
    nc.stdplane().unwrap().putstr("ab").unwrap();
    assert_eq!(nc.render_to_file(&mut fp), Ok(()));
    assert_eq!(fp.len(), 0);
    nc.render().unwrap();
    nc.render().unwrap();
    assert_eq!(nc.render_to_file(&mut fp), Ok(()));
    assert_eq!(fp.bytes(), &b"\x1b[1;1H\x1b[0mab".to_vec());
    fp.close();
    assert_eq!(nc.render_to_file(&mut fp), Err(NcError::WriteoutError));
    assert_eq!(fp.take(), b"\x1b[1;1H\x1b[0mab".to_vec());
}

#[test]
fn refresh_repaints_from_the_snapshot() {
    let mut nc = Notcurses::new(term(2, 6)).unwrap();
    nc.stdplane().unwrap().putstr("ab").unwrap();
    nc.render().unwrap();
    nc.stdplane().unwrap().putstr("cd").unwrap();
    nc.take_output();
    assert_eq!(nc.refresh(), Ok((2, 6)));
    assert_eq!(nc.take_output(), b"\x1b[2J\x1b[1;1H\x1b[0mab".to_vec());
    nc.cursor_enable(1, 2).unwrap();
    nc.take_output();
    assert_eq!(nc.refresh(), Ok((2, 6)));
    assert_eq!(nc.take_output(), b"\x1b[2J\x1b[1;1H\x1b[0mab\x1b[2;3H".to_vec());
    nc.close_output();
    assert_eq!(nc.refresh(), Err(NcError::WriteoutError));
}
