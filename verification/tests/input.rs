use notcurses::{
    ncdirect_getc_nblock, ncdirect_getc_nblocking, ncdirect_getc_resume, read_event, read_events,
    NcAcquired, NcCapabilities, NcDirect, NcError, NcEvent, NcInput, NcInputMux, NcInputState,
    NcMouseAction, NcSignalSet, NcTermMode, NcTerminal, NcTime, NcWaitOutcome, Notcurses,
    NotcursesOptions, NCKEY_BUTTON1, NCKEY_BUTTON3, NCKEY_DOWN, NCKEY_END, NCKEY_ESC, NCKEY_HOME,
    NCKEY_INVALID, NCKEY_LEFT, NCKEY_MOTION, NCKEY_RELEASE, NCKEY_RIGHT, NCKEY_SIGNAL, NCKEY_UP,
    NCOPTION_NO_QUIT_SIGHANDLERS, NCOPTION_NO_WINCH_SIGHANDLER, NCSTYLE_MASK, SIGINT, SIGQUIT,
    SIGTERM, SIGWINCH,
};

fn term(mouse: bool) -> NcTerminal {
    NcTerminal {
        rows: 24,
        cols: 80,
        caps: NcCapabilities {
            truecolor: true,
            utf8: true,
            colors: 256,
            can_change_colors: false,
            sixel: false,
            sextant: false,
            images: false,
            videos: false,
            mouse,
            styles: NCSTYLE_MASK,
        },
        mode: NcTermMode {
            cursor_visible: true,
            alt_screen: false,
            line_signals: true,
            mouse: false,
        },
        in_use: false,
        input_fd: 5,
    }
}

fn key(id: char) -> NcEvent {
    NcEvent::Key { id, alt: false, shift: false, ctrl: false }
}

fn events(bytes: &[u8], mouse: bool) -> Vec<NcEvent> {
    let mut queue = Vec::new();
    read_events(&mut queue, bytes, mouse);
    queue
}

fn event_of(a: NcAcquired) -> Option<NcEvent> {
    match a {
        NcAcquired::Event(e) => Some(e),
        _ => None,
    }
}

const PRESS_AT_COLUMN_10_ROW_5: &[u8] = b"\x1b[M +&";

#[test]
fn a_wait_of_zero_on_an_empty_queue_gives_no_event() {
    let mut nc = Notcurses::new(term(true)).unwrap();
    let mut input = NcInput::new();
    let r = nc.getc(Some(NcTime { tv_sec: 0, tv_nsec: 0 }), None, Some(&mut input)).unwrap();
    assert!(matches!(r, NcAcquired::NoEvent));
    assert_eq!(input, NcInput::new());
    assert_eq!(nc.getc_nblock(&mut input), Ok('\0'));
    let r = nc.getc(Some(NcTime { tv_sec: -3, tv_nsec: 7 }), None, None).unwrap();
    assert!(matches!(r, NcAcquired::NoEvent));
    let mut mux = NcInputMux::new(NcSignalSet::new());
    assert!(matches!(mux.acquire(Some(NcTime::new()), None), Ok(NcAcquired::NoEvent)));
    assert_eq!(mux.state(), NcInputState::Idle);
}

#[test]
fn a_mouse_press_is_a_mouse_event_once_reporting_is_on() {
    let mut nc = Notcurses::new(term(true)).unwrap();
    let mut input = NcInput::new();
    // Before: the same bytes are keys.
    nc.feed(PRESS_AT_COLUMN_10_ROW_5).unwrap();
    let mut ids = Vec::new();
    loop {
        let id = nc.getc_nblock(&mut input).unwrap();
        if id == '\0' {
            break;
        }
        ids.push(id);
    }
    assert_eq!(ids, vec!['[', 'M', ' ', '+', '&']);
    assert!(input.alt == false);
    assert_eq!(
        events(PRESS_AT_COLUMN_10_ROW_5, false),
        vec![
            NcEvent::Key { id: '[', alt: true, shift: false, ctrl: false },
            key('M'),
            key(' '),
            key('+'),
            key('&'),
        ]
    );
    // After: one mouse event, with the coordinates.
    nc.take_output();
    assert_eq!(nc.mouse_enable(), Ok(()));
    assert_eq!(nc.take_output(), b"\x1b[?1002;1005h".to_vec());
    assert!(nc.term_mode().mouse);
    nc.feed(PRESS_AT_COLUMN_10_ROW_5).unwrap();
    assert_eq!(nc.getc_nblock(&mut input), Ok(NCKEY_BUTTON1));
    assert_eq!(
        input,
        NcInput {
            id: NCKEY_BUTTON1,
            y: 5,
            x: 10,
            alt: false,
            shift: false,
            ctrl: false,
            seqnum: 6,
        }
    );
    assert_eq!(nc.getc_nblock(&mut input), Ok('\0'));
    assert_eq!(
        events(PRESS_AT_COLUMN_10_ROW_5, true),
        vec![NcEvent::Mouse {
            button: 1,
            action: NcMouseAction::Press,
            y: 5,
            x: 10,
            alt: false,
            shift: false,
            ctrl: false,
        }]
    );
    // And off again.
    assert_eq!(nc.mouse_disable(), Ok(()));
    assert_eq!(nc.take_output(), b"\x1b[?1002;1005l".to_vec());
    nc.feed(PRESS_AT_COLUMN_10_ROW_5).unwrap();
    assert_eq!(nc.getc_nblock(&mut input), Ok('['));
}

#[test]
fn a_terminal_without_a_mouse_reports_none() {
    let mut nc = Notcurses::new(term(false)).unwrap();
    assert_eq!(nc.mouse_enable(), Err(NcError::CapabilityError));
    assert!(!nc.term_mode().mouse);
    let mut nc = Notcurses::new(term(true)).unwrap();
    nc.close_output();
    assert_eq!(nc.mouse_enable(), Err(NcError::WriteoutError));
    assert_eq!(nc.mouse_disable(), Err(NcError::WriteoutError));
    nc.feed(PRESS_AT_COLUMN_10_ROW_5).unwrap();
    let mut input = NcInput::new();
    assert_eq!(nc.getc_nblock(&mut input), Ok('['));
}

#[test]
fn mouse_reports_carry_button_action_and_modifiers() {
    let mouse = |b: u8, x: u8, y: u8| events(&[0x1b, b'[', b'M', b, x, y], true);
    assert_eq!(
        mouse(32 + 2, 33, 33),
        vec![NcEvent::Mouse {
            button: 3,
            action: NcMouseAction::Press,
            y: 0,
            x: 0,
            alt: false,
            shift: false,
            ctrl: false,
        }]
    );
    assert_eq!(
        mouse(32 + 3 + 4 + 16, 34, 35),
        vec![NcEvent::Mouse {
            button: 0,
            action: NcMouseAction::Release,
            y: 2,
            x: 1,
            alt: false,
            shift: true,
            ctrl: true,
        }]
    );
    assert_eq!(
        mouse(32 + 1 + 8 + 32, 40, 41),
        vec![NcEvent::Mouse {
            button: 2,
            action: NcMouseAction::Motion,
            y: 8,
            x: 7,
            alt: true,
            shift: false,
            ctrl: false,
        }]
    );
    // Coordinates past 94 come as two bytes of UTF-8: U+0100 is column 223.
    assert_eq!(
        events(b"\x1b[M \xc4\x80!", true),
        vec![NcEvent::Mouse {
            button: 1,
            action: NcMouseAction::Press,
            y: 0,
            x: 223,
            alt: false,
            shift: false,
            ctrl: false,
        }]
    );
    // A button byte out of range, a coordinate below 33, a report cut short:
    // no mouse event.
    assert!(mouse(96 + 32, 33, 33).iter().all(|e| matches!(e, NcEvent::Key { .. })));
    assert!(mouse(32, 32, 40).iter().all(|e| matches!(e, NcEvent::Key { .. })));
    assert!(events(b"\x1b[M !", true).iter().all(|e| matches!(e, NcEvent::Key { .. })));
    let ids: Vec<char> = [
        NcEvent::Mouse {
            button: 3,
            action: NcMouseAction::Press,
            y: 0,
            x: 0,
            alt: false,
            shift: false,
            ctrl: false,
        },
        NcEvent::Mouse {
            button: 0,
            action: NcMouseAction::Release,
            y: 0,
            x: 0,
            alt: false,
            shift: false,
            ctrl: false,
        },
        NcEvent::Mouse {
            button: 1,
            action: NcMouseAction::Motion,
            y: 0,
            x: 0,
            alt: false,
            shift: false,
            ctrl: false,
        },
    ]
    .iter()
    .map(|e| e.id())
    .collect();
    assert_eq!(ids, vec![NCKEY_BUTTON3, NCKEY_RELEASE, NCKEY_MOTION]);
}

#[test]
fn keys_are_classified() {
    assert_eq!(events(b"a", false), vec![key('a')]);
    assert_eq!(events(b"", false), vec![]);
    assert_eq!(events("\u{e9}\u{4e2d}\u{1f600}".as_bytes(), false), vec![
        key('\u{e9}'),
        key('\u{4e2d}'),
        key('\u{1f600}'),
    ]);
    assert_eq!(
        events(b"\x1b[A\x1b[B\x1b[C\x1b[D\x1b[H\x1b[F", false),
        vec![
            key(NCKEY_UP),
            key(NCKEY_DOWN),
            key(NCKEY_RIGHT),
            key(NCKEY_LEFT),
            key(NCKEY_HOME),
            key(NCKEY_END),
        ]
    );
    assert_eq!(events(b"\x1b", false), vec![key(NCKEY_ESC)]);
    assert_eq!(events(b"\x1b\x1b", false), vec![key(NCKEY_ESC), key(NCKEY_ESC)]);
    assert_eq!(
        events(b"\x1bx", false),
        vec![NcEvent::Key { id: 'x', alt: true, shift: false, ctrl: false }]
    );
    assert_eq!(
        events("\x1b\u{e9}".as_bytes(), false),
        vec![NcEvent::Key { id: '\u{e9}', alt: true, shift: false, ctrl: false }]
    );
    assert_eq!(
        events(b"\x01\x1a\x1c\x1f", false),
        vec![
            NcEvent::Key { id: 'A', alt: false, shift: false, ctrl: true },
            NcEvent::Key { id: 'Z', alt: false, shift: false, ctrl: true },
            NcEvent::Key { id: '\\', alt: false, shift: false, ctrl: true },
            NcEvent::Key { id: '_', alt: false, shift: false, ctrl: true },
        ]
    );
    assert_eq!(
        events(b"\x00\t\n\r\x7f", false),
        vec![key('\0'), key('\t'), key('\n'), key('\r'), key('\u{7f}')]
    );
    // Bytes that are no UTF-8: a continuation byte alone, an overlong form,
    // a surrogate, a scalar cut short, a number above the last scalar.
    assert_eq!(events(b"\x80", false), vec![key(NCKEY_INVALID)]);
    assert_eq!(events(b"\xc0\x80", false), vec![key(NCKEY_INVALID), key(NCKEY_INVALID)]);
    assert_eq!(
        events(b"\xed\xa0\x80", false),
        vec![key(NCKEY_INVALID), key(NCKEY_INVALID), key(NCKEY_INVALID)]
    );
    assert_eq!(events(b"\xe4\xb8", false), vec![key(NCKEY_INVALID), key(NCKEY_INVALID)]);
    assert_eq!(
        events(b"\xf4\x90\x80\x80a", false),
        vec![
            key(NCKEY_INVALID),
            key(NCKEY_INVALID),
            key(NCKEY_INVALID),
            key(NCKEY_INVALID),
            key('a'),
        ]
    );
    assert_eq!(read_event(b"xy\xc3\xa9z", 2, false), (key('\u{e9}'), 2));
    assert_eq!(read_event(b"\x1b[Az", 0, true), (key(NCKEY_UP), 3));
}

#[test]
fn events_come_in_order_and_are_counted() {
    let mut nc = Notcurses::new(term(true)).unwrap();
    nc.feed(b"ab").unwrap();
    assert_eq!(nc.inject_signal(SIGINT), Ok(true));
    assert_eq!(nc.inject_signal(0), Ok(false));
    assert_eq!(nc.inject_signal(65), Ok(false));
    let mut input = NcInput::new();
    let first = nc.getc(None, None, Some(&mut input)).unwrap();
    assert_eq!(event_of(first), Some(key('a')));
    assert_eq!(input.seqnum, 1);
    let second = nc.getc_nblocking(&mut input).unwrap();
    assert_eq!(event_of(second), Some(key('b')));
    assert_eq!(input.seqnum, 2);
    assert_eq!(nc.getc_nblock(&mut input), Ok(NCKEY_SIGNAL));
    assert_eq!(
        input,
        NcInput {
            id: NCKEY_SIGNAL,
            y: SIGINT as u32,
            x: 0,
            alt: false,
            shift: false,
            ctrl: false,
            seqnum: 3,
        }
    );
    assert_eq!(nc.getc_nblock(&mut input), Ok('\0'));
    assert_eq!(input.seqnum, 3);
}

#[test]
fn an_unbounded_wait_is_handed_to_the_caller() {
    let mut nc = Notcurses::new(term(true)).unwrap();
    let mut input = NcInput::new();
    let wait = match nc.getc_nblocking(&mut input).unwrap() {
        NcAcquired::Block(w) => w,
        _ => panic!("a wait was due"),
    };
    assert_eq!(wait.timeout, None);
    for s in 1..=64 {
        assert!(!wait.mask.ismember(s));
    }
    // With every signal named, all but the observed ones are blocked.
    let wait = match nc.getc(None, None, None).unwrap() {
        NcAcquired::Block(w) => w,
        _ => panic!("a wait was due"),
    };
    for s in 1..=64u8 {
        let observed = s == SIGINT || s == SIGQUIT || s == SIGTERM || s == SIGWINCH;
        assert_eq!(wait.mask.ismember(s), !observed);
    }
    assert!(!wait.mask.ismember(0));
    // The wait ends with bytes: the first event is delivered.
    let r = nc.getc_resume(NcWaitOutcome::Readable(b"xy".to_vec()), Some(&mut input)).unwrap();
    assert_eq!(event_of(r), Some(key('x')));
    assert_eq!(input.id, 'x');
    assert_eq!(nc.getc_nblock(&mut input), Ok('y'));
}

#[test]
fn a_bounded_wait_expires_with_no_event() {
    let mut mux = NcInputMux::new(NcSignalSet::new());
    let time = NcTime { tv_sec: 0, tv_nsec: 1 };
    let wait = match mux.acquire(Some(time), None).unwrap() {
        NcAcquired::Block(w) => w,
        _ => panic!("a wait was due"),
    };
    assert_eq!(wait.timeout, Some(time));
    assert_eq!(mux.state(), NcInputState::Waiting);
    assert!(matches!(mux.resume(NcWaitOutcome::Expired), Ok(NcAcquired::NoEvent)));
    assert_eq!(mux.state(), NcInputState::Idle);
    // An unbounded wait does not expire.
    assert!(matches!(mux.acquire(None, None), Ok(NcAcquired::Block(_))));
    assert!(matches!(mux.resume(NcWaitOutcome::Expired), Ok(NcAcquired::Block(_))));
    assert_eq!(mux.state(), NcInputState::Waiting);
    // Nor does an empty read end it.
    assert!(matches!(mux.resume(NcWaitOutcome::Readable(vec![])), Ok(NcAcquired::Block(_))));
    assert!(matches!(
        mux.resume(NcWaitOutcome::Readable(b"k".to_vec())),
        Ok(NcAcquired::Event(_))
    ));
    assert_eq!(mux.state(), NcInputState::EventReady);
    assert_eq!(mux.delivered(), 1);
    assert_eq!(mux.pending(), 0);
}

#[test]
fn a_signal_interrupts_unless_it_is_blocked() {
    let mut observed = NcSignalSet::new();
    assert!(observed.addset(SIGWINCH));
    assert!(!observed.addset(0));
    assert!(!observed.addset(65));
    let mut mux = NcInputMux::new(observed);
    let mut mask = NcSignalSet::new();
    mask.addset(SIGTERM);
    mask.addset(SIGWINCH);
    let wait = match mux.acquire(None, Some(&mask)).unwrap() {
        NcAcquired::Block(w) => w,
        _ => panic!("a wait was due"),
    };
    assert!(wait.mask.ismember(SIGTERM));
    assert!(!wait.mask.ismember(SIGWINCH));
    assert!(!wait.mask.ismember(SIGINT));
    // A blocked signal does not end the wait.
    assert!(matches!(mux.resume(NcWaitOutcome::Signal(SIGTERM)), Ok(NcAcquired::Block(_))));
    assert_eq!(mux.state(), NcInputState::Waiting);
    // Nor does a number that names no signal.
    assert!(matches!(mux.resume(NcWaitOutcome::Signal(0)), Ok(NcAcquired::Block(_))));
    assert!(matches!(mux.resume(NcWaitOutcome::Signal(200)), Ok(NcAcquired::Block(_))));
    // The observed one does.
    assert!(matches!(
        mux.resume(NcWaitOutcome::Signal(SIGWINCH)),
        Ok(NcAcquired::Interrupted(SIGWINCH))
    ));
    assert_eq!(mux.state(), NcInputState::SignalInterrupted);
    // And so does one that was not named.
    assert!(matches!(mux.acquire(None, Some(&mask)), Ok(NcAcquired::Block(_))));
    assert!(matches!(
        mux.resume(NcWaitOutcome::Signal(SIGINT)),
        Ok(NcAcquired::Interrupted(SIGINT))
    ));
    assert!(matches!(mux.acquire(Some(NcTime::new()), None), Ok(NcAcquired::NoEvent)));
    assert_eq!(mux.state(), NcInputState::Idle);
}

#[test]
fn inhibited_handlers_leave_their_signals_blocked() {
    let options =
        NotcursesOptions::with_flags(NCOPTION_NO_WINCH_SIGHANDLER | NCOPTION_NO_QUIT_SIGHANDLERS);
    let mut nc = Notcurses::with_options(term(true), options).unwrap();
    let wait = match nc.getc(None, None, None).unwrap() {
        NcAcquired::Block(w) => w,
        _ => panic!("a wait was due"),
    };
    for s in 1..=64 {
        assert!(wait.mask.ismember(s));
    }
    let mut nc =
        Notcurses::with_flags(term(true), NCOPTION_NO_QUIT_SIGHANDLERS).unwrap();
    let wait = match nc.getc(None, None, None).unwrap() {
        NcAcquired::Block(w) => w,
        _ => panic!("a wait was due"),
    };
    assert!(!wait.mask.ismember(SIGWINCH));
    assert!(wait.mask.ismember(SIGINT));
}

#[test]
fn a_closed_source_is_an_error_once_the_queue_is_empty() {
    let mut nc = Notcurses::new(term(true)).unwrap();
    assert_eq!(nc.inputready_fd(), Ok(()));
    assert_eq!(nc.input_fd(), 5);
    nc.feed(b"q").unwrap();
    let mut input = NcInput::new();
    assert!(matches!(nc.getc(None, None, None), Ok(NcAcquired::Event(_))));
    assert!(matches!(nc.getc(None, None, None), Ok(NcAcquired::Block(_))));
    assert!(matches!(nc.getc_resume(NcWaitOutcome::Closed, None), Err(NcError::InputError)));
    assert_eq!(nc.inputready_fd(), Err(NcError::InputError));
    assert_eq!(nc.getc_nblock(&mut input), Err(NcError::InputError));
    assert!(matches!(nc.getc(None, None, None), Err(NcError::InputError)));
    // What is queued is still delivered.
    nc.feed(b"z").unwrap();
    assert_eq!(nc.getc_nblock(&mut input), Ok('z'));
    assert_eq!(nc.getc_nblock(&mut input), Err(NcError::InputError));
    let mut nc = Notcurses::new(term(true)).unwrap();
    nc.close_input();
    assert_eq!(nc.getc_nblock(&mut input), Err(NcError::InputError));
}

#[test]
fn a_stopped_context_takes_no_input() {
    let mut nc = Notcurses::new(term(true)).unwrap();
    nc.feed(b"q").unwrap();
    nc.stop().unwrap();
    let mut input = NcInput::new();
    assert_eq!(nc.getc_nblock(&mut input), Err(NcError::LifecycleError));
    assert!(matches!(nc.getc_nblocking(&mut input), Err(NcError::LifecycleError)));
    assert!(matches!(nc.getc(None, None, None), Err(NcError::LifecycleError)));
    assert!(matches!(
        nc.getc_resume(NcWaitOutcome::Expired, None),
        Err(NcError::LifecycleError)
    ));
    assert_eq!(nc.feed(b"x"), Err(NcError::LifecycleError));
    assert_eq!(nc.inject_signal(SIGINT), Err(NcError::LifecycleError));
    assert_eq!(nc.inputready_fd(), Err(NcError::LifecycleError));
    assert_eq!(nc.mouse_enable(), Err(NcError::LifecycleError));
    assert_eq!(nc.mouse_disable(), Err(NcError::LifecycleError));
    assert_eq!(input, NcInput::new());
}

#[test]
fn direct_mode_polls_and_blocks() {
    let mut ncd = NcDirect::new(term(false)).unwrap();
    let mut input = NcInput::new();
    assert_eq!(ncdirect_getc_nblock(&mut ncd, &mut input), Ok('\0'));
    ncd.feed(b"\x1b[Bz");
    assert_eq!(ncdirect_getc_nblock(&mut ncd, &mut input), Ok(NCKEY_DOWN));
    assert_eq!(input.seqnum, 1);
    let r = ncdirect_getc_nblocking(&mut ncd, &mut input).unwrap();
    assert_eq!(event_of(r), Some(key('z')));
    assert_eq!(input.id, 'z');
    let wait = match ncdirect_getc_nblocking(&mut ncd, &mut input).unwrap() {
        NcAcquired::Block(w) => w,
        _ => panic!("a wait was due"),
    };
    assert_eq!(wait.timeout, None);
    for s in 1..=64 {
        assert!(!wait.mask.ismember(s));
    }
    let r = ncdirect_getc_resume(&mut ncd, NcWaitOutcome::Signal(SIGINT), None).unwrap();
    assert!(matches!(r, NcAcquired::Interrupted(SIGINT)));
    assert_eq!(ncd.stop(), Ok(()));
    assert_eq!(ncd.stop(), Err(NcError::LifecycleError));
    assert_eq!(ncdirect_getc_nblock(&mut ncd, &mut input), Err(NcError::LifecycleError));
    assert!(NcDirect::new(NcTerminal { in_use: true, ..term(false) }).is_err());
}

#[test]
fn signal_sets_hold_signals() {
    let mut set = NcSignalSet::new();
    assert!(!set.ismember(SIGINT));
    assert!(set.addset(SIGINT));
    assert!(set.addset(64));
    assert!(set.ismember(SIGINT) && set.ismember(64));
    assert!(!set.ismember(0) && !set.ismember(65) && !set.ismember(3));
    assert!(set.delset(SIGINT));
    assert!(!set.delset(0));
    assert!(!set.ismember(SIGINT));
    set.fillset();
    assert!(set.ismember(1) && set.ismember(64) && !set.ismember(0));
    let mut other = NcSignalSet::new();
    other.addset(9);
    let rest = set.without(&other);
    assert!(!rest.ismember(9) && rest.ismember(8));
    set.emptyset();
    assert!(!set.ismember(1));
    assert!(NcSignalSet::full().ismember(33));
}

#[test]
fn spans_of_time_are_zero_or_not() {
    assert!(NcTime::new().is_zero());
    assert!(NcTime { tv_sec: 0, tv_nsec: 0 }.is_zero());
    assert!(!NcTime { tv_sec: 0, tv_nsec: 1 }.is_zero());
    assert!(!NcTime { tv_sec: 1, tv_nsec: -999_999_999 }.is_zero());
    assert!(NcTime { tv_sec: 1, tv_nsec: -1_000_000_000 }.is_zero());
    assert!(NcTime { tv_sec: -1, tv_nsec: 0 }.is_zero());
    assert!(!NcTime { tv_sec: i64::MAX, tv_nsec: i64::MAX }.is_zero());
    assert!(NcTime { tv_sec: i64::MIN, tv_nsec: i64::MIN }.is_zero());
}
