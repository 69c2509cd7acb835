//! Input events and their classification from raw terminal bytes.

use vstd::prelude::*;
use vstd::utf8::{decode_first_scalar, length_of_first_scalar, valid_first_scalar};
use crate::codec::{decode_scalar, tail_of};

verus! {

/// The escape key.
pub const NCKEY_ESC: char = '\u{1b}';

/// Stands for a byte that is no UTF-8.
pub const NCKEY_INVALID: char = '\u{fffd}';

/// The terminal was resized.
pub const NCKEY_RESIZE: char = '\u{100001}';

pub const NCKEY_UP: char = '\u{100002}';

pub const NCKEY_RIGHT: char = '\u{100003}';

pub const NCKEY_DOWN: char = '\u{100004}';

pub const NCKEY_LEFT: char = '\u{100005}';

pub const NCKEY_HOME: char = '\u{100006}';

pub const NCKEY_END: char = '\u{100007}';

/// A mouse button went down: `NCKEY_BUTTON1` is the left one.
pub const NCKEY_BUTTON1: char = '\u{1000c9}';

pub const NCKEY_BUTTON2: char = '\u{1000ca}';

pub const NCKEY_BUTTON3: char = '\u{1000cb}';

/// A mouse button went up.
pub const NCKEY_RELEASE: char = '\u{1000d4}';

/// The mouse moved.
pub const NCKEY_MOTION: char = '\u{1000d5}';

/// A signal was injected into the event queue.
pub const NCKEY_SIGNAL: char = '\u{1000d6}';

/// What the mouse did.
#[derive(Clone, Copy, Debug, PartialEq, Eq, Structural)]
pub enum NcMouseAction {
    Press,
    Release,
    Motion,
}

/// One classified input event.
#[derive(Clone, Copy, Debug, PartialEq, Eq, Structural)]
pub enum NcEvent {
    /// A key, by its Unicode scalar value or one of the `NCKEY_` values.
    Key { id: char, alt: bool, shift: bool, ctrl: bool },
    /// A mouse report. `button` is 1, 2 or 3, or 0 where the report names none.
    Mouse { button: u8, action: NcMouseAction, y: u32, x: u32, alt: bool, shift: bool, ctrl: bool },
    /// The terminal has new dimensions.
    Resize { rows: u32, cols: u32 },
    /// A signal, by its number.
    Signal { signo: u8 },
}

/// The details of an event, as the acquiring functions hand them out.
#[derive(Clone, Copy, Debug, PartialEq, Eq, Structural)]
pub struct NcInput {
    /// The event's identifier: what the acquiring function returns.
    pub id: char,
    /// Row of a mouse event, rows of a resize, number of a signal.
    pub y: u32,
    /// Column of a mouse event, columns of a resize.
    pub x: u32,
    pub alt: bool,
    pub shift: bool,
    pub ctrl: bool,
    /// The event's place in the order of delivery, from 1.
    pub seqnum: u64,
}

impl NcInput {
    /// Details that describe no event.
    pub fn new() -> (r: Self)
        ensures
            r == (NcInput {
                id: '\0',
                y: 0,
                x: 0,
                alt: false,
                shift: false,
                ctrl: false,
                seqnum: 0,
            }),
    {
        NcInput { id: '\0', y: 0, x: 0, alt: false, shift: false, ctrl: false, seqnum: 0 }
    }
}

impl NcEvent {
    /// The identifier under which the event is reported.
    pub open spec fn spec_id(self) -> char {
        match self {
            NcEvent::Key { id, .. } => id,
            NcEvent::Mouse { button, action, .. } => match action {
                NcMouseAction::Release => NCKEY_RELEASE,
                NcMouseAction::Motion => NCKEY_MOTION,
                NcMouseAction::Press => if button == 2 {
                    NCKEY_BUTTON2
                } else if button == 3 {
                    NCKEY_BUTTON3
                } else {
                    NCKEY_BUTTON1
                },
            },
            NcEvent::Resize { .. } => NCKEY_RESIZE,
            NcEvent::Signal { .. } => NCKEY_SIGNAL,
        }
    }

    #[verifier::when_used_as_spec(spec_id)]
    pub fn id(self) -> (r: char)
        ensures
            r == self.spec_id(),
    {
        match self {
            NcEvent::Key { id, .. } => id,
            NcEvent::Mouse { button, action, .. } => match action {
                NcMouseAction::Release => NCKEY_RELEASE,
                NcMouseAction::Motion => NCKEY_MOTION,
                NcMouseAction::Press => if button == 2 {
                    NCKEY_BUTTON2
                } else if button == 3 {
                    NCKEY_BUTTON3
                } else {
                    NCKEY_BUTTON1
                },
            },
            NcEvent::Resize { .. } => NCKEY_RESIZE,
            NcEvent::Signal { .. } => NCKEY_SIGNAL,
        }
    }

    /// The event as details, delivered as number `seqnum`.
    pub open spec fn spec_details(self, seqnum: u64) -> NcInput {
        match self {
            NcEvent::Key { id, alt, shift, ctrl } => NcInput {
                id,
                y: 0,
                x: 0,
                alt,
                shift,
                ctrl,
                seqnum,
            },
            NcEvent::Mouse { y, x, alt, shift, ctrl, .. } => NcInput {
                id: self.spec_id(),
                y,
                x,
                alt,
                shift,
                ctrl,
                seqnum,
            },
            NcEvent::Resize { rows, cols } => NcInput {
                id: NCKEY_RESIZE,
                y: rows,
                x: cols,
                alt: false,
                shift: false,
                ctrl: false,
                seqnum,
            },
            NcEvent::Signal { signo } => NcInput {
                id: NCKEY_SIGNAL,
                y: signo as u32,
                x: 0,
                alt: false,
                shift: false,
                ctrl: false,
                seqnum,
            },
        }
    }

    #[verifier::when_used_as_spec(spec_details)]
    pub fn details(self, seqnum: u64) -> (r: NcInput)
        ensures
            r == self.spec_details(seqnum),
            r.id == self.spec_id(),
    {
        match self {
            NcEvent::Key { id, alt, shift, ctrl } => NcInput {
                id,
                y: 0,
                x: 0,
                alt,
                shift,
                ctrl,
                seqnum,
            },
            NcEvent::Mouse { y, x, alt, shift, ctrl, .. } => NcInput {
                id: self.id(),
                y,
                x,
                alt,
                shift,
                ctrl,
                seqnum,
            },
            NcEvent::Resize { rows, cols } => NcInput {
                id: NCKEY_RESIZE,
                y: rows,
                x: cols,
                alt: false,
                shift: false,
                ctrl: false,
                seqnum,
            },
            NcEvent::Signal { signo } => NcInput {
                id: NCKEY_SIGNAL,
                y: signo as u32,
                x: 0,
                alt: false,
                shift: false,
                ctrl: false,
                seqnum,
            },
        }
    }
}

/// A key without modifiers.
pub open spec fn plain_key(id: char) -> NcEvent {
    NcEvent::Key { id, alt: false, shift: false, ctrl: false }
}

/// The key that the final byte of a three-byte control sequence names.
pub open spec fn csi_key(b: u8) -> Option<char> {
    if b == 0x41 {
        Some(NCKEY_UP)
    } else if b == 0x42 {
        Some(NCKEY_DOWN)
    } else if b == 0x43 {
        Some(NCKEY_RIGHT)
    } else if b == 0x44 {
        Some(NCKEY_LEFT)
    } else if b == 0x46 {
        Some(NCKEY_END)
    } else if b == 0x48 {
        Some(NCKEY_HOME)
    } else {
        None
    }
}

/// True of the scalars that show on the screen: no control character.
pub open spec fn printable_scalar(v: u32) -> bool {
    v >= 0x20 && !(0x7f <= v < 0xa0)
}

/// The key that one scalar stands for. The control characters below the
/// escape, but for tab, line feed and carriage return, are the letter they
/// belong to with the control modifier; so are the four above it.
pub open spec fn key_of_scalar(v: u32) -> NcEvent {
    if (1 <= v <= 0x1a && v != 9 && v != 10 && v != 13) || (0x1c <= v <= 0x1f) {
        NcEvent::Key { id: ((v + 0x40) as u8) as char, alt: false, shift: false, ctrl: true }
    } else {
        plain_key(v as char)
    }
}

/// The mouse event of a report: `code` is the button byte less 32, and holds
/// the button in its two low bits (3 for a release), then shift, alt, control
/// and motion, one bit each.
pub open spec fn mouse_event(code: u32, y: u32, x: u32) -> NcEvent {
    let low = code % 4;
    NcEvent::Mouse {
        button: if low == 3 {
            0u8
        } else {
            (low + 1) as u8
        },
        action: if (code / 32) % 2 == 1 {
            NcMouseAction::Motion
        } else if low == 3 {
            NcMouseAction::Release
        } else {
            NcMouseAction::Press
        },
        y,
        x,
        alt: (code / 8) % 2 == 1,
        shift: (code / 4) % 2 == 1,
        ctrl: (code / 16) % 2 == 1,
    }
}

/// The mouse report at the head of `s`, with its length: escape, `[`, `M`,
/// then three scalars in UTF-8: the button byte from 32, the column and the
/// row, each counted from 33.
pub open spec fn mouse_report(s: Seq<u8>) -> Option<(NcEvent, int)> {
    if s.len() >= 3 && s[0] == 0x1b && s[1] == 0x5b && s[2] == 0x4d && valid_first_scalar(
        tail_of(s, 3),
    ) {
        let b = decode_first_scalar(tail_of(s, 3));
        let at_x = 3 + length_of_first_scalar(tail_of(s, 3));
        if 32 <= b < 96 && valid_first_scalar(tail_of(s, at_x)) {
            let cx = decode_first_scalar(tail_of(s, at_x));
            let at_y = at_x + length_of_first_scalar(tail_of(s, at_x));
            if cx >= 33 && valid_first_scalar(tail_of(s, at_y)) {
                let cy = decode_first_scalar(tail_of(s, at_y));
                let end = at_y + length_of_first_scalar(tail_of(s, at_y));
                if cy >= 33 {
                    Some((mouse_event((b - 32) as u32, (cy - 33) as u32, (cx - 33) as u32), end))
                } else {
                    None
                }
            } else {
                None
            }
        } else {
            None
        }
    } else {
        None
    }
}

/// The event at the head of the non-empty input `s`, and how many bytes it
/// takes. With mouse reporting off no mouse report is looked for: its bytes
/// come out as the keys they would otherwise be.
pub open spec fn decode_event(s: Seq<u8>, mouse: bool) -> (NcEvent, int) {
    if mouse && mouse_report(s) is Some {
        mouse_report(s)->0
    } else if s.len() >= 3 && s[0] == 0x1b && s[1] == 0x5b && csi_key(s[2]) is Some {
        (plain_key(csi_key(s[2])->0), 3)
    } else if s.len() >= 2 && s[0] == 0x1b && valid_first_scalar(tail_of(s, 1))
        && printable_scalar(decode_first_scalar(tail_of(s, 1))) {
        (
            NcEvent::Key {
                id: decode_first_scalar(tail_of(s, 1)) as char,
                alt: true,
                shift: false,
                ctrl: false,
            },
            1 + length_of_first_scalar(tail_of(s, 1)),
        )
    } else if valid_first_scalar(s) {
        (key_of_scalar(decode_first_scalar(s)), length_of_first_scalar(s))
    } else {
        (plain_key(NCKEY_INVALID), 1)
    }
}

/// Every event takes a byte at least, and no more bytes than there are.
pub proof fn lemma_event_takes_bytes(s: Seq<u8>, mouse: bool)
    requires
        s.len() > 0,
    ensures
        1 <= decode_event(s, mouse).1 <= s.len(),
{
}

/// All the events of the input `s`, in order. Each event takes its bytes
/// off the input, and the next begins behind them.
pub open spec fn decode_all(s: Seq<u8>, mouse: bool) -> Seq<NcEvent>
    decreases s.len(),
{
    if s.len() == 0 {
        Seq::<NcEvent>::empty()
    } else {
        let step = decode_event(s, mouse);
        if 1 <= step.1 <= s.len() {
            seq![step.0] + decode_all(tail_of(s, step.1), mouse)
        } else {
            seq![step.0]
        }
    }
}

proof fn lemma_tail_tail(s: Seq<u8>, a: int, b: int)
    requires
        0 <= a,
        0 <= b,
        a + b <= s.len(),
    ensures
        tail_of(tail_of(s, a), b) == tail_of(s, a + b),
{
}

fn key_event(c: char) -> (e: NcEvent)
    ensures
        e == key_of_scalar(c as u32),
{
    let v: u32 = c as u32;
    if (1 <= v && v <= 0x1a && v != 9 && v != 10 && v != 13) || (0x1c <= v && v <= 0x1f) {
        NcEvent::Key { id: ((v + 0x40) as u8) as char, alt: false, shift: false, ctrl: true }
    } else {
        NcEvent::Key { id: c, alt: false, shift: false, ctrl: false }
    }
}

fn mouse_event_of(code: u32, y: u32, x: u32) -> (e: NcEvent)
    ensures
        e == mouse_event(code, y, x),
{
    let low: u32 = code % 4;
    NcEvent::Mouse {
        button: if low == 3 {
            0u8
        } else {
            (low + 1) as u8
        },
        action: if (code / 32) % 2 == 1 {
            NcMouseAction::Motion
        } else if low == 3 {
            NcMouseAction::Release
        } else {
            NcMouseAction::Press
        },
        y,
        x,
        alt: (code / 8) % 2 == 1,
        shift: (code / 4) % 2 == 1,
        ctrl: (code / 16) % 2 == 1,
    }
}

fn csi_key_of(b: u8) -> (r: Option<char>)
    ensures
        r == csi_key(b),
{
    if b == 0x41 {
        Some(NCKEY_UP)
    } else if b == 0x42 {
        Some(NCKEY_DOWN)
    } else if b == 0x43 {
        Some(NCKEY_RIGHT)
    } else if b == 0x44 {
        Some(NCKEY_LEFT)
    } else if b == 0x46 {
        Some(NCKEY_END)
    } else if b == 0x48 {
        Some(NCKEY_HOME)
    } else {
        None
    }
}

/// Reads the mouse report that starts at index `at`, if one does.
fn read_mouse_report(bytes: &[u8], at: usize) -> (r: Option<(NcEvent, usize)>)
    requires
        at < bytes@.len(),
    ensures
        r is Some <==> mouse_report(tail_of(bytes@, at as int)) is Some,
        r matches Some((e, n)) ==> mouse_report(tail_of(bytes@, at as int)) == Some((e, n as int))
            && 1 <= n && at + n <= bytes@.len(),
{
    let ghost s = tail_of(bytes@, at as int);
    let len = bytes.len();
    if len - at < 4 {
        return None;
    }
    assert(s[0] == bytes@[at as int] && s[1] == bytes@[at + 1] && s[2] == bytes@[at + 2]);
    if bytes[at] != 0x1b || bytes[at + 1] != 0x5b || bytes[at + 2] != 0x4d {
        return None;
    }
    proof {
        lemma_tail_tail(bytes@, at as int, 3);
    }
    let (cb, n1) = match decode_scalar(bytes, at + 3) {
        Some(p) => p,
        None => { return None; },
    };
    let b: u32 = cb as u32;
    let at_x: usize = 3 + n1;
    if b < 32 || b >= 96 || at + at_x >= len {
        return None;
    }
    proof {
        lemma_tail_tail(bytes@, at as int, at_x as int);
    }
    let (cx, n2) = match decode_scalar(bytes, at + at_x) {
        Some(p) => p,
        None => { return None; },
    };
    let x: u32 = cx as u32;
    let at_y: usize = at_x + n2;
    if x < 33 || at + at_y >= len {
        return None;
    }
    proof {
        lemma_tail_tail(bytes@, at as int, at_y as int);
    }
    let (cy, n3) = match decode_scalar(bytes, at + at_y) {
        Some(p) => p,
        None => { return None; },
    };
    let y: u32 = cy as u32;
    if y < 33 {
        return None;
    }
    Some((mouse_event_of(b - 32, y - 33, x - 33), at_y + n3))
}

/// Classifies the event that starts at index `at` of `bytes`, and says how
/// many bytes it takes.
pub fn read_event(bytes: &[u8], at: usize, mouse: bool) -> (r: (NcEvent, usize))
    requires
        at < bytes@.len(),
    ensures
        r.0 == decode_event(tail_of(bytes@, at as int), mouse).0,
        r.1 == decode_event(tail_of(bytes@, at as int), mouse).1,
        1 <= r.1,
        at + r.1 <= bytes@.len(),
{
    let ghost s = tail_of(bytes@, at as int);
    let len = bytes.len();
    if mouse {
        match read_mouse_report(bytes, at) {
            Some(p) => { return p; },
            None => {},
        }
    }
    assert(s[0] == bytes@[at as int]);
    if bytes[at] == 0x1b && len - at >= 2 {
        assert(s[1] == bytes@[at + 1]);
        if bytes[at + 1] == 0x5b && len - at >= 3 {
            assert(s[2] == bytes@[at + 2]);
            match csi_key_of(bytes[at + 2]) {
                Some(k) => {
                    return (NcEvent::Key { id: k, alt: false, shift: false, ctrl: false }, 3);
                },
                None => {},
            }
        }
        proof {
            lemma_tail_tail(bytes@, at as int, 1);
        }
        match decode_scalar(bytes, at + 1) {
            Some((c, n)) => {
                let v: u32 = c as u32;
                if v >= 0x20 && !(0x7f <= v && v < 0xa0) {
                    proof {
                        vstd::utf8::char_u32_cast(c, v);
                    }
                    return (NcEvent::Key { id: c, alt: true, shift: false, ctrl: false }, 1 + n);
                }
            },
            None => {},
        }
    }
    match decode_scalar(bytes, at) {
        Some((c, n)) => (key_event(c), n),
        None => (NcEvent::Key { id: NCKEY_INVALID, alt: false, shift: false, ctrl: false }, 1),
    }
}

/// Classifies every event of `bytes` and appends them to `queue`, in order.
pub fn read_events(queue: &mut Vec<NcEvent>, bytes: &[u8], mouse: bool)
    ensures
        final(queue)@ == old(queue)@ + decode_all(bytes@, mouse),
{
    let mut at: usize = 0;
    let len = bytes.len();
    assert(tail_of(bytes@, 0) =~= bytes@);
    while at < len
        invariant
            at <= len,
            len == bytes@.len(),
            old(queue)@ + decode_all(bytes@, mouse) == queue@ + decode_all(
                tail_of(bytes@, at as int),
                mouse,
            ),
        decreases len - at,
    {
        let (e, n) = read_event(bytes, at, mouse);
        proof {
            lemma_tail_tail(bytes@, at as int, n as int);
            let s = tail_of(bytes@, at as int);
            assert(queue@.push(e) + decode_all(tail_of(s, n as int), mouse) =~= queue@ + (seq![e]
                + decode_all(tail_of(s, n as int), mouse)));
        }
        queue.push(e);
        at = at + n;
    }
    assert(decode_all(tail_of(bytes@, at as int), mouse) =~= Seq::<NcEvent>::empty());
}

/// Until mouse reporting is enabled no input classifies as a mouse event.
pub proof fn lemma_no_mouse_event_while_disabled(s: Seq<u8>, i: int)
    requires
        0 <= i < decode_all(s, false).len(),
    ensures
        !(decode_all(s, false)[i] is Mouse),
    decreases s.len(),
{
    if s.len() > 0 {
        let step = decode_event(s, false);
        if 1 <= step.1 <= s.len() && i > 0 {
            lemma_no_mouse_event_while_disabled(tail_of(s, step.1), i - 1);
        }
    }
}

} // verus!
