//! The input multiplexer: one queue of classified events behind three wait
//! disciplines. It never blocks itself: where a wait is due it says so, and
//! the caller, who owns the device, waits and reports what ended the wait.

use vstd::prelude::*;
use crate::error::{NcError, NcResult};
use crate::event::{decode_all, read_events, NcEvent};
use crate::signal::{all_signals, is_signal, NcSignalSet};

verus! {

/// A span of time, in seconds and nanoseconds.
#[derive(Clone, Copy, Debug, PartialEq, Eq, Structural)]
pub struct NcTime {
    pub tv_sec: i64,
    pub tv_nsec: i64,
}

impl NcTime {
    /// The span of no time at all.
    pub fn new() -> (r: Self)
        ensures
            r == (NcTime { tv_sec: 0, tv_nsec: 0 }),
            r.spec_is_zero(),
    {
        NcTime { tv_sec: 0, tv_nsec: 0 }
    }

    /// The span in nanoseconds.
    pub open spec fn nanos(self) -> int {
        self.tv_sec * 1_000_000_000 + self.tv_nsec
    }

    /// True of a span that leaves no time to wait.
    pub open spec fn spec_is_zero(self) -> bool {
        self.nanos() <= 0
    }

    #[verifier::when_used_as_spec(spec_is_zero)]
    pub fn is_zero(self) -> (r: bool)
        ensures
            r == self.spec_is_zero(),
    {
        let total: i128 = (self.tv_sec as i128) * 1_000_000_000 + (self.tv_nsec as i128);
        total <= 0
    }
}

/// Where the multiplexer stands.
#[derive(Clone, Copy, Debug, PartialEq, Eq, Structural)]
pub enum NcInputState {
    /// Nothing is asked for.
    Idle,
    /// A wait was handed to the caller and has not been reported back.
    Waiting,
    /// The last acquisition delivered an event.
    EventReady,
    /// The last wait was ended by a signal.
    SignalInterrupted,
}

/// The wait that the caller is to perform: block on the input source for at
/// most `timeout` (without bound where there is none), with the signals of
/// `mask` blocked from the moment the wait begins, as one step.
#[derive(Clone, Copy, Debug)]
pub struct NcWaitRequest {
    pub timeout: Option<NcTime>,
    pub mask: NcSignalSet,
}

pub struct NcWaitView {
    pub timeout: Option<NcTime>,
    pub mask: Set<int>,
}

impl View for NcWaitRequest {
    type V = NcWaitView;

    open spec fn view(&self) -> NcWaitView {
        NcWaitView { timeout: self.timeout, mask: self.mask@ }
    }
}

/// What an acquisition came to.
#[derive(Clone, Copy, Debug)]
pub enum NcAcquired {
    /// This event was taken off the queue.
    Event(NcEvent),
    /// Nothing happened, and no wait is due.
    NoEvent,
    /// A signal ended the wait.
    Interrupted(u8),
    /// Nothing is queued: the caller is to wait as described and report back.
    Block(NcWaitRequest),
}

pub enum NcAcquiredView {
    Event(NcEvent),
    NoEvent,
    Interrupted(u8),
    Block(NcWaitView),
}

impl View for NcAcquired {
    type V = NcAcquiredView;

    open spec fn view(&self) -> NcAcquiredView {
        match *self {
            NcAcquired::Event(e) => NcAcquiredView::Event(e),
            NcAcquired::NoEvent => NcAcquiredView::NoEvent,
            NcAcquired::Interrupted(s) => NcAcquiredView::Interrupted(s),
            NcAcquired::Block(w) => NcAcquiredView::Block(w@),
        }
    }
}

/// How a wait ended.
#[derive(Debug)]
pub enum NcWaitOutcome {
    /// The source became readable, and these bytes were read from it.
    Readable(Vec<u8>),
    /// The time ran out.
    Expired,
    /// This signal was delivered.
    Signal(u8),
    /// The source is gone.
    Closed,
}

pub enum NcWaitOutcomeView {
    Readable(Seq<u8>),
    Expired,
    Signal(u8),
    Closed,
}

impl View for NcWaitOutcome {
    type V = NcWaitOutcomeView;

    open spec fn view(&self) -> NcWaitOutcomeView {
        match *self {
            NcWaitOutcome::Readable(b) => NcWaitOutcomeView::Readable(b@),
            NcWaitOutcome::Expired => NcWaitOutcomeView::Expired,
            NcWaitOutcome::Signal(s) => NcWaitOutcomeView::Signal(s),
            NcWaitOutcome::Closed => NcWaitOutcomeView::Closed,
        }
    }
}

/// The multiplexer as a value.
pub struct NcInputView {
    pub state: NcInputState,
    /// The events not yet delivered, oldest first.
    pub queue: Seq<NcEvent>,
    /// Whether mouse reports are classified.
    pub mouse: bool,
    /// Whether the source can still be read.
    pub open: bool,
    /// How many events were delivered.
    pub delivered: u64,
    /// The signals that no wait ever blocks.
    pub observed: Set<int>,
    /// The wait in progress, where the state is `Waiting`.
    pub wait: NcWaitView,
}

/// The number of the next delivery; it stays at the largest number.
pub open spec fn next_seqnum(n: u64) -> u64 {
    if n < u64::MAX {
        (n + 1) as u64
    } else {
        n
    }
}

/// The signals that a wait blocks: those asked for (all, where none are
/// named) less the observed ones.
pub open spec fn effective_mask(v: NcInputView, sigmask: Option<Set<int>>) -> Set<int> {
    match sigmask {
        Some(m) => m.difference(v.observed),
        None => all_signals().difference(v.observed),
    }
}

/// Takes the oldest event off the queue.
pub open spec fn deliver(v: NcInputView) -> (NcInputView, NcResult<NcAcquiredView>) {
    (
        NcInputView {
            state: NcInputState::EventReady,
            queue: v.queue.drop_first(),
            delivered: next_seqnum(v.delivered),
            ..v
        },
        Ok(NcAcquiredView::Event(v.queue[0])),
    )
}

/// Nothing to report: a wait in progress goes on, and otherwise there is no event.
pub open spec fn nothing_happened(v: NcInputView) -> (NcInputView, NcResult<NcAcquiredView>) {
    if v.state == NcInputState::Waiting {
        (v, Ok(NcAcquiredView::Block(v.wait)))
    } else {
        (NcInputView { state: NcInputState::Idle, ..v }, Ok(NcAcquiredView::NoEvent))
    }
}

/// One acquisition. A queued event is delivered whatever the discipline. With
/// none queued: a closed source is an error; a time that leaves nothing to
/// wait for gives no event; any other time, or none, asks the caller to wait.
pub open spec fn acquire_step(v: NcInputView, time: Option<NcTime>, sigmask: Option<Set<int>>) -> (
    NcInputView,
    NcResult<NcAcquiredView>,
) {
    if v.queue.len() > 0 {
        deliver(v)
    } else if !v.open {
        (NcInputView { state: NcInputState::Idle, ..v }, Err(NcError::InputError))
    } else if time is Some && time->0.spec_is_zero() {
        (NcInputView { state: NcInputState::Idle, ..v }, Ok(NcAcquiredView::NoEvent))
    } else {
        let wait = NcWaitView { timeout: time, mask: effective_mask(v, sigmask) };
        (
            NcInputView { state: NcInputState::Waiting, wait, ..v },
            Ok(NcAcquiredView::Block(wait)),
        )
    }
}

/// The end of a wait. Bytes are classified and queued, and the oldest event
/// is delivered. A signal interrupts unless the wait in progress blocks it.
/// An expiry ends a bounded wait with no event. What can end nothing (no
/// bytes, the expiry of an unbounded wait, a blocked signal, a number that
/// names no signal) leaves a wait in progress as it is.
pub open spec fn resume_step(v: NcInputView, outcome: NcWaitOutcomeView) -> (
    NcInputView,
    NcResult<NcAcquiredView>,
) {
    match outcome {
        NcWaitOutcomeView::Readable(bytes) => {
            let fed = NcInputView { queue: v.queue + decode_all(bytes, v.mouse), ..v };
            if fed.queue.len() > 0 {
                deliver(fed)
            } else {
                nothing_happened(fed)
            }
        },
        NcWaitOutcomeView::Expired => {
            if v.state == NcInputState::Waiting && v.wait.timeout is None {
                nothing_happened(v)
            } else {
                (NcInputView { state: NcInputState::Idle, ..v }, Ok(NcAcquiredView::NoEvent))
            }
        },
        NcWaitOutcomeView::Signal(s) => {
            if is_signal(s as int) && !(v.state == NcInputState::Waiting && v.wait.mask.contains(
                s as int,
            )) {
                (
                    NcInputView { state: NcInputState::SignalInterrupted, ..v },
                    Ok(NcAcquiredView::Interrupted(s)),
                )
            } else {
                nothing_happened(v)
            }
        },
        NcWaitOutcomeView::Closed => {
            (
                NcInputView { state: NcInputState::Idle, open: false, ..v },
                Err(NcError::InputError),
            )
        },
    }
}

/// A poll never asks for a wait: with a time of zero the acquisition ends at
/// once, with the oldest event, with no event, or with the error of a closed
/// source.
pub proof fn lemma_poll_never_blocks(v: NcInputView, time: NcTime, sigmask: Option<Set<int>>)
    requires
        time.spec_is_zero(),
    ensures
        !(acquire_step(v, Some(time), sigmask).1 matches Ok(NcAcquiredView::Block(_))),
        acquire_step(v, Some(time), sigmask).0.state != NcInputState::Waiting,
        v.queue.len() == 0 && v.open ==> acquire_step(v, Some(time), sigmask) == (
            NcInputView { state: NcInputState::Idle, ..v },
            Ok::<NcAcquiredView, NcError>(NcAcquiredView::NoEvent),
        ),
{
}

/// No wait blocks a signal that is always observed.
pub proof fn lemma_observed_never_blocked(
    v: NcInputView,
    time: Option<NcTime>,
    sigmask: Option<Set<int>>,
    signo: int,
)
    requires
        v.observed.contains(signo),
    ensures
        acquire_step(v, time, sigmask).1 matches Ok(NcAcquiredView::Block(w)) ==> !w.mask.contains(
            signo,
        ),
{
}

/// A signal that the wait in progress blocks does not end it, and every
/// other signal does: the outcome is an interruption exactly for a number
/// that names a signal the wait does not block.
pub proof fn lemma_blocked_signal_never_interrupts(v: NcInputView, signo: u8)
    ensures
        resume_step(v, NcWaitOutcomeView::Signal(signo)).1 is Ok,
        resume_step(v, NcWaitOutcomeView::Signal(signo)).1->Ok_0 is Interrupted <==> is_signal(
            signo as int,
        ) && !(v.state == NcInputState::Waiting && v.wait.mask.contains(signo as int)),
        resume_step(v, NcWaitOutcomeView::Signal(signo)).1->Ok_0 is Interrupted ==> resume_step(
            v,
            NcWaitOutcomeView::Signal(signo),
        ).0.state == NcInputState::SignalInterrupted,
{
}

/// Whether the outcome `r` is `s`, taken by its view.
pub open spec fn same_result(r: NcResult<NcAcquired>, s: NcResult<NcAcquiredView>) -> bool {
    match r {
        Ok(a) => s == Ok::<NcAcquiredView, NcError>(a@),
        Err(e) => s == Err::<NcAcquiredView, NcError>(e),
    }
}

/// The input multiplexer.
#[derive(Debug)]
pub struct NcInputMux {
    state: NcInputState,
    queue: Vec<NcEvent>,
    mouse: bool,
    open: bool,
    delivered: u64,
    observed: NcSignalSet,
    wait: NcWaitRequest,
}

impl View for NcInputMux {
    type V = NcInputView;

    closed spec fn view(&self) -> NcInputView {
        NcInputView {
            state: self.state,
            queue: self.queue@,
            mouse: self.mouse,
            open: self.open,
            delivered: self.delivered,
            observed: self.observed@,
            wait: self.wait@,
        }
    }
}

impl NcInputMux {
    /// An idle multiplexer on an open source, with nothing queued and mouse
    /// reporting off. No wait will block the signals of `observed`.
    pub fn new(observed: NcSignalSet) -> (r: Self)
        ensures
            r@.state == NcInputState::Idle,
            r@.queue == Seq::<NcEvent>::empty(),
            !r@.mouse,
            r@.open,
            r@.delivered == 0,
            r@.observed == observed@,
    {
        NcInputMux {
            state: NcInputState::Idle,
            queue: Vec::new(),
            mouse: false,
            open: true,
            delivered: 0,
            observed,
            wait: NcWaitRequest { timeout: None, mask: NcSignalSet::new() },
        }
    }

    pub fn state(&self) -> (r: NcInputState)
        ensures
            r == self@.state,
    {
        self.state
    }

    /// How many events are queued.
    pub fn pending(&self) -> (r: usize)
        ensures
            r == self@.queue.len(),
    {
        self.queue.len()
    }

    pub fn mouse_enabled(&self) -> (r: bool)
        ensures
            r == self@.mouse,
    {
        self.mouse
    }

    pub fn is_open(&self) -> (r: bool)
        ensures
            r == self@.open,
    {
        self.open
    }

    /// How many events were delivered so far.
    pub fn delivered(&self) -> (r: u64)
        ensures
            r == self@.delivered,
    {
        self.delivered
    }

    /// Turns the classification of mouse reports on or off. Events already
    /// queued stay as they are.
    pub fn set_mouse(&mut self, on: bool)
        ensures
            final(self)@ == (NcInputView { mouse: on, ..old(self)@ }),
    {
        self.mouse = on;
    }

    /// Marks the source as gone. What is queued can still be delivered.
    pub fn close(&mut self)
        ensures
            final(self)@ == (NcInputView { open: false, ..old(self)@ }),
    {
        self.open = false;
    }

    /// Classifies raw bytes from the source and queues their events.
    pub fn feed(&mut self, bytes: &[u8])
        ensures
            final(self)@ == (NcInputView {
                queue: old(self)@.queue + decode_all(bytes@, old(self)@.mouse),
                ..old(self)@
            }),
    {
        read_events(&mut self.queue, bytes, self.mouse);
    }

    /// Queues an event that did not come from the source's bytes: a resize,
    /// or a signal caught between two waits.
    pub fn inject(&mut self, event: NcEvent)
        ensures
            final(self)@ == (NcInputView { queue: old(self)@.queue.push(event), ..old(self)@ }),
    {
        self.queue.push(event);
    }

    fn pop(&mut self) -> (e: NcEvent)
        requires
            old(self)@.queue.len() > 0,
        ensures
            (final(self)@, Ok::<NcAcquiredView, NcError>(NcAcquiredView::Event(e))) == deliver(
                old(self)@,
            ),
    {
        let e = self.queue.remove(0);
        if self.delivered < u64::MAX {
            self.delivered = self.delivered + 1;
        }
        self.state = NcInputState::EventReady;
        e
    }

    fn idle_or_waiting(&mut self) -> (r: NcAcquired)
        ensures
            (final(self)@, Ok::<NcAcquiredView, NcError>(r@)) == nothing_happened(old(self)@),
    {
        match self.state {
            NcInputState::Waiting => NcAcquired::Block(self.wait),
            _ => {
                self.state = NcInputState::Idle;
                NcAcquired::NoEvent
            },
        }
    }

    /// Acquires the next event: see `acquire_step`. The time chooses the
    /// discipline: none to block at length, zero to poll, any other to bound
    /// the wait.
    pub fn acquire(&mut self, time: Option<NcTime>, sigmask: Option<&NcSignalSet>) -> (r: NcResult<
        NcAcquired,
    >)
        ensures
            final(self)@ == acquire_step(
                old(self)@,
                time,
                match sigmask {
                    Some(m) => Some(m@),
                    None => None,
                },
            ).0,
            same_result(
                r,
                acquire_step(
                    old(self)@,
                    time,
                    match sigmask {
                        Some(m) => Some(m@),
                        None => None,
                    },
                ).1,
            ),
    {
        if self.queue.len() > 0 {
            return Ok(NcAcquired::Event(self.pop()));
        }
        if !self.open {
            self.state = NcInputState::Idle;
            return Err(NcError::InputError);
        }
        let poll = match time {
            Some(t) => t.is_zero(),
            None => false,
        };
        if poll {
            self.state = NcInputState::Idle;
            return Ok(NcAcquired::NoEvent);
        }
        let mask = match sigmask {
            Some(m) => m.without(&self.observed),
            None => NcSignalSet::full().without(&self.observed),
        };
        let wait = NcWaitRequest { timeout: time, mask };
        self.wait = wait;
        self.state = NcInputState::Waiting;
        Ok(NcAcquired::Block(wait))
    }

    /// Takes the report of how a wait ended: see `resume_step`.
    pub fn resume(&mut self, outcome: NcWaitOutcome) -> (r: NcResult<NcAcquired>)
        ensures
            final(self)@ == resume_step(old(self)@, outcome@).0,
            same_result(r, resume_step(old(self)@, outcome@).1),
    {
        match outcome {
            NcWaitOutcome::Readable(bytes) => {
                self.feed(bytes.as_slice());
                if self.queue.len() > 0 {
                    Ok(NcAcquired::Event(self.pop()))
                } else {
                    Ok(self.idle_or_waiting())
                }
            },
            NcWaitOutcome::Expired => {
                let unbounded = match self.wait.timeout {
                    None => true,
                    Some(_) => false,
                };
                let waiting = match self.state {
                    NcInputState::Waiting => true,
                    _ => false,
                };
                if waiting && unbounded {
                    Ok(self.idle_or_waiting())
                } else {
                    self.state = NcInputState::Idle;
                    Ok(NcAcquired::NoEvent)
                }
            },
            NcWaitOutcome::Signal(s) => {
                let waiting = match self.state {
                    NcInputState::Waiting => true,
                    _ => false,
                };
                if 1 <= s && s <= 64 && !(waiting && self.wait.mask.ismember(s)) {
                    self.state = NcInputState::SignalInterrupted;
                    Ok(NcAcquired::Interrupted(s))
                } else {
                    Ok(self.idle_or_waiting())
                }
            },
            NcWaitOutcome::Closed => {
                self.state = NcInputState::Idle;
                self.open = false;
                Err(NcError::InputError)
            },
        }
    }
}

} // verus!
