//! Direct mode: colours and input without planes or rendering.

use vstd::prelude::*;
use crate::caps::NcCapabilities;
use crate::cell::{NcColor, NcInk, NcRgb};
use crate::error::{NcError, NcIntResult, NcResult, NCRESULT_ERR, NCRESULT_OK};
use crate::event::NcInput;
use crate::file::{NcFile, NcFileView};
use crate::input::{
    acquire_step, resume_step, same_result, NcAcquired, NcInputMux, NcInputState, NcInputView,
    NcTime, NcWaitOutcome,
};
use crate::notcurses::{mask_view, NcTerminal};
use crate::signal::{all_signals, NcSignalSet};
use crate::vt::{ink_bytes, push_ink};

verus! {

/// The 24-bit colour of three components.
pub open spec fn rgb_of(red: NcColor, green: NcColor, blue: NcColor) -> NcRgb {
    (red * 65536 + green * 256 + blue) as NcRgb
}

/// The red component of a 24-bit colour.
pub open spec fn red_of(rgb: NcRgb) -> NcColor {
    ((rgb / 65536) % 256) as NcColor
}

/// The green component of a 24-bit colour.
pub open spec fn green_of(rgb: NcRgb) -> NcColor {
    ((rgb / 256) % 256) as NcColor
}

/// The blue component of a 24-bit colour.
pub open spec fn blue_of(rgb: NcRgb) -> NcColor {
    (rgb % 256) as NcColor
}

/// Packs three components into a 24-bit colour.
pub fn rgb_pack(red: NcColor, green: NcColor, blue: NcColor) -> (rgb: NcRgb)
    ensures
        rgb == rgb_of(red, green, blue),
        rgb <= 0xff_ffff,
        red_of(rgb) == red,
        green_of(rgb) == green,
        blue_of(rgb) == blue,
{
    let rgb: NcRgb = (red as NcRgb) << 16 | (green as NcRgb) << 8 | blue as NcRgb;
    assert(rgb == red * 65536 + green * 256 + blue) by (bit_vector)
        requires
            rgb == (red as u32) << 16 | (green as u32) << 8 | blue as u32,
    ;
    rgb
}

/// The components of a 24-bit colour.
pub fn rgb_unpack(rgb: NcRgb) -> (c: (NcColor, NcColor, NcColor))
    ensures
        c == (red_of(rgb), green_of(rgb), blue_of(rgb)),
{
    (((rgb / 65536) % 256) as u8, ((rgb / 256) % 256) as u8, (rgb % 256) as u8)
}

/// A direct-mode context as a value.
pub struct NcDirectView {
    pub active: bool,
    pub caps: NcCapabilities,
    pub sink: NcFileView,
    pub input: NcInputView,
    /// The colours that are active on the terminal.
    pub fg: NcInk,
    pub bg: NcInk,
}

/// A direct-mode context.
#[derive(Debug)]
pub struct NcDirect {
    active: bool,
    caps: NcCapabilities,
    sink: NcFile,
    input: NcInputMux,
    fg: NcInk,
    bg: NcInk,
}

impl View for NcDirect {
    type V = NcDirectView;

    closed spec fn view(&self) -> NcDirectView {
        NcDirectView {
            active: self.active,
            caps: self.caps,
            sink: self.sink@,
            input: self.input@,
            fg: self.fg,
            bg: self.bg,
        }
    }
}

/// Why a colour cannot be set, if it cannot: the context is stopped, the
/// number is no 24-bit colour, the terminal has no such colours, or the sink
/// is closed.
pub open spec fn rgb_refused(v: NcDirectView, rgb: NcRgb) -> Option<NcError> {
    if !v.active {
        Some(NcError::LifecycleError)
    } else if rgb > 0xff_ffff {
        Some(NcError::GeometryError)
    } else if !v.caps.truecolor {
        Some(NcError::CapabilityError)
    } else if !v.sink.open {
        Some(NcError::WriteoutError)
    } else {
        None
    }
}

/// The colour that a 24-bit number names.
pub open spec fn ink_of(rgb: NcRgb) -> NcInk {
    NcInk::Rgb { r: red_of(rgb), g: green_of(rgb), b: blue_of(rgb) }
}

impl NcDirect {
    /// Starts direct mode on the terminal that `term` describes, with the
    /// default colours active. `LifecycleError` where a context runs on the
    /// terminal already.
    pub fn new(term: NcTerminal) -> (r: NcResult<NcDirect>)
        ensures
            r is Ok <==> !term.in_use,
            r is Err ==> r->Err_0 == NcError::LifecycleError,
            r matches Ok(d) ==> {
                &&& d@.active
                &&& d@.caps == term.caps
                &&& d@.sink == (NcFileView { open: true, data: Seq::empty() })
                &&& d@.input.state == NcInputState::Idle
                &&& d@.input.queue.len() == 0
                &&& !d@.input.mouse
                &&& d@.input.open
                &&& d@.input.delivered == 0
                &&& d@.input.observed == Set::<int>::empty()
                &&& d@.fg == NcInk::Default
                &&& d@.bg == NcInk::Default
            },
    {
        if term.in_use {
            return Err(NcError::LifecycleError);
        }
        Ok(
            NcDirect {
                active: true,
                caps: term.caps,
                sink: NcFile::new(),
                input: NcInputMux::new(NcSignalSet::new()),
                fg: NcInk::Default,
                bg: NcInk::Default,
            },
        )
    }

    pub fn is_active(&self) -> (r: bool)
        ensures
            r == self@.active,
    {
        self.active
    }

    /// Stops direct mode. `LifecycleError`, and no change, where it is
    /// stopped already.
    pub fn stop(&mut self) -> (r: NcResult<()>)
        ensures
            r is Ok <==> old(self)@.active,
            r is Err ==> r->Err_0 == NcError::LifecycleError && final(self)@ == old(self)@,
            r is Ok ==> final(self)@ == (NcDirectView { active: false, ..old(self)@ }),
    {
        if !self.active {
            return Err(NcError::LifecycleError);
        }
        self.active = false;
        Ok(())
    }

    /// Classifies bytes read from the input source and queues their events.
    pub fn feed(&mut self, bytes: &[u8])
        ensures
            final(self)@ == (NcDirectView {
                input: NcInputView {
                    queue: old(self)@.input.queue + crate::event::decode_all(
                        bytes@,
                        old(self)@.input.mouse,
                    ),
                    ..old(self)@.input
                },
                ..old(self)@
            }),
    {
        self.input.feed(bytes);
    }

    /// Takes out the bytes that wait in the sink.
    pub fn take_output(&mut self) -> (bytes: Vec<u8>)
        ensures
            bytes@ == old(self)@.sink.data,
            final(self)@ == (NcDirectView {
                sink: NcFileView { data: Seq::empty(), ..old(self)@.sink },
                ..old(self)@
            }),
    {
        self.sink.take()
    }

    /// Closes the sink.
    pub fn close_output(&mut self)
        ensures
            final(self)@ == (NcDirectView {
                sink: NcFileView { open: false, ..old(self)@.sink },
                ..old(self)@
            }),
    {
        self.sink.close();
    }
}

/// Acquires the next input event in direct mode: see `Notcurses::getc`.
pub fn ncdirect_getc(
    ncd: &mut NcDirect,
    time: Option<NcTime>,
    sigmask: Option<&NcSignalSet>,
    input: Option<&mut NcInput>,
) -> (r: NcResult<NcAcquired>)
    ensures
        !old(ncd)@.active ==> r is Err && r->Err_0 == NcError::LifecycleError && final(ncd)@
            == old(ncd)@,
        old(ncd)@.active ==> {
            &&& final(ncd)@ == (NcDirectView {
                input: acquire_step(old(ncd)@.input, time, mask_view(sigmask)).0,
                ..old(ncd)@
            })
            &&& same_result(r, acquire_step(old(ncd)@.input, time, mask_view(sigmask)).1)
        },
        input matches Some(i) ==> *final(i) == match r {
            Ok(NcAcquired::Event(e)) => e.spec_details(final(ncd)@.input.delivered),
            _ => *i,
        },
{
    if !ncd.active {
        return Err(NcError::LifecycleError);
    }
    let r = ncd.input.acquire(time, sigmask);
    match input {
        Some(i) => {
            match &r {
                Ok(NcAcquired::Event(e)) => {
                    *i = e.details(ncd.input.delivered());
                },
                _ => {},
            }
        },
        None => {},
    }
    r
}

/// Takes the report of how a wait ended in direct mode: see
/// `Notcurses::getc_resume`.
pub fn ncdirect_getc_resume(
    ncd: &mut NcDirect,
    outcome: NcWaitOutcome,
    input: Option<&mut NcInput>,
) -> (r: NcResult<NcAcquired>)
    ensures
        !old(ncd)@.active ==> r is Err && r->Err_0 == NcError::LifecycleError && final(ncd)@
            == old(ncd)@,
        old(ncd)@.active ==> {
            &&& final(ncd)@ == (NcDirectView {
                input: resume_step(old(ncd)@.input, outcome@).0,
                ..old(ncd)@
            })
            &&& same_result(r, resume_step(old(ncd)@.input, outcome@).1)
        },
        input matches Some(i) ==> *final(i) == match r {
            Ok(NcAcquired::Event(e)) => e.spec_details(final(ncd)@.input.delivered),
            _ => *i,
        },
{
    if !ncd.active {
        return Err(NcError::LifecycleError);
    }
    let r = ncd.input.resume(outcome);
    match input {
        Some(i) => {
            match &r {
                Ok(NcAcquired::Event(e)) => {
                    *i = e.details(ncd.input.delivered());
                },
                _ => {},
            }
        },
        None => {},
    }
    r
}

/// Polls for input in direct mode: the identifier of the next event, whose
/// details are written to `input`, or the null character where none is
/// ready. All signals are named and the time is zero, so no wait is due.
pub fn ncdirect_getc_nblock(nc: &mut NcDirect, input: &mut NcInput) -> (r: NcResult<char>)
    ensures
        !old(nc)@.active ==> r is Err && r->Err_0 == NcError::LifecycleError && final(nc)@
            == old(nc)@ && *final(input) == *old(input),
        old(nc)@.active ==> {
            &&& final(nc)@ == (NcDirectView {
                input: acquire_step(
                    old(nc)@.input,
                    Some(NcTime { tv_sec: 0, tv_nsec: 0 }),
                    Some(all_signals()),
                ).0,
                ..old(nc)@
            })
            &&& if old(nc)@.input.queue.len() > 0 {
                &&& r is Ok
                &&& r->Ok_0 == old(nc)@.input.queue[0].spec_id()
                &&& *final(input) == old(nc)@.input.queue[0].spec_details(
                    final(nc)@.input.delivered,
                )
            } else {
                &&& *final(input) == *old(input)
                &&& if old(nc)@.input.open {
                    r is Ok && r->Ok_0 == '\0'
                } else {
                    r is Err && r->Err_0 == NcError::InputError
                }
            }
        },
{
    let mut sigmask = NcSignalSet::new();
    sigmask.fillset();
    let ts = NcTime::new();
    match ncdirect_getc(nc, Some(ts), Some(&sigmask), Some(input)) {
        Ok(NcAcquired::Event(e)) => Ok(e.id()),
        Ok(_) => Ok('\0'),
        Err(e) => Err(e),
    }
}

/// Asks for input in direct mode without a bound on the wait: the next
/// event where one is queued, and else the wait that the caller is to
/// perform, with no signal blocked.
pub fn ncdirect_getc_nblocking(nc: &mut NcDirect, input: &mut NcInput) -> (r: NcResult<NcAcquired>)
    ensures
        !old(nc)@.active ==> r is Err && r->Err_0 == NcError::LifecycleError && final(nc)@
            == old(nc)@,
        old(nc)@.active ==> {
            &&& final(nc)@ == (NcDirectView {
                input: acquire_step(old(nc)@.input, None, Some(Set::<int>::empty())).0,
                ..old(nc)@
            })
            &&& same_result(r, acquire_step(old(nc)@.input, None, Some(Set::<int>::empty())).1)
        },
        *final(input) == match r {
            Ok(NcAcquired::Event(e)) => e.spec_details(final(nc)@.input.delivered),
            _ => *old(input),
        },
{
    let mut sigmask = NcSignalSet::new();
    sigmask.emptyset();
    ncdirect_getc(nc, None, Some(&sigmask), Some(input))
}

/// Sets the foreground to a 24-bit colour, at once: the bytes that select
/// it go to the sink. The result is `NCRESULT_OK`, or `NCRESULT_ERR` and no
/// change where `rgb_refused` gives a reason.
pub fn ncdirect_set_fg_rgb(ncd: &mut NcDirect, rgb: NcRgb) -> (r: NcIntResult)
    ensures
        match rgb_refused(old(ncd)@, rgb) {
            Some(_) => r == NCRESULT_ERR && final(ncd)@ == old(ncd)@,
            None => r == NCRESULT_OK && final(ncd)@ == (NcDirectView {
                fg: ink_of(rgb),
                sink: NcFileView {
                    data: old(ncd)@.sink.data + ink_bytes(ink_of(rgb), 0x33),
                    ..old(ncd)@.sink
                },
                ..old(ncd)@
            }),
        },
{
    if !ncd.active || rgb > 0xff_ffff || !ncd.caps.truecolor || !ncd.sink.is_open() {
        return NCRESULT_ERR;
    }
    let (r, g, b) = rgb_unpack(rgb);
    let ink = NcInk::Rgb { r, g, b };
    let mut bytes: Vec<u8> = Vec::new();
    push_ink(&mut bytes, ink, 0x33);
    assert(bytes@ =~= ink_bytes(ink, 0x33));
    let _ = ncd.sink.write(bytes.as_slice());
    ncd.fg = ink;
    NCRESULT_OK
}

/// Sets the background to a 24-bit colour: see `ncdirect_set_fg_rgb`.
pub fn ncdirect_set_bg_rgb(ncd: &mut NcDirect, rgb: NcRgb) -> (r: NcIntResult)
    ensures
        match rgb_refused(old(ncd)@, rgb) {
            Some(_) => r == NCRESULT_ERR && final(ncd)@ == old(ncd)@,
            None => r == NCRESULT_OK && final(ncd)@ == (NcDirectView {
                bg: ink_of(rgb),
                sink: NcFileView {
                    data: old(ncd)@.sink.data + ink_bytes(ink_of(rgb), 0x34),
                    ..old(ncd)@.sink
                },
                ..old(ncd)@
            }),
        },
{
    if !ncd.active || rgb > 0xff_ffff || !ncd.caps.truecolor || !ncd.sink.is_open() {
        return NCRESULT_ERR;
    }
    let (r, g, b) = rgb_unpack(rgb);
    let ink = NcInk::Rgb { r, g, b };
    let mut bytes: Vec<u8> = Vec::new();
    push_ink(&mut bytes, ink, 0x34);
    assert(bytes@ =~= ink_bytes(ink, 0x34));
    let _ = ncd.sink.write(bytes.as_slice());
    ncd.bg = ink;
    NCRESULT_OK
}

/// Sets the foreground by its components: they are packed into one number,
/// red above green above blue, and set as `ncdirect_set_fg_rgb` does.
pub fn ncdirect_set_fg_rgb8(ncd: &mut NcDirect, red: NcColor, green: NcColor, blue: NcColor) -> (r:
    NcIntResult)
    ensures
        match rgb_refused(old(ncd)@, rgb_of(red, green, blue)) {
            Some(_) => r == NCRESULT_ERR && final(ncd)@ == old(ncd)@,
            None => r == NCRESULT_OK && final(ncd)@ == (NcDirectView {
                fg: NcInk::Rgb { r: red, g: green, b: blue },
                sink: NcFileView {
                    data: old(ncd)@.sink.data + ink_bytes(
                        NcInk::Rgb { r: red, g: green, b: blue },
                        0x33,
                    ),
                    ..old(ncd)@.sink
                },
                ..old(ncd)@
            }),
        },
{
    let rgb = rgb_pack(red, green, blue);
    ncdirect_set_fg_rgb(ncd, rgb)
}

/// Sets the background by its components: see `ncdirect_set_fg_rgb8`.
pub fn ncdirect_set_bg_rgb8(ncd: &mut NcDirect, red: NcColor, green: NcColor, blue: NcColor) -> (r:
    NcIntResult)
    ensures
        match rgb_refused(old(ncd)@, rgb_of(red, green, blue)) {
            Some(_) => r == NCRESULT_ERR && final(ncd)@ == old(ncd)@,
            None => r == NCRESULT_OK && final(ncd)@ == (NcDirectView {
                bg: NcInk::Rgb { r: red, g: green, b: blue },
                sink: NcFileView {
                    data: old(ncd)@.sink.data + ink_bytes(
                        NcInk::Rgb { r: red, g: green, b: blue },
                        0x34,
                    ),
                    ..old(ncd)@.sink
                },
                ..old(ncd)@
            }),
        },
{
    let rgb = rgb_pack(red, green, blue);
    ncdirect_set_bg_rgb(ncd, rgb)
}

} // verus!
