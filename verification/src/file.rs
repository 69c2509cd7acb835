//! The writeout sink: where rasterized bytes go.
//!
//! An `NcFile` stands for the device or file behind it: it takes bytes while
//! it is open and keeps them until the caller, who owns the real handle,
//! takes them out and writes them. The caller closes it when the handle
//! fails.

use vstd::prelude::*;
use crate::codec::push_bytes;
use crate::error::{NcError, NcResult};

verus! {

/// A sink as a value.
pub struct NcFileView {
    pub open: bool,
    /// The bytes taken in and not yet taken out.
    pub data: Seq<u8>,
}

/// A sink of bytes.
#[derive(Debug)]
pub struct NcFile {
    open: bool,
    data: Vec<u8>,
}

impl View for NcFile {
    type V = NcFileView;

    closed spec fn view(&self) -> NcFileView {
        NcFileView { open: self.open, data: self.data@ }
    }
}

impl NcFile {
    /// An open sink that holds nothing.
    pub fn new() -> (f: Self)
        ensures
            f@ == (NcFileView { open: true, data: Seq::empty() }),
    {
        NcFile { open: true, data: Vec::new() }
    }

    pub fn is_open(&self) -> (r: bool)
        ensures
            r == self@.open,
    {
        self.open
    }

    /// How many bytes wait to be taken out.
    pub fn len(&self) -> (n: usize)
        ensures
            n == self@.data.len(),
    {
        self.data.len()
    }

    /// The bytes that wait to be taken out.
    pub fn bytes(&self) -> (b: &Vec<u8>)
        ensures
            b@ == self@.data,
    {
        &self.data
    }

    /// Closes the sink: it takes no more bytes. What it holds stays.
    pub fn close(&mut self)
        ensures
            final(self)@ == (NcFileView { open: false, ..old(self)@ }),
    {
        self.open = false;
    }

    /// Takes out the bytes that the sink holds.
    pub fn take(&mut self) -> (b: Vec<u8>)
        ensures
            b@ == old(self)@.data,
            final(self)@ == (NcFileView { data: Seq::empty(), ..old(self)@ }),
    {
        let mut b: Vec<u8> = Vec::new();
        core::mem::swap(&mut b, &mut self.data);
        b
    }

    /// Writes bytes to the sink, all of them or none: `WriteoutError`, and
    /// no change, where the sink is closed.
    pub fn write(&mut self, bytes: &[u8]) -> (r: NcResult<()>)
        ensures
            r is Ok <==> old(self)@.open,
            r is Ok ==> final(self)@ == (NcFileView {
                data: old(self)@.data + bytes@,
                ..old(self)@
            }),
            r is Err ==> r == Err::<(), NcError>(NcError::WriteoutError) && final(self)@ == old(self)@,
    {
        if !self.open {
            return Err(NcError::WriteoutError);
        }
        push_bytes(&mut self.data, bytes);
        Ok(())
    }
}

/// Writeout to a device: see `NcFile::write`.
pub fn writeout(sink: &mut NcFile, bytes: &[u8]) -> (r: NcResult<()>)
    ensures
        r is Ok <==> old(sink)@.open,
        r is Ok ==> final(sink)@ == (NcFileView { data: old(sink)@.data + bytes@, ..old(sink)@ }),
        r is Err ==> r == Err::<(), NcError>(NcError::WriteoutError) && final(sink)@ == old(sink)@,
{
    sink.write(bytes)
}

/// Writeout to a buffer of the caller's, for writing later: the bytes are
/// appended, and the result is the buffer's new length.
pub fn writeout_to_buffer(buffer: &mut Vec<u8>, bytes: &[u8]) -> (n: usize)
    ensures
        final(buffer)@ == old(buffer)@ + bytes@,
        n == final(buffer)@.len(),
{
    push_bytes(buffer, bytes);
    buffer.len()
}

} // verus!
