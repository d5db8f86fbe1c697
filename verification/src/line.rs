//! Assembly of newline-terminated lines from a byte stream.
//!
//! Every protocol message is one line: the bytes up to and excluding a single
//! `\n` (byte value 10). The embedding program reads bytes from a connection
//! one at a time and feeds them here; when the terminator arrives the
//! accumulated line can be taken out and the buffer starts over.

use vstd::prelude::*;

verus! {

/// The line terminator: `\n`.
pub const LINE_TERMINATOR: u8 = 10;

/// Accumulates the bytes of one line, up to and excluding the terminator.
pub struct LineBuffer {
    bytes: Vec<u8>,
}

impl View for LineBuffer {
    type V = Seq<u8>;

    closed spec fn view(&self) -> Seq<u8> {
        self.bytes@
    }
}

impl LineBuffer {
    /// An empty buffer, ready to accumulate a line.
    pub fn new() -> (r: LineBuffer)
        ensures
            r@ == Seq::<u8>::empty(),
    {
        LineBuffer { bytes: Vec::new() }
    }

    /// Feeds one byte. The terminator completes the line without being
    /// stored; every other byte is appended.
    pub fn push_byte(&mut self, byte: u8) -> (complete: bool)
        requires
            old(self)@.len() < usize::MAX,
        ensures
            complete == (byte == LINE_TERMINATOR),
            complete ==> final(self)@ == old(self)@,
            !complete ==> final(self)@ == old(self)@.push(byte),
    {
        if byte == LINE_TERMINATOR {
            true
        } else {
            self.bytes.push(byte);
            false
        }
    }

    /// Hands out the accumulated line and resets the buffer for the next one.
    pub fn take_line(&mut self) -> (line: Vec<u8>)
        ensures
            line@ == old(self)@,
            final(self)@ == Seq::<u8>::empty(),
    {
        let mut taken: Vec<u8> = Vec::new();
        core::mem::swap(&mut taken, &mut self.bytes);
        taken
    }

    /// How many bytes of the current line have been accumulated.
    pub fn len(&self) -> (r: usize)
        ensures
            r == self@.len(),
    {
        self.bytes.len()
    }
}

} // verus!
