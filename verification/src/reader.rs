//! The byte source: a cursor over borrowed bytes.

use crate::error::{DeserializeError, ReadFault};
use vstd::prelude::*;

verus! {

/// A byte source. It wraps the bytes that are still to be read; reading
/// shortens them from the front. A read that asks for more than is left
/// fails with `UnexpectedEof` and leaves nothing behind, as a stream does that
/// has been read to its end.
pub struct WrapRead<'a>(pub &'a [u8]);

impl<'a> View for WrapRead<'a> {
    type V = Seq<u8>;

    /// The bytes that are still to be read.
    open spec fn view(&self) -> Seq<u8> {
        self.0@
    }
}

/// What is left of `input` after `n` bytes were taken, or nothing where it
/// holds fewer.
pub open spec fn after(input: Seq<u8>, n: nat) -> Seq<u8> {
    if n <= input.len() {
        input.skip(n as int)
    } else {
        Seq::empty()
    }
}

impl<'a> WrapRead<'a> {
    /// A source that reads `buf` from its first byte.
    pub fn new(buf: &'a [u8]) -> (r: WrapRead<'a>)
        ensures
            r@ == buf@,
    {
        WrapRead(buf)
    }

    /// The number of bytes that are left.
    pub fn remaining(&self) -> (r: usize)
        ensures
            r == self@.len(),
    {
        self.0.len()
    }

    /// Reads exactly `n` bytes. With fewer than `n` left, the source is
    /// drained and the read fails with `UnexpectedEof`.
    pub fn read_exact(&mut self, n: usize) -> (r: Result<&'a [u8], DeserializeError>)
        ensures
            n <= old(self)@.len() ==> r is Ok && r->Ok_0@ == old(self)@.take(n as int),
            n > old(self)@.len() ==> r is Err && r->Err_0@ == ReadFault::UnexpectedEof,
            final(self)@ == after(old(self)@, n as nat),
    {
        let buf: &'a [u8] = self.0;
        if n <= buf.len() {
            let (head, tail) = buf.split_at(n);
            self.0 = tail;
            Ok(head)
        } else {
            let (_, tail) = buf.split_at(buf.len());
            self.0 = tail;
            Err(DeserializeError::UnexpectedEof)
        }
    }

    /// Reads one byte.
    pub fn read_u8(&mut self) -> (r: Result<u8, DeserializeError>)
        ensures
            old(self)@.len() >= 1 ==> r is Ok && r->Ok_0 == old(self)@[0],
            old(self)@.len() < 1 ==> r is Err && r->Err_0@ == ReadFault::UnexpectedEof,
            final(self)@ == after(old(self)@, 1),
    {
        match self.read_exact(1) {
            Ok(b) => Ok(b[0]),
            Err(e) => Err(e),
        }
    }

    /// A source of its own over the next `limit` bytes, or over all that is
    /// left where that is less. This source itself does not move: what the
    /// new one has read is passed over with [`WrapRead::advance`].
    pub fn take(&self, limit: usize) -> (r: WrapRead<'a>)
        ensures
            r@ == self@.take(if limit <= self@.len() { limit as int } else { self@.len() as int }),
    {
        let buf: &'a [u8] = self.0;
        let n = if limit <= buf.len() { limit } else { buf.len() };
        let (head, _) = buf.split_at(n);
        WrapRead(head)
    }

    /// Passes over `n` bytes.
    pub fn advance(&mut self, n: usize)
        requires
            n <= old(self)@.len(),
        ensures
            final(self)@ == old(self)@.skip(n as int),
    {
        let buf: &'a [u8] = self.0;
        let (_, tail) = buf.split_at(n);
        self.0 = tail;
    }

    /// Reads all that is left.
    pub fn read_to_end(&mut self) -> (r: &'a [u8])
        ensures
            r@ == old(self)@,
            final(self)@.len() == 0,
    {
        let buf: &'a [u8] = self.0;
        let (head, tail) = buf.split_at(buf.len());
        self.0 = tail;
        assert(head@ == buf@);
        head
    }
}

} // verus!
