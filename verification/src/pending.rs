//! Bytes that were read ahead of a connection.

use bytes::BytesMut;
use vstd::prelude::*;

use crate::buffer::{buffer_advance, buffer_bytes, buffer_extend, buffer_new, buffered};
use crate::num::{min_int, min_usize};
use crate::text::bytes_between;

verus! {

/// Bytes that are read before anything else of a connection.
pub struct PendingRead {
    buffer: BytesMut,
}

impl PendingRead {
    /// The bytes that are still to be read.
    pub closed spec fn pending(&self) -> Seq<u8> {
        buffered(self.buffer)
    }

    pub fn new(bytes: &[u8]) -> (read: Self)
        ensures
            read.pending() == bytes@,
    {
        let mut buffer = buffer_new();
        buffer_extend(&mut buffer, bytes);
        assert(buffered(buffer) =~= bytes@);
        Self { buffer }
    }

    /// Reads at most `room` bytes; `None` where the connection itself is to be
    /// read.
    pub fn read(&mut self, room: usize) -> (data: Option<Vec<u8>>)
        ensures
            match data {
                Some(bytes) => {
                    &&& old(self).pending().len() > 0
                    &&& bytes@.len() == min_int(room as int, old(self).pending().len() as int)
                    &&& old(self).pending() == bytes@ + final(self).pending()
                },
                None => old(self).pending().len() == 0 && final(self).pending().len() == 0,
            },
    {
        let pending: &[u8] = buffer_bytes(&self.buffer);
        if pending.len() == 0 {
            return None;
        }
        let count: usize = min_usize(room, pending.len());
        let bytes = bytes_between(pending, 0, count);
        buffer_advance(&mut self.buffer, count);
        assert(old(self).pending() =~= bytes@ + self.pending());
        Some(bytes)
    }
}

} // verus!
