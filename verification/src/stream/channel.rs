//! What the codec asks of a channel, and a channel held in memory.

use vstd::prelude::*;

verus! {

/// How many bytes a channel that holds `stream` serves to a read of at most
/// `limit` bytes: as many as it can.
pub open spec fn served(stream: Seq<u8>, limit: usize) -> int {
    if limit <= stream.len() {
        limit as int
    } else {
        stream.len() as int
    }
}

/// The reading end of a channel: bytes come in order, a read may bring fewer
/// than were asked for, and none at the channel's end.
pub trait ChannelRead {
    /// The bytes that are still to come, for a channel that knows them, never
    /// fails and serves every read in full from them. It is `None` for any
    /// other channel, and of such a channel nothing is promised.
    open spec fn incoming(&self) -> Option<Seq<u8>> {
        None
    }

    /// Reads at most `limit` bytes. An empty result for a `limit` above zero
    /// tells that the channel is at its end. To bring more than `limit`
    /// bytes is a fault of the channel.
    fn read(&mut self, limit: usize) -> (outcome: Result<Vec<u8>, std::io::Error>)
        ensures
            old(self).incoming() matches Some(stream) ==> {
                &&& outcome matches Ok(bytes)
                &&& bytes@ == stream.take(served(stream, limit))
                &&& final(self).incoming() == Some(stream.skip(served(stream, limit)))
            },
    ;
}

/// The writing end of a channel.
pub trait ChannelWrite {
    /// The bytes that the channel holds, for a channel that never fails and
    /// keeps all it is given. It is `None` for any other channel, and of
    /// such a channel nothing is promised.
    open spec fn outgoing(&self) -> Option<Seq<u8>> {
        None
    }

    /// Writes bytes from the front of `buf` and tells how many it took.
    fn write(&mut self, buf: &[u8]) -> (outcome: Result<usize, std::io::Error>)
        ensures
            old(self).outgoing() matches Some(held) ==> {
                &&& outcome matches Ok(taken)
                &&& taken == buf@.len()
                &&& final(self).outgoing() == Some(held + buf@)
            },
    ;

    /// Sends on what the channel may have buffered.
    fn flush(&mut self) -> (outcome: Result<(), std::io::Error>)
        ensures
            old(self).outgoing() is Some ==> {
                &&& outcome is Ok
                &&& final(self).outgoing() == old(self).outgoing()
            },
    ;
}

/// What the codec itself reports as an error of the channel.
pub(crate) enum ChannelFault {
    /// The channel ended inside a frame.
    EndedEarly,
    /// A read brought more bytes than it asked for.
    BroughtTooMuch,
    /// A write took less than the segment it was given.
    TookTooLittle,
    /// The frame to write has more bytes than a `usize` counts.
    FrameTooWide,
}

/// `std::io::Error::from`, on the `std::io::ErrorKind` that stands for
/// `fault`: `UnexpectedEof`, `InvalidData`, `WriteZero` or `InvalidInput`.
/// Nothing is claimed of the error.
#[verifier::external_body]
pub(crate) fn fault_error(fault: ChannelFault) -> std::io::Error {
    std::io::Error::from(
        match fault {
            ChannelFault::EndedEarly => std::io::ErrorKind::UnexpectedEof,
            ChannelFault::BroughtTooMuch => std::io::ErrorKind::InvalidData,
            ChannelFault::TookTooLittle => std::io::ErrorKind::WriteZero,
            ChannelFault::FrameTooWide => std::io::ErrorKind::InvalidInput,
        },
    )
}

/// A channel in memory: what is written to it is read from it again, first
/// in, first out. It never fails.
#[derive(Debug)]
pub struct MemoryChannel {
    buffer: Vec<u8>,
}

impl View for MemoryChannel {
    type V = Seq<u8>;

    /// The bytes written and not yet read.
    closed spec fn view(&self) -> Seq<u8> {
        self.buffer@
    }
}

impl MemoryChannel {
    /// A channel that holds nothing.
    pub fn new() -> (channel: MemoryChannel)
        ensures
            channel@ == Seq::<u8>::empty(),
    {
        MemoryChannel { buffer: Vec::new() }
    }

    /// A channel that holds `bytes`, to be read from the first on.
    pub fn from_bytes(bytes: Vec<u8>) -> (channel: MemoryChannel)
        ensures
            channel@ == bytes@,
    {
        MemoryChannel { buffer: bytes }
    }

    /// A copy of the bytes written and not yet read.
    pub fn unread(&self) -> (bytes: Vec<u8>)
        ensures
            bytes@ == self@,
    {
        self.buffer.clone()
    }
}

impl ChannelRead for MemoryChannel {
    open spec fn incoming(&self) -> Option<Seq<u8>> {
        Some(self@)
    }

    fn read(&mut self, limit: usize) -> (outcome: Result<Vec<u8>, std::io::Error>) {
        let count = if limit <= self.buffer.len() {
            limit
        } else {
            self.buffer.len()
        };
        let mut bytes = self.buffer.split_off(count);
        std::mem::swap(&mut self.buffer, &mut bytes);
        Ok(bytes)
    }
}

impl ChannelWrite for MemoryChannel {
    open spec fn outgoing(&self) -> Option<Seq<u8>> {
        Some(self@)
    }

    fn write(&mut self, buf: &[u8]) -> (outcome: Result<usize, std::io::Error>) {
        let mut i: usize = 0;
        while i < buf.len()
            invariant
                i <= buf@.len(),
                self.buffer@ == old(self).buffer@ + buf@.take(i as int),
            decreases buf.len() - i,
        {
            self.buffer.push(buf[i]);
            i = i + 1;
        }
        Ok(buf.len())
    }

    fn flush(&mut self) -> (outcome: Result<(), std::io::Error>) {
        Ok(())
    }
}

} // verus!
