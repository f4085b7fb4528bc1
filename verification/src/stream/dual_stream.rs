//! Reading and writing frames on one channel.

use crate::stream::channel::{ChannelRead, ChannelWrite};
use crate::stream::error::Error;
use crate::stream::frame::{decode, frame, frame_width};
use crate::stream::internal_reading_code::reports;
use crate::stream::read_stream::InternalMessageReader;
use crate::stream::stream_configuration::{Framing, StreamConfiguration};
use crate::stream::write_stream::InternalMessageWriter;
use vstd::prelude::*;

verus! {

/// A reader and writer of frames on one channel, which it owns.
#[derive(Debug)]
pub struct DualMessenger<T: ChannelRead + ChannelWrite> {
    configuration: StreamConfiguration,
    channel: Box<T>,
}

impl<T: ChannelRead + ChannelWrite> DualMessenger<T> {
    /// The tokens that this messenger frames with.
    pub closed spec fn configuration(&self) -> StreamConfiguration {
        self.configuration
    }

    /// The channel that this messenger reads from and writes to.
    pub closed spec fn channel(&self) -> T {
        *self.channel
    }

    /// A messenger on `channel` with the three tokens, unless they make no
    /// valid configuration.
    pub fn new(
        delimiter_string: String,
        beg_bound: String,
        end_bound: String,
        channel: T,
        hashing_enabled: bool,
    ) -> (made: Option<DualMessenger<T>>)
        ensures
            made is Some <==> Framing::of(
                delimiter_string@,
                beg_bound@,
                end_bound@,
                hashing_enabled,
            ).valid(),
            made matches Some(messenger) ==> {
                &&& messenger.configuration()@ == Framing::of(
                    delimiter_string@,
                    beg_bound@,
                    end_bound@,
                    hashing_enabled,
                )
                &&& messenger.channel() == channel
            },
    {
        match StreamConfiguration::new(delimiter_string, beg_bound, end_bound, hashing_enabled) {
            Some(configuration) => Some(
                DualMessenger { configuration, channel: Box::new(channel) },
            ),
            None => None,
        }
    }

    /// A messenger on `channel` with the tokens of `config`.
    pub fn new_from_config(config: StreamConfiguration, channel: T) -> (made: DualMessenger<T>)
        ensures
            made.configuration() == config,
            made.channel() == channel,
    {
        DualMessenger { configuration: config, channel: Box::new(channel) }
    }

    /// Reads the next frame from the channel and hands back its payload.
    ///
    /// At the end of the channel the error is of the kind `BufferEmpty`; a
    /// channel that ends inside a frame gives an `IOError`. A read may wait
    /// for as long as the channel lets it wait. Tokens that occur inside a
    /// length field mislead the reader.
    pub fn read_next_message(&mut self) -> (result: Result<Vec<u8>, Error>)
        ensures
            final(self).configuration() == old(self).configuration(),
            old(self).channel().incoming() matches Some(stream) ==> {
                &&& reports(result, decode(old(self).configuration()@, stream).outcome)
                &&& final(self).channel().incoming() == Some(
                    decode(old(self).configuration()@, stream).rest,
                )
            },
    {
        let mut internal_reader = InternalMessageReader::new(
            &mut *self.channel,
            &self.configuration,
        );
        internal_reader.read_next_message()
    }

    /// Gives the channel back.
    pub fn release(self) -> (channel: Box<T>)
        ensures
            *channel == self.channel(),
    {
        self.channel
    }

    /// Writes the frame of `buf` to the channel and tells how many bytes
    /// that made. It fails as soon as the channel fails or takes less than a
    /// whole segment, and before it writes anything where the frame has more
    /// bytes than a `usize` counts. A channel that keeps all it is given
    /// then holds the frame behind what it held.
    pub fn write(&mut self, buf: &[u8]) -> (outcome: Result<usize, std::io::Error>)
        ensures
            final(self).configuration() == old(self).configuration(),
            outcome matches Ok(count) ==> count == frame(old(self).configuration()@, buf@).len(),
            frame_width(old(self).configuration()@, buf@.len()) > usize::MAX ==> {
                &&& outcome is Err
                &&& final(self).channel() == old(self).channel()
            },
            frame_width(old(self).configuration()@, buf@.len()) <= usize::MAX ==> (
            old(self).channel().outgoing() matches Some(held) ==> {
                &&& outcome is Ok
                &&& final(self).channel().outgoing() == Some(
                    held + frame(old(self).configuration()@, buf@),
                )
            }),
    {
        let mut internal_writer = InternalMessageWriter::new(
            &self.configuration,
            &mut *self.channel,
        );
        internal_writer.write(buf)
    }

    /// Sends on what the channel may have buffered: the channel's own flush.
    pub fn flush(&mut self) -> (outcome: Result<(), std::io::Error>)
        ensures
            final(self).configuration() == old(self).configuration(),
            // the outcome, and the channel as it now is, are what the channel's
            // own `flush` made of the channel as it was
            exists|borrowed: &mut T|
                {
                    &&& *borrowed == old(self).channel()
                    &&& *final(borrowed) == final(self).channel()
                    &&& #[trigger] call_ensures(T::flush, (borrowed,), outcome)
                },
            old(self).channel().outgoing() is Some ==> {
                &&& outcome is Ok
                &&& final(self).channel().outgoing() == old(self).channel().outgoing()
            },
    {
        let channel: &mut T = &mut *self.channel;
        channel.flush()
    }
}

} // verus!
