//! Reading frames from a channel.

use crate::stream::channel::ChannelRead;
use crate::stream::error::Error;
use crate::stream::frame::decode;
use crate::stream::internal_reading_code::{read_message_from_reader, reports};
use crate::stream::stream_configuration::{Framing, StreamConfiguration};
use vstd::prelude::*;

verus! {

/// A reader of frames that borrows its channel and its configuration for one
/// call.
pub(crate) struct InternalMessageReader<'a, T: ChannelRead> {
    pub(crate) internal_reader: &'a mut T,
    pub(crate) configuration: &'a StreamConfiguration,
}

impl<'a, T: ChannelRead> InternalMessageReader<'a, T> {
    pub(crate) fn new(internal_reader: &'a mut T, configuration: &'a StreamConfiguration) -> (made:
        InternalMessageReader<'a, T>)
        ensures
            *made.internal_reader == *old(internal_reader),
            *final(made.internal_reader) == *final(internal_reader),
            made.configuration == configuration,
    {
        InternalMessageReader { internal_reader, configuration }
    }

    /// Reads the next frame: see `read_message_from_reader`.
    pub(crate) fn read_next_message(&mut self) -> (result: Result<Vec<u8>, Error>)
        ensures
            (*old(self).internal_reader).incoming() matches Some(stream) ==> {
                &&& reports(result, decode(old(self).configuration@, stream).outcome)
                &&& (*final(self).internal_reader).incoming() == Some(
                    decode(old(self).configuration@, stream).rest,
                )
            },
            *final(final(self).internal_reader) == *final(old(self).internal_reader),
            final(self).configuration == old(self).configuration,
    {
        read_message_from_reader(self.internal_reader, self.configuration)
    }
}

/// A reader of frames that owns its channel.
pub struct MessageReader<T: ChannelRead> {
    configuration: StreamConfiguration,
    reader: T,
}

impl<T: ChannelRead> MessageReader<T> {
    /// The tokens that this reader expects.
    pub closed spec fn configuration(&self) -> StreamConfiguration {
        self.configuration
    }

    /// The channel that this reader reads from.
    pub closed spec fn reader(&self) -> T {
        self.reader
    }

    /// A reader of `reader` with the three tokens, unless they make no valid
    /// configuration.
    pub fn new(
        delimiter_string: String,
        beg_bound: String,
        end_bound: String,
        reader: T,
        hashing_enabled: bool,
    ) -> (made: Option<MessageReader<T>>)
        ensures
            made is Some <==> Framing::of(
                delimiter_string@,
                beg_bound@,
                end_bound@,
                hashing_enabled,
            ).valid(),
            made matches Some(message_reader) ==> {
                &&& message_reader.configuration()@ == Framing::of(
                    delimiter_string@,
                    beg_bound@,
                    end_bound@,
                    hashing_enabled,
                )
                &&& message_reader.reader() == reader
            },
    {
        match StreamConfiguration::new(delimiter_string, beg_bound, end_bound, hashing_enabled) {
            Some(configuration) => Some(MessageReader { configuration, reader }),
            None => None,
        }
    }

    /// A reader of `reader` with the tokens of `config`.
    pub fn new_from_config(config: StreamConfiguration, reader: T) -> (made: MessageReader<T>)
        ensures
            made.configuration() == config,
            made.reader() == reader,
    {
        MessageReader { configuration: config, reader }
    }

    /// The channel.
    pub fn get_reader(&self) -> (reader: &T)
        ensures
            *reader == self.reader(),
    {
        &self.reader
    }

    /// Reads the next frame from the channel and hands back its payload.
    ///
    /// At the end of the channel the error is of the kind `BufferEmpty`; a
    /// channel that ends inside a frame gives an `IOError`. A read may wait
    /// for as long as the channel lets it wait. Tokens that occur inside a
    /// length field mislead the reader.
    pub fn read_next_message(&mut self) -> (result: Result<Vec<u8>, Error>)
        ensures
            final(self).configuration() == old(self).configuration(),
            old(self).reader().incoming() matches Some(stream) ==> {
                &&& reports(result, decode(old(self).configuration()@, stream).outcome)
                &&& final(self).reader().incoming() == Some(
                    decode(old(self).configuration()@, stream).rest,
                )
            },
    {
        let mut internal_reader = InternalMessageReader::new(&mut self.reader, &self.configuration);
        internal_reader.read_next_message()
    }
}

} // verus!
