//! Writing frames to a channel.

use crate::stream::channel::{fault_error, ChannelFault, ChannelWrite};
use crate::stream::frame::{decimal_digits, frame, frame_width};
use crate::stream::stream_configuration::{Framing, StreamConfiguration};
use vstd::prelude::*;

verus! {

/// Judges one write of a segment of `asked` bytes: it counts only if the
/// channel took them all. An error of the channel is handed on as it is.
pub fn whole_segment(asked: usize, outcome: Result<usize, std::io::Error>) -> (checked: Result<
    usize,
    std::io::Error,
>)
    ensures
        match outcome {
            Ok(taken) => if taken == asked {
                checked matches Ok(count) && count == asked
            } else {
                checked is Err
            },
            Err(fault) => checked matches Err(same) && same == fault,
        },
{
    match outcome {
        Ok(taken) => if taken == asked {
            Ok(taken)
        } else {
            Err(fault_error(ChannelFault::TookTooLittle))
        },
        Err(fault) => Err(fault),
    }
}

/// Writes one segment of a frame, whole or not at all as far as the count
/// tells.
fn write_segment<W: ChannelWrite>(writer: &mut W, segment: &[u8]) -> (outcome: Result<
    usize,
    std::io::Error,
>)
    ensures
        outcome matches Ok(count) ==> count == segment@.len(),
        old(writer).outgoing() matches Some(held) ==> {
            &&& outcome is Ok
            &&& final(writer).outgoing() == Some(held + segment@)
        },
{
    let outcome = writer.write(segment);
    whole_segment(segment.len(), outcome)
}

/// Whether the frame of a payload of `length` bytes can be counted in a
/// `usize`. A frame that cannot is not written.
pub fn frame_fits(configuration: &StreamConfiguration, length: usize) -> (fits: bool)
    ensures
        fits == (frame_width(configuration@, length as nat) <= usize::MAX),
{
    let delimiter_width = configuration.delimiter().len();
    let digits = decimal_digits(length);
    let tokens = match delimiter_width.checked_mul(4) {
        Some(width) => width,
        None => {
            return false;
        },
    };
    let tokens = match tokens.checked_add(configuration.begin_boundary().len()) {
        Some(width) => width,
        None => {
            return false;
        },
    };
    let tokens = match tokens.checked_add(configuration.end_boundary().len()) {
        Some(width) => width,
        None => {
            return false;
        },
    };
    let header = match tokens.checked_add(digits.len()) {
        Some(width) => width,
        None => {
            return false;
        },
    };
    header.checked_add(length).is_some()
}

/// A writer of frames that borrows its channel and its configuration for one
/// call.
pub(crate) struct InternalMessageWriter<'a, T: ChannelWrite> {
    pub(crate) internal_writer: &'a mut T,
    pub(crate) temporary_configuration: &'a StreamConfiguration,
}

impl<'a, T: ChannelWrite> InternalMessageWriter<'a, T> {
    pub(crate) fn new(config: &'a StreamConfiguration, writer: &'a mut T) -> (made:
        InternalMessageWriter<'a, T>)
        ensures
            *made.internal_writer == *old(writer),
            *final(made.internal_writer) == *final(writer),
            made.temporary_configuration == config,
    {
        InternalMessageWriter { internal_writer: writer, temporary_configuration: config }
    }

    /// Writes the frame of `buf`, segment by segment, and tells how many
    /// bytes that made. It fails as soon as the channel fails or takes less
    /// than a whole segment, and before it writes anything where the frame
    /// has more bytes than a `usize` counts.
    pub(crate) fn write(&mut self, buf: &[u8]) -> (outcome: Result<usize, std::io::Error>)
        ensures
            outcome matches Ok(count) ==> count == frame(
                old(self).temporary_configuration@,
                buf@,
            ).len(),
            frame_width(old(self).temporary_configuration@, buf@.len()) > usize::MAX ==> {
                &&& outcome is Err
                &&& *final(self).internal_writer == *old(self).internal_writer
            },
            frame_width(old(self).temporary_configuration@, buf@.len()) <= usize::MAX ==> (
            (*old(self).internal_writer).outgoing() matches Some(held) ==> {
                &&& outcome is Ok
                &&& (*final(self).internal_writer).outgoing() == Some(
                    held + frame(old(self).temporary_configuration@, buf@),
                )
            }),
            *final(final(self).internal_writer) == *final(old(self).internal_writer),
            final(self).temporary_configuration == old(self).temporary_configuration,
    {
        if !frame_fits(self.temporary_configuration, buf.len()) {
            return Err(fault_error(ChannelFault::FrameTooWide));
        }
        let delimiter = self.temporary_configuration.delimiter();
        let begin_boundary = self.temporary_configuration.begin_boundary();
        let end_boundary = self.temporary_configuration.end_boundary();
        let digits = decimal_digits(buf.len());
        let mut written: usize = 0;
        match write_segment(self.internal_writer, delimiter) {
            Ok(count) => {
                written = written + count;
            },
            Err(fault) => {
                return Err(fault);
            },
        }
        match write_segment(self.internal_writer, begin_boundary) {
            Ok(count) => {
                written = written + count;
            },
            Err(fault) => {
                return Err(fault);
            },
        }
        match write_segment(self.internal_writer, digits.as_slice()) {
            Ok(count) => {
                written = written + count;
            },
            Err(fault) => {
                return Err(fault);
            },
        }
        match write_segment(self.internal_writer, delimiter) {
            Ok(count) => {
                written = written + count;
            },
            Err(fault) => {
                return Err(fault);
            },
        }
        match write_segment(self.internal_writer, buf) {
            Ok(count) => {
                written = written + count;
            },
            Err(fault) => {
                return Err(fault);
            },
        }
        match write_segment(self.internal_writer, delimiter) {
            Ok(count) => {
                written = written + count;
            },
            Err(fault) => {
                return Err(fault);
            },
        }
        match write_segment(self.internal_writer, end_boundary) {
            Ok(count) => {
                written = written + count;
            },
            Err(fault) => {
                return Err(fault);
            },
        }
        match write_segment(self.internal_writer, delimiter) {
            Ok(count) => {
                written = written + count;
            },
            Err(fault) => {
                return Err(fault);
            },
        }
        Ok(written)
    }
}

/// A writer of frames that owns its channel.
pub struct MessageWriter<T: ChannelWrite> {
    configuration: StreamConfiguration,
    writer: T,
}

impl<T: ChannelWrite> MessageWriter<T> {
    /// The tokens that this writer frames with.
    pub closed spec fn configuration(&self) -> StreamConfiguration {
        self.configuration
    }

    /// The channel that this writer writes to.
    pub closed spec fn writer(&self) -> T {
        self.writer
    }

    /// A writer to `writer` with the three tokens, unless they make no valid
    /// configuration.
    pub fn new(
        delimiter_string: String,
        beg_bound: String,
        end_bound: String,
        writer: T,
        hashing_enabled: bool,
    ) -> (made: Option<MessageWriter<T>>)
        ensures
            made is Some <==> Framing::of(
                delimiter_string@,
                beg_bound@,
                end_bound@,
                hashing_enabled,
            ).valid(),
            made matches Some(message_writer) ==> {
                &&& message_writer.configuration()@ == Framing::of(
                    delimiter_string@,
                    beg_bound@,
                    end_bound@,
                    hashing_enabled,
                )
                &&& message_writer.writer() == writer
            },
    {
        match StreamConfiguration::new(delimiter_string, beg_bound, end_bound, hashing_enabled) {
            Some(configuration) => Some(MessageWriter { configuration, writer }),
            None => None,
        }
    }

    /// A writer to `writer` with the tokens of `config`.
    pub fn new_from_config(config: StreamConfiguration, writer: T) -> (made: MessageWriter<T>)
        ensures
            made.configuration() == config,
            made.writer() == writer,
    {
        MessageWriter { configuration: config, writer }
    }

    /// The channel.
    pub fn get_writer(&self) -> (writer: &T)
        ensures
            *writer == self.writer(),
    {
        &self.writer
    }

    /// Writes the frame of `buf` to the channel and tells how many bytes
    /// that made. It fails as soon as the channel fails or takes less than a
    /// whole segment, and before it writes anything where the frame has more
    /// bytes than a `usize` counts. A channel that keeps all it is given
    /// then holds the frame behind what it held.
    pub fn write(&mut self, buf: &[u8]) -> (outcome: Result<usize, std::io::Error>)
        ensures
            final(self).configuration() == old(self).configuration(),
            outcome matches Ok(count) ==> count == frame(old(self).configuration()@, buf@).len(),
            frame_width(old(self).configuration()@, buf@.len()) > usize::MAX ==> {
                &&& outcome is Err
                &&& final(self).writer() == old(self).writer()
            },
            frame_width(old(self).configuration()@, buf@.len()) <= usize::MAX ==> (
            old(self).writer().outgoing() matches Some(held) ==> {
                &&& outcome is Ok
                &&& final(self).writer().outgoing() == Some(
                    held + frame(old(self).configuration()@, buf@),
                )
            }),
    {
        let mut temp_writer = InternalMessageWriter::new(&self.configuration, &mut self.writer);
        temp_writer.write(buf)
    }

    /// Sends on what the channel may have buffered: the channel's own flush.
    pub fn flush(&mut self) -> (outcome: Result<(), std::io::Error>)
        ensures
            final(self).configuration() == old(self).configuration(),
            // the outcome, and the channel as it now is, are what the channel's
            // own `flush` made of the channel as it was
            exists|borrowed: &mut T|
                {
                    &&& *borrowed == old(self).writer()
                    &&& *final(borrowed) == final(self).writer()
                    &&& #[trigger] call_ensures(T::flush, (borrowed,), outcome)
                },
            old(self).writer().outgoing() is Some ==> {
                &&& outcome is Ok
                &&& final(self).writer().outgoing() == old(self).writer().outgoing()
            },
    {
        self.writer.flush()
    }
}

} // verus!
