//! Reading one frame from a channel.

use crate::stream::channel::{fault_error, ChannelFault, ChannelRead};
use crate::stream::error::{Error, ErrorKind};
use crate::stream::frame::{
    decode, length_field, length_field_end, unsigned_decimal, LengthField, Outcome,
};
use crate::stream::stream_configuration::StreamConfiguration;
use crate::utils::{
    find_where_slice_begins, index_after_first_match, lemma_first_match_found,
    lemma_first_match_is, lemma_occurs_at_take, occurs_at, starts_with_at,
};
use vstd::prelude::*;
use vstd::utf8::{decode_utf8, valid_utf8};

verus! {

/// Whether `result` is what a reading with this `outcome` hands back: the
/// payload of a message, and for every other outcome the error of its kind.
pub open spec fn reports(result: Result<Vec<u8>, Error>, outcome: Outcome) -> bool {
    match outcome {
        Outcome::Message(payload) => result matches Ok(message) && message@ == payload,
        Outcome::EndOfStream => result matches Err(error) && error@ is BufferEmpty,
        Outcome::Truncated => result matches Err(error) && error@ is IOError,
        Outcome::DelimiterMismatch => result matches Err(error) && error@ is DelimiterDoesntMatch,
        Outcome::BeginBoundaryMismatch => result matches Err(error)
            && error@ is BeginningDoesntMatch,
        Outcome::LengthDelimiterNotFound => result matches Err(error)
            && error@ is BufferDoesntContainDelimiter,
        Outcome::LengthFieldNotUtf8 => result matches Err(error) && error@ is NotUTF8,
        Outcome::LengthFieldNotInteger => result matches Err(error) && error@ is IntParseError,
    }
}

/// `String::from_utf8`: the text that `bytes` encode, or the error for bytes
/// that are no UTF-8.
#[verifier::external_body]
fn text_from_utf8(bytes: Vec<u8>) -> (outcome: Result<String, std::string::FromUtf8Error>)
    ensures
        outcome is Ok <==> valid_utf8(bytes@),
        outcome matches Ok(text) ==> text@ == decode_utf8(bytes@),
{
    String::from_utf8(bytes)
}

/// `str::parse` for `usize`: the number that `text` writes in decimal digits,
/// with at most a `+` before them, or the error for any other text and for a
/// number that a `usize` cannot hold.
#[verifier::external_body]
fn parse_length(text: &str) -> (outcome: Result<usize, std::num::ParseIntError>)
    ensures
        match unsigned_decimal(text@) {
            Some(length) => if length <= usize::MAX {
                outcome matches Ok(parsed) && parsed == length
            } else {
                outcome is Err
            },
            None => outcome is Err,
        },
{
    text.parse::<usize>()
}

/// Whether `bytes` ends with `suffix`.
fn ends_with(bytes: &Vec<u8>, suffix: &[u8]) -> (found: bool)
    ensures
        found == (suffix@.len() <= bytes@.len() && occurs_at(
            bytes@,
            suffix@,
            bytes@.len() - suffix@.len(),
        )),
{
    if suffix.len() > bytes.len() {
        return false;
    }
    starts_with_at(bytes, suffix, bytes.len() - suffix.len())
}

/// Whether `bytes` and `token` hold the same bytes.
fn same_bytes(bytes: &Vec<u8>, token: &[u8]) -> (same: bool)
    ensures
        same == (bytes@ == token@),
{
    if bytes.len() != token.len() {
        return false;
    }
    let same = starts_with_at(bytes, token, 0);
    assert(bytes@.subrange(0, bytes@.len() as int) =~= bytes@);
    same
}

/// Judges the first read of a frame, which asked for as many bytes as the
/// delimiter has. No bytes at all tell that the channel is at its end; fewer
/// than the delimiter has tell that it ended inside the frame.
pub fn lead_delimiter_read(
    configuration: &StreamConfiguration,
    outcome: Result<Vec<u8>, std::io::Error>,
) -> (checked: Result<(), Error>)
    ensures
        match outcome {
            Err(fault) => checked matches Err(error) && error@ == ErrorKind::IOError(fault),
            Ok(bytes) => if bytes@.len() == 0 {
                checked matches Err(error) && error@ is BufferEmpty
            } else if bytes@.len() < configuration@.delimiter.len() {
                checked matches Err(error) && error@ is IOError
            } else if bytes@ != configuration@.delimiter {
                checked matches Err(error) && error@ is DelimiterDoesntMatch
            } else {
                checked is Ok
            },
        },
{
    match outcome {
        Err(fault) => Err(Error::from(fault)),
        Ok(bytes) => {
            let delimiter = configuration.delimiter();
            if bytes.len() == 0 {
                Err(Error::from(ErrorKind::BufferEmpty))
            } else if bytes.len() < delimiter.len() {
                Err(Error::from(fault_error(ChannelFault::EndedEarly)))
            } else if same_bytes(&bytes, delimiter) {
                Ok(())
            } else {
                Err(Error::from(ErrorKind::DelimiterDoesntMatch))
            }
        },
    }
}

/// Judges the bytes read where the begin boundary is due.
pub fn begin_boundary_read(
    configuration: &StreamConfiguration,
    bytes: &Vec<u8>,
) -> (checked: Result<(), Error>)
    ensures
        if bytes@ == configuration@.begin_boundary {
            checked is Ok
        } else {
            checked matches Err(error) && error@ is BeginningDoesntMatch
        },
{
    if same_bytes(bytes, configuration.begin_boundary()) {
        Ok(())
    } else {
        Err(Error::from(ErrorKind::BeginningDoesntMatch))
    }
}

/// The length that the bytes of a length field write.
pub fn length_from_field(field: Vec<u8>) -> (length: Result<usize, Error>)
    ensures
        match length_field(field@) {
            LengthField::NotUtf8 => length matches Err(error) && error@ is NotUTF8,
            LengthField::NotInteger => length matches Err(error) && error@ is IntParseError,
            LengthField::Length(written) => length matches Ok(parsed) && parsed == written,
        },
{
    let buf_str = match text_from_utf8(field) {
        Ok(text) => text,
        Err(fault) => {
            return Err(Error::from(fault));
        },
    };
    match parse_length(buf_str.as_str()) {
        Ok(num) => Ok(num),
        Err(fault) => Err(Error::from(fault)),
    }
}

/// Reads exactly `count` bytes, in as many reads as it takes. A channel that
/// ends before that is an error, and so is one that brings more than a read
/// asked for.
pub fn read_exact<R: ChannelRead>(reader: &mut R, count: usize) -> (outcome: Result<
    Vec<u8>,
    std::io::Error,
>)
    ensures
        outcome matches Ok(bytes) ==> bytes@.len() == count,
        old(reader).incoming() matches Some(stream) ==> if count <= stream.len() {
            &&& outcome matches Ok(bytes)
            &&& bytes@ == stream.take(count as int)
            &&& final(reader).incoming() == Some(stream.skip(count as int))
        } else {
            &&& outcome is Err
            &&& final(reader).incoming() == Some(Seq::<u8>::empty())
        },
{
    let ghost start = reader.incoming();
    let mut bytes: Vec<u8> = Vec::new();
    while bytes.len() < count
        invariant
            bytes@.len() <= count,
            start == old(reader).incoming(),
            start matches Some(stream) ==> {
                &&& bytes@.len() <= stream.len()
                &&& bytes@ == stream.take(bytes@.len() as int)
                &&& reader.incoming() == Some(stream.skip(bytes@.len() as int))
            },
        decreases count - bytes@.len(),
    {
        let mut chunk = match reader.read(count - bytes.len()) {
            Ok(chunk) => chunk,
            Err(fault) => {
                return Err(fault);
            },
        };
        if chunk.len() == 0 {
            return Err(fault_error(ChannelFault::EndedEarly));
        }
        if chunk.len() > count - bytes.len() {
            return Err(fault_error(ChannelFault::BroughtTooMuch));
        }
        bytes.append(&mut chunk);
    }
    Ok(bytes)
}

/// Reads the length field byte by byte, up to and with the delimiter that
/// closes it, and hands back the bytes before that delimiter.
fn scan_length_field<R: ChannelRead>(reader: &mut R, configuration: &StreamConfiguration) -> (field:
    Result<Vec<u8>, Error>)
    ensures
        old(reader).incoming() matches Some(stream) ==> match length_field_end(
            configuration@,
            stream,
        ) {
            Some(after) => {
                &&& field matches Ok(bytes)
                &&& bytes@ == stream.take(after - configuration@.delimiter.len())
                &&& final(reader).incoming() == Some(stream.skip(after))
            },
            None => if stream.len() >= usize::MAX {
                &&& field matches Err(error)
                &&& error@ is BufferDoesntContainDelimiter
                &&& final(reader).incoming() == Some(stream.skip(usize::MAX as int))
            } else {
                &&& field matches Err(error)
                &&& error@ is IOError
                &&& final(reader).incoming() == Some(Seq::<u8>::empty())
            },
        },
{
    let delimiter = configuration.delimiter();
    let ghost start = reader.incoming();
    let mut acc_buff: Vec<u8> = Vec::new();
    loop
        invariant
            start == old(reader).incoming(),
            delimiter@ == configuration@.delimiter,
            delimiter@.len() > 0,
            forall|at: int|
                0 <= at && at + delimiter@.len() <= acc_buff@.len() ==> !occurs_at(
                    acc_buff@,
                    delimiter@,
                    at,
                ),
            start matches Some(stream) ==> {
                &&& acc_buff@.len() <= stream.len()
                &&& acc_buff@ == stream.take(acc_buff@.len() as int)
                &&& reader.incoming() == Some(stream.skip(acc_buff@.len() as int))
            },
        decreases usize::MAX - acc_buff@.len(),
    {
        if acc_buff.len() == usize::MAX {
            proof {
                match start {
                    Some(stream) => {
                        lemma_scan_found_nothing(stream, delimiter@, acc_buff@.len() as int);
                    },
                    None => {},
                }
            }
            return Err(Error::from(ErrorKind::BufferDoesntContainDelimiter));
        }
        let buffer = match read_exact(reader, 1) {
            Ok(buffer) => buffer,
            Err(fault) => {
                proof {
                    match start {
                        Some(stream) => {
                            lemma_scan_found_nothing(stream, delimiter@, stream.len() as int);
                        },
                        None => {},
                    }
                }
                return Err(Error::from(fault));
            },
        };
        let ghost before = acc_buff@;
        acc_buff.push(buffer[0]);
        proof {
            assert forall|at: int|
                0 <= at && at + delimiter@.len() <= before.len() implies !occurs_at(
                acc_buff@,
                delimiter@,
                at,
            ) by {
                lemma_occurs_at_take(acc_buff@, delimiter@, before.len() as int, at);
                assert(acc_buff@.take(before.len() as int) =~= before);
            }
            match start {
                Some(stream) => {
                    assert(acc_buff@ =~= stream.take(acc_buff@.len() as int));
                },
                None => {},
            }
        }
        if ends_with(&acc_buff, delimiter) {
            let ghost begins = acc_buff@.len() - delimiter@.len();
            proof {
                lemma_first_match_is(acc_buff@, delimiter@, begins);
                match start {
                    Some(stream) => {
                        assert forall|earlier: int| 0 <= earlier < begins implies !occurs_at(
                            stream,
                            delimiter@,
                            earlier,
                        ) by {
                            lemma_occurs_at_take(
                                stream,
                                delimiter@,
                                acc_buff@.len() as int,
                                earlier,
                            );
                        }
                        lemma_occurs_at_take(stream, delimiter@, acc_buff@.len() as int, begins);
                        lemma_first_match_is(stream, delimiter@, begins);
                    },
                    None => {},
                }
            }
            match find_where_slice_begins(&acc_buff, delimiter) {
                Some(v) => {
                    let _ = acc_buff.split_off(v);
                    return Ok(acc_buff);
                },
                None => {
                    return Err(Error::from(ErrorKind::BufferDoesntContainDelimiter));
                },
            }
        }
    }
}

/// Where the delimiter occurs nowhere within the first `scanned` bytes of
/// `stream`, no length field ends within them.
proof fn lemma_scan_found_nothing(stream: Seq<u8>, delimiter: Seq<u8>, scanned: int)
    requires
        0 <= scanned <= stream.len(),
        delimiter.len() > 0,
        forall|at: int|
            0 <= at && at + delimiter.len() <= scanned ==> !occurs_at(
                stream.take(scanned),
                delimiter,
                at,
            ),
    ensures
        index_after_first_match(stream, delimiter) matches Some(after) ==> after > scanned,
{
    match index_after_first_match(stream, delimiter) {
        Some(after) => {
            lemma_first_match_found(stream, delimiter);
            let begins = after - delimiter.len();
            if after <= scanned {
                lemma_occurs_at_take(stream, delimiter, scanned, begins);
            }
        },
        None => {},
    }
}

/// Reads one frame from `reader` and hands back its payload.
///
/// Of a channel that knows what it will deliver, the result is that of
/// `decode` on those bytes, and the channel is left where `decode` leaves
/// them: behind the frame, for a message. Of any other channel the result
/// rests on what its reads bring, as `lead_delimiter_read`,
/// `begin_boundary_read` and `length_from_field` judge it.
pub fn read_message_from_reader<R: ChannelRead>(
    reader: &mut R,
    configuration: &StreamConfiguration,
) -> (result: Result<Vec<u8>, Error>)
    ensures
        old(reader).incoming() matches Some(stream) ==> {
            &&& reports(result, decode(configuration@, stream).outcome)
            &&& final(reader).incoming() == Some(decode(configuration@, stream).rest)
        },
{
    let delimiter_width = configuration.delimiter().len();
    let end_width = configuration.end_boundary().len();
    // the lead delimiter, in one read
    let lead = reader.read(delimiter_width);
    match lead_delimiter_read(configuration, lead) {
        Ok(()) => {},
        Err(error) => {
            return Err(error);
        },
    }
    // the begin boundary
    let beg_bound_sized_vec = match read_exact(reader, configuration.begin_boundary().len()) {
        Ok(bytes) => bytes,
        Err(fault) => {
            return Err(Error::from(fault));
        },
    };
    match begin_boundary_read(configuration, &beg_bound_sized_vec) {
        Ok(()) => {},
        Err(error) => {
            return Err(error);
        },
    }
    // the length, up to the delimiter that closes it
    let field = match scan_length_field(reader, configuration) {
        Ok(field) => field,
        Err(error) => {
            return Err(error);
        },
    };
    let num = match length_from_field(field) {
        Ok(num) => num,
        Err(error) => {
            return Err(error);
        },
    };
    // the message itself
    let message_vec = match read_exact(reader, num) {
        Ok(bytes) => bytes,
        Err(fault) => {
            return Err(Error::from(fault));
        },
    };
    // what closes the frame is passed over by its width
    let remaining_bytes = delimiter_width * 2 + end_width;
    match read_exact(reader, remaining_bytes) {
        Ok(_) => {},
        Err(fault) => {
            return Err(Error::from(fault));
        },
    }
    Ok(message_vec)
}

} // verus!
