//! The frame on the wire, and what a reader makes of a stream of bytes.

use crate::stream::stream_configuration::Framing;
use crate::utils::index_after_first_match;
use vstd::prelude::*;
use vstd::utf8::{decode_utf8, valid_utf8};

verus! {

/// The ASCII digit of `digit`, which is below ten.
pub open spec fn digit_byte(digit: nat) -> u8 {
    (48 + digit) as u8
}

/// `n` in decimal digits, as ASCII bytes: no sign, and no leading zero but
/// the one digit of zero itself.
pub open spec fn decimal(n: nat) -> Seq<u8>
    decreases n,
{
    if n < 10 {
        seq![digit_byte(n)]
    } else {
        decimal(n / 10).push(digit_byte(n % 10))
    }
}

/// One of the ten decimal digits.
pub open spec fn is_decimal_digit(c: char) -> bool {
    '0' <= c <= '9'
}

/// The number that a run of decimal digits writes.
pub open spec fn digits_value(digits: Seq<char>) -> nat
    decreases digits.len(),
{
    if digits.len() == 0 {
        0
    } else {
        (10 * digits_value(digits.drop_last()) + (digits.last() as u32 - 48)) as nat
    }
}

/// The number that `text` writes, where it is one or more decimal digits
/// with at most a `+` before them.
pub open spec fn unsigned_decimal(text: Seq<char>) -> Option<nat> {
    let digits = if text.len() > 0 && text[0] == '+' {
        text.skip(1)
    } else {
        text
    };
    if digits.len() > 0 && forall|i: int|
        0 <= i < digits.len() ==> is_decimal_digit(#[trigger] digits[i]) {
        Some(digits_value(digits))
    } else {
        None
    }
}

/// What the bytes of a length field say.
pub enum LengthField {
    /// They are no UTF-8 text.
    NotUtf8,
    /// They are text, but no number that a `usize` holds.
    NotInteger,
    /// They write this length.
    Length(nat),
}

/// Reads the bytes of a length field.
pub open spec fn length_field(field: Seq<u8>) -> LengthField {
    if !valid_utf8(field) {
        LengthField::NotUtf8
    } else {
        match unsigned_decimal(decode_utf8(field)) {
            Some(length) => if length <= usize::MAX {
                LengthField::Length(length)
            } else {
                LengthField::NotInteger
            },
            None => LengthField::NotInteger,
        }
    }
}

/// The frame that carries `payload`.
pub open spec fn frame(framing: Framing, payload: Seq<u8>) -> Seq<u8> {
    framing.delimiter + framing.begin_boundary + decimal(payload.len()) + framing.delimiter
        + payload + framing.delimiter + framing.end_boundary + framing.delimiter
}

/// How many bytes the frame of a payload of `length` bytes has.
pub open spec fn frame_width(framing: Framing, length: nat) -> nat {
    4 * framing.delimiter.len() + framing.begin_boundary.len() + framing.end_boundary.len()
        + decimal(length).len() + length
}

/// How one reading of a frame ends.
pub enum Outcome {
    /// A whole frame was read; this is its payload.
    Message(Seq<u8>),
    /// The stream was at its end where the frame would have begun.
    EndOfStream,
    /// The stream ended inside the frame.
    Truncated,
    /// The stream did not open with the delimiter.
    DelimiterMismatch,
    /// The begin boundary did not follow the lead delimiter.
    BeginBoundaryMismatch,
    /// No delimiter closed the length field within the bytes that can be
    /// counted.
    LengthDelimiterNotFound,
    /// The length field was no UTF-8 text.
    LengthFieldNotUtf8,
    /// The length field was no number.
    LengthFieldNotInteger,
}

/// One reading of a frame: how it ends, and the bytes of the stream that it
/// leaves unread.
pub struct Decoded {
    /// How the reading ends.
    pub outcome: Outcome,
    /// The bytes that the reading leaves unread.
    pub rest: Seq<u8>,
}

/// Reads one frame from the front of `stream`.
pub open spec fn decode(framing: Framing, stream: Seq<u8>) -> Decoded {
    let width = framing.delimiter.len() as int;
    if stream.len() == 0 {
        Decoded { outcome: Outcome::EndOfStream, rest: stream }
    } else if stream.len() < width {
        Decoded { outcome: Outcome::Truncated, rest: Seq::empty() }
    } else if stream.take(width) != framing.delimiter {
        Decoded { outcome: Outcome::DelimiterMismatch, rest: stream.skip(width) }
    } else {
        decode_begin_boundary(framing, stream.skip(width))
    }
}

/// Reads a frame on from behind its lead delimiter.
pub open spec fn decode_begin_boundary(framing: Framing, stream: Seq<u8>) -> Decoded {
    let width = framing.begin_boundary.len() as int;
    if stream.len() < width {
        Decoded { outcome: Outcome::Truncated, rest: Seq::empty() }
    } else if stream.take(width) != framing.begin_boundary {
        Decoded { outcome: Outcome::BeginBoundaryMismatch, rest: stream.skip(width) }
    } else {
        decode_length(framing, stream.skip(width))
    }
}

/// Where the length field at the front of `stream` ends, its closing
/// delimiter counted in: just behind the first delimiter, if that lies within
/// the bytes that a `usize` can count.
pub open spec fn length_field_end(framing: Framing, stream: Seq<u8>) -> Option<int> {
    match index_after_first_match(stream, framing.delimiter) {
        Some(after) => if after <= usize::MAX {
            Some(after)
        } else {
            None
        },
        None => None,
    }
}

/// Reads a frame on from its length field.
pub open spec fn decode_length(framing: Framing, stream: Seq<u8>) -> Decoded {
    match length_field_end(framing, stream) {
        Some(after) => {
            match length_field(stream.take(after - framing.delimiter.len())) {
                LengthField::NotUtf8 => Decoded {
                    outcome: Outcome::LengthFieldNotUtf8,
                    rest: stream.skip(after),
                },
                LengthField::NotInteger => Decoded {
                    outcome: Outcome::LengthFieldNotInteger,
                    rest: stream.skip(after),
                },
                LengthField::Length(length) => decode_payload(framing, stream.skip(after), length),
            }
        },
        None => if stream.len() >= usize::MAX {
            Decoded {
                outcome: Outcome::LengthDelimiterNotFound,
                rest: stream.skip(usize::MAX as int),
            }
        } else {
            Decoded { outcome: Outcome::Truncated, rest: Seq::empty() }
        },
    }
}

/// Reads a frame on from its payload of `length` bytes, then passes over
/// the closing bytes by their count alone.
pub open spec fn decode_payload(framing: Framing, stream: Seq<u8>, length: nat) -> Decoded {
    if stream.len() < length + framing.trailer_width() {
        Decoded { outcome: Outcome::Truncated, rest: Seq::empty() }
    } else {
        Decoded {
            outcome: Outcome::Message(stream.take(length as int)),
            rest: stream.skip((length + framing.trailer_width()) as int),
        }
    }
}

/// The digits of `n`.
pub fn decimal_digits(n: usize) -> (digits: Vec<u8>)
    ensures
        digits@ == decimal(n as nat),
    decreases n,
{
    if n < 10 {
        let digit: u8 = 48 + n as u8;
        vec![digit]
    } else {
        let mut digits = decimal_digits(n / 10);
        let digit: u8 = 48 + (n % 10) as u8;
        digits.push(digit);
        digits
    }
}

} // verus!
