//! What is written as frames is read back as it was.

use crate::stream::frame::{
    decimal, decode, decode_payload, digit_byte, digits_value, frame, frame_width,
    is_decimal_digit, length_field, Decoded, LengthField, Outcome,
};
use crate::stream::stream_configuration::Framing;
use crate::utils::{
    index_after_first_match, is_first_match, lemma_first_match_is, lemma_occurs_at_take, occurs_at,
};
use vstd::prelude::*;
use vstd::utf8::{
    encode_utf8, encode_utf8_decode_utf8, encode_utf8_valid_utf8, is_ascii_chars,
    is_ascii_chars_encode_utf8,
};

verus! {

/// The delimiter that closes the length field of a payload of `length` bytes
/// is the first delimiter from the field's start on: no delimiter begins
/// among the digits.
pub open spec fn length_field_is_closed(framing: Framing, length: nat) -> bool {
    is_first_match(
        decimal(length) + framing.delimiter,
        framing.delimiter,
        decimal(length).len() as int,
    )
}

/// `n` in decimal digits, as text.
pub open spec fn decimal_text(n: nat) -> Seq<char>
    decreases n,
{
    if n < 10 {
        seq![digit_byte(n) as char]
    } else {
        decimal_text(n / 10).push(digit_byte(n % 10) as char)
    }
}

/// The digits of `n` are digits, byte for byte those of `decimal`, and they
/// write `n`.
proof fn lemma_decimal_text(n: nat)
    ensures
        decimal_text(n).len() == decimal(n).len(),
        decimal_text(n).len() > 0,
        forall|i: int|
            0 <= i < decimal_text(n).len() ==> {
                &&& is_decimal_digit(#[trigger] decimal_text(n)[i])
                &&& decimal_text(n)[i] as u8 == decimal(n)[i]
            },
        digits_value(decimal_text(n)) == n,
    decreases n,
{
    if n < 10 {
        assert(decimal_text(n).drop_last() =~= Seq::<char>::empty());
        assert(digits_value(Seq::<char>::empty()) == 0);
    } else {
        lemma_decimal_text(n / 10);
        assert(decimal_text(n).drop_last() =~= decimal_text(n / 10));
    }
}

/// The digits of a length are read back as that length.
pub proof fn lemma_length_field_of_decimal(n: nat)
    requires
        n <= usize::MAX,
    ensures
        length_field(decimal(n)) == LengthField::Length(n),
{
    let text = decimal_text(n);
    lemma_decimal_text(n);
    assert(is_ascii_chars(text));
    is_ascii_chars_encode_utf8(text);
    assert(encode_utf8(text) =~= decimal(n));
    encode_utf8_valid_utf8(text);
    encode_utf8_decode_utf8(text);
}

/// One of the bytes that `decimal` writes.
pub open spec fn is_digit_byte(byte: u8) -> bool {
    48 <= byte <= 57
}

/// `at` is the place of the first byte of `bytes` that is no decimal digit.
spec fn is_first_other_than_digit(bytes: Seq<u8>, at: int) -> bool {
    &&& 0 <= at < bytes.len()
    &&& !is_digit_byte(bytes[at])
    &&& forall|before: int| 0 <= before < at ==> is_digit_byte(#[trigger] bytes[before])
}

/// Among the bytes of `bytes` there is a first that is no decimal digit,
/// where there is one at all.
proof fn lemma_first_other_than_digit(bytes: Seq<u8>, at: int) -> (first: int)
    requires
        0 <= at < bytes.len(),
        !is_digit_byte(bytes[at]),
    ensures
        is_first_other_than_digit(bytes, first),
    decreases at,
{
    if exists|before: int| 0 <= before < at && !is_digit_byte(#[trigger] bytes[before]) {
        let before = choose|before: int|
            0 <= before < at && !is_digit_byte(#[trigger] bytes[before]);
        lemma_first_other_than_digit(bytes, before)
    } else {
        at
    }
}

/// A delimiter that holds a byte which is no decimal digit closes every
/// length field.
pub proof fn lemma_delimiter_closes_length_field(framing: Framing, length: nat, at: int)
    requires
        0 <= at < framing.delimiter.len(),
        !is_digit_byte(framing.delimiter[at]),
    ensures
        length_field_is_closed(framing, length),
{
    let digits = decimal(length);
    let delimiter = framing.delimiter;
    let field = digits + delimiter;
    lemma_decimal_text(length);
    assert forall|i: int| 0 <= i < digits.len() implies is_digit_byte(#[trigger] digits[i]) by {
        assert(is_decimal_digit(decimal_text(length)[i]));
    }
    let other = lemma_first_other_than_digit(delimiter, at);
    assert(field.subrange(digits.len() as int, (digits.len() + delimiter.len()) as int)
        =~= delimiter);
    assert forall|earlier: int| 0 <= earlier < digits.len() implies !occurs_at(
        field,
        delimiter,
        earlier,
    ) by {
        if occurs_at(field, delimiter, earlier) {
            let found = field.subrange(earlier, earlier + delimiter.len());
            assert(found[other] == field[earlier + other]);
        }
    }
}

/// The bytes that stand before the payload in the frame of a payload of
/// `length` bytes.
pub open spec fn header(framing: Framing, length: nat) -> Seq<u8> {
    framing.delimiter + framing.begin_boundary + decimal(length) + framing.delimiter
}

/// Behind a header that announces `length` bytes, a reading goes on to the
/// payload, whatever follows the header.
pub proof fn lemma_header_is_read(framing: Framing, length: nat, tail: Seq<u8>)
    requires
        framing.valid(),
        length + framing.delimiter.len() <= usize::MAX,
        length_field_is_closed(framing, length),
    ensures
        decode(framing, header(framing, length) + tail) == decode_payload(framing, tail, length),
{
    let delimiter = framing.delimiter;
    let digits = decimal(length);
    let stream = header(framing, length) + tail;
    let behind_begin = digits + delimiter + tail;
    let behind_lead = framing.begin_boundary + behind_begin;
    assert(stream.take(delimiter.len() as int) =~= delimiter);
    assert(stream.skip(delimiter.len() as int) =~= behind_lead);
    assert(behind_lead.take(framing.begin_boundary.len() as int) =~= framing.begin_boundary);
    assert(behind_lead.skip(framing.begin_boundary.len() as int) =~= behind_begin);
    lemma_decimal_width(length);
    let after = digits.len() + delimiter.len();
    assert(index_after_first_match(behind_begin, delimiter) == Some(after as int)) by {
        let field = digits + delimiter;
        assert(behind_begin.take(after as int) =~= field);
        assert forall|earlier: int| 0 <= earlier < digits.len() implies !occurs_at(
            behind_begin,
            delimiter,
            earlier,
        ) by {
            lemma_occurs_at_take(behind_begin, delimiter, after as int, earlier);
        }
        lemma_occurs_at_take(behind_begin, delimiter, after as int, digits.len() as int);
        lemma_first_match_is(behind_begin, delimiter, digits.len() as int);
    }
    assert(behind_begin.take(digits.len() as int) =~= digits);
    lemma_length_field_of_decimal(length);
    assert(behind_begin.skip(after as int) =~= tail);
}

/// A number has no more digits than it is large, but for the one digit of
/// zero.
proof fn lemma_decimal_width(n: nat)
    ensures
        1 <= decimal(n).len(),
        n > 0 ==> decimal(n).len() <= n,
    decreases n,
{
    if n >= 10 {
        lemma_decimal_width(n / 10);
    }
}

/// Reading the frame of `payload` hands back `payload` and leaves what
/// followed the frame, whatever the payload holds, for every valid framing
/// whose delimiter closes the length field and every payload whose frame can
/// be counted in a `usize`.
pub proof fn lemma_round_trip(framing: Framing, payload: Seq<u8>, rest: Seq<u8>)
    requires
        framing.valid(),
        frame_width(framing, payload.len()) <= usize::MAX,
        length_field_is_closed(framing, payload.len()),
    ensures
        decode(framing, frame(framing, payload) + rest) == (Decoded {
            outcome: Outcome::Message(payload),
            rest,
        }),
{
    let closing = framing.delimiter + framing.end_boundary + framing.delimiter;
    let tail = payload + closing + rest;
    assert(frame(framing, payload) + rest =~= header(framing, payload.len()) + tail);
    lemma_header_is_read(framing, payload.len(), tail);
    assert(tail.take(payload.len() as int) =~= payload);
    assert(tail.skip((payload.len() + framing.trailer_width()) as int) =~= rest);
}

/// A frame whose header announces more bytes than the stream still holds for
/// the payload and what closes the frame is cut short: the reading fails,
/// and hands back no part of the payload.
pub proof fn lemma_truncated_frame(framing: Framing, length: nat, tail: Seq<u8>)
    requires
        framing.valid(),
        length + framing.delimiter.len() <= usize::MAX,
        length_field_is_closed(framing, length),
        tail.len() < length + framing.trailer_width(),
    ensures
        decode(framing, header(framing, length) + tail).outcome == Outcome::Truncated,
{
    lemma_header_is_read(framing, length, tail);
}

/// Where the bytes behind the lead delimiter are not the begin boundary, the
/// reading fails for that, and hands back no payload.
pub proof fn lemma_begin_boundary_mismatch(framing: Framing, found: Seq<u8>, tail: Seq<u8>)
    requires
        framing.valid(),
        found.len() == framing.begin_boundary.len(),
        found != framing.begin_boundary,
    ensures
        decode(framing, framing.delimiter + found + tail).outcome == Outcome::BeginBoundaryMismatch,
{
    let stream = framing.delimiter + found + tail;
    let behind_lead = found + tail;
    assert(stream.take(framing.delimiter.len() as int) =~= framing.delimiter);
    assert(stream.skip(framing.delimiter.len() as int) =~= behind_lead);
    assert(behind_lead.take(framing.begin_boundary.len() as int) =~= found);
}

/// The frames of `payloads`, one behind the other.
pub open spec fn frames(framing: Framing, payloads: Seq<Seq<u8>>) -> Seq<u8>
    decreases payloads.len(),
{
    if payloads.len() == 0 {
        Seq::empty()
    } else {
        frame(framing, payloads.first()) + frames(framing, payloads.drop_first())
    }
}

/// How `times` readings end that follow one another on `stream`, each from
/// where the one before left it.
pub open spec fn decode_times(framing: Framing, stream: Seq<u8>, times: nat) -> Seq<Outcome>
    decreases times,
{
    if times == 0 {
        Seq::empty()
    } else {
        let first = decode(framing, stream);
        seq![first.outcome] + decode_times(framing, first.rest, (times - 1) as nat)
    }
}

/// The messages `payloads`, one after the other, and then the end of the
/// stream.
pub open spec fn messages_then_end(payloads: Seq<Seq<u8>>) -> Seq<Outcome> {
    Seq::new(
        payloads.len() + 1,
        |i: int|
            if i < payloads.len() {
                Outcome::Message(payloads[i])
            } else {
                Outcome::EndOfStream
            },
    )
}

/// Payloads written in order as frames into one stream are read back in that
/// order, one to a reading, and the reading after the last finds the end of
/// the stream.
pub proof fn lemma_sequential_round_trip(framing: Framing, payloads: Seq<Seq<u8>>)
    requires
        framing.valid(),
        forall|i: int|
            0 <= i < payloads.len() ==> {
                &&& frame_width(framing, (#[trigger] payloads[i]).len()) <= usize::MAX
                &&& length_field_is_closed(framing, payloads[i].len())
            },
    ensures
        decode_times(framing, frames(framing, payloads), payloads.len() + 1) == messages_then_end(
            payloads,
        ),
    decreases payloads.len(),
{
    if payloads.len() == 0 {
        assert(decode_times(framing, Seq::<u8>::empty(), 0) =~= Seq::<Outcome>::empty());
    } else {
        let later = payloads.drop_first();
        assert forall|i: int| 0 <= i < later.len() implies {
            &&& frame_width(framing, (#[trigger] later[i]).len()) <= usize::MAX
            &&& length_field_is_closed(framing, later[i].len())
        } by {
            assert(later[i] == payloads[i + 1]);
        }
        lemma_round_trip(framing, payloads.first(), frames(framing, later));
        lemma_sequential_round_trip(framing, later);
    }
}

} // verus!
