//! The tokens that frame a message.

use vstd::prelude::*;
use vstd::utf8::encode_utf8;

verus! {

/// What a configuration holds, as the codec sees it: the three tokens as
/// bytes, and the reserved flag.
pub struct Framing {
    /// The token that stands round every field of a frame.
    pub delimiter: Seq<u8>,
    /// The token that opens a frame, behind the lead delimiter.
    pub begin_boundary: Seq<u8>,
    /// The token that closes a frame, between its last two delimiters.
    pub end_boundary: Seq<u8>,
    /// The reserved flag. Nothing depends on it.
    pub hashing_reserved: bool,
}

impl Framing {
    /// How many bytes close a frame behind the payload: the delimiter, the
    /// end boundary and the delimiter again.
    pub open spec fn trailer_width(self) -> nat {
        2 * self.delimiter.len() + self.end_boundary.len()
    }

    /// No token is empty, and the closing bytes can be counted in a `usize`.
    pub open spec fn valid(self) -> bool {
        &&& self.delimiter.len() > 0
        &&& self.begin_boundary.len() > 0
        &&& self.end_boundary.len() > 0
        &&& self.trailer_width() <= usize::MAX
    }

    /// The framing that the three texts and the flag make.
    pub open spec fn of(
        delimiter: Seq<char>,
        begin_boundary: Seq<char>,
        end_boundary: Seq<char>,
        hashing_reserved: bool,
    ) -> Framing {
        Framing {
            delimiter: encode_utf8(delimiter),
            begin_boundary: encode_utf8(begin_boundary),
            end_boundary: encode_utf8(end_boundary),
            hashing_reserved,
        }
    }
}

/// The tokens of a stream of frames. A value is made once and read from then
/// on; every value is valid.
#[derive(Debug, PartialEq)]
pub struct StreamConfiguration {
    pub(crate) delimiter_string: String,
    pub(crate) beginning_boundary: String,
    pub(crate) ending_boundary: String,
    pub(crate) hashing_enabled: bool,
}

impl View for StreamConfiguration {
    type V = Framing;

    closed spec fn view(&self) -> Framing {
        Framing::of(
            self.delimiter_string@,
            self.beginning_boundary@,
            self.ending_boundary@,
            self.hashing_enabled,
        )
    }
}

impl Clone for StreamConfiguration {
    fn clone(&self) -> (copy: StreamConfiguration)
        ensures
            copy@ == self@,
    {
        proof {
            use_type_invariant(self);
        }
        StreamConfiguration {
            delimiter_string: self.delimiter_string.clone(),
            beginning_boundary: self.beginning_boundary.clone(),
            ending_boundary: self.ending_boundary.clone(),
            hashing_enabled: self.hashing_enabled,
        }
    }
}

impl StreamConfiguration {
    /// What holds of every configuration: its tokens make a valid framing.
    #[verifier::type_invariant]
    pub open spec fn well_formed(&self) -> bool {
        self@.valid()
    }

    /// A configuration of the three tokens, unless one of them is empty or
    /// the closing bytes of a frame would be too many to count.
    pub fn new(
        delimiter_string: String,
        beginning_boundary: String,
        ending_boundary: String,
        hashing_enabled: bool,
    ) -> (made: Option<StreamConfiguration>)
        ensures
            made is Some <==> Framing::of(
                delimiter_string@,
                beginning_boundary@,
                ending_boundary@,
                hashing_enabled,
            ).valid(),
            made matches Some(configuration) ==> configuration@ == Framing::of(
                delimiter_string@,
                beginning_boundary@,
                ending_boundary@,
                hashing_enabled,
            ),
    {
        let delimiter_width = delimiter_string.as_str().as_bytes().len();
        let begin_width = beginning_boundary.as_str().as_bytes().len();
        let end_width = ending_boundary.as_str().as_bytes().len();
        if delimiter_width == 0 || begin_width == 0 || end_width == 0 {
            return None;
        }
        if delimiter_width > (usize::MAX - end_width) / 2 {
            return None;
        }
        Some(
            StreamConfiguration {
                delimiter_string,
                beginning_boundary,
                ending_boundary,
                hashing_enabled,
            },
        )
    }

    /// The delimiter, as bytes.
    pub(crate) fn delimiter(&self) -> (bytes: &[u8])
        ensures
            bytes@ == self@.delimiter,
            self@.valid(),
    {
        proof {
            use_type_invariant(self);
        }
        self.delimiter_string.as_str().as_bytes()
    }

    /// The begin boundary, as bytes.
    pub(crate) fn begin_boundary(&self) -> (bytes: &[u8])
        ensures
            bytes@ == self@.begin_boundary,
            self@.valid(),
    {
        proof {
            use_type_invariant(self);
        }
        self.beginning_boundary.as_str().as_bytes()
    }

    /// The end boundary, as bytes.
    pub(crate) fn end_boundary(&self) -> (bytes: &[u8])
        ensures
            bytes@ == self@.end_boundary,
            self@.valid(),
    {
        proof {
            use_type_invariant(self);
        }
        self.ending_boundary.as_str().as_bytes()
    }
}

} // verus!
