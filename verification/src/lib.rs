//! Framed messages over plain byte channels.
//!
//! A payload travels as one frame: the delimiter, the begin boundary, the
//! payload's length in decimal digits, the delimiter, the payload, the
//! delimiter, the end boundary and the delimiter once more. `stream` holds
//! the codec and the types round it, `utils` the searches on sequences that
//! the codec rests on.

pub mod stream;
pub mod utils;
