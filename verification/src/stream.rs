//! The codec, its configuration, its errors and the types that hold a channel.
//!
//! `frame` says what a frame is and what a reader makes of a stream of bytes;
//! `round_trip` proves that the two fit. `channel` says what the codec asks
//! of a channel.

pub mod channel;
mod dual_stream;
mod error;
pub mod frame;
mod internal_reading_code;
mod read_stream;
pub mod round_trip;
mod stream_configuration;
mod write_stream;

pub use self::channel::{ChannelRead, ChannelWrite, MemoryChannel};
pub use self::dual_stream::DualMessenger;
pub use self::error::{Error, ErrorKind};
pub use self::frame::decimal_digits;
pub use self::internal_reading_code::{
    begin_boundary_read, lead_delimiter_read, length_from_field, read_exact,
    read_message_from_reader, reports,
};
pub use self::read_stream::MessageReader;
pub use self::stream_configuration::{Framing, StreamConfiguration};
pub use self::write_stream::{frame_fits, whole_segment, MessageWriter};
