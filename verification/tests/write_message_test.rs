use messenger_plus::stream::{ChannelWrite, MessageWriter, StreamConfiguration};
use std::io::Result;

#[derive(Debug)]
struct RandomWrite {
    info: Vec<u8>,
}

impl RandomWrite {
    fn new() -> RandomWrite {
        RandomWrite { info: Vec::new() }
    }
}

impl ChannelWrite for RandomWrite {
    fn write(&mut self, buf: &[u8]) -> Result<usize> {
        let mut count = 0;
        for i in buf {
            self.info.push(*i);
            count = count + 1;
        }
        Ok(count)
    }

    fn flush(&mut self) -> Result<()> {
        Ok(())
    }
}

/// Takes one byte of every write.
struct Trickle {
    info: Vec<u8>,
}

impl ChannelWrite for Trickle {
    fn write(&mut self, buf: &[u8]) -> Result<usize> {
        match buf.first() {
            Some(byte) => {
                self.info.push(*byte);
                Ok(1)
            }
            None => Ok(0),
        }
    }

    fn flush(&mut self) -> Result<()> {
        Ok(())
    }
}

/// Fails every write.
struct Broken;

impl ChannelWrite for Broken {
    fn write(&mut self, _buf: &[u8]) -> Result<usize> {
        Err(std::io::Error::from(std::io::ErrorKind::BrokenPipe))
    }

    fn flush(&mut self) -> Result<()> {
        Err(std::io::Error::from(std::io::ErrorKind::BrokenPipe))
    }
}

#[test]
fn writes_message_properly() {
    let writer = RandomWrite::new();
    let buf: &[u8] = "hello, world!".as_ref();
    let mut message_writer = MessageWriter::new(
        String::from("--"),
        String::from("bound"),
        String::from("endbound"),
        writer,
        false,
    )
    .unwrap();
    let _ = message_writer.write(buf);

    let mut text = String::from("--bound");
    text.push_str(buf.len().to_string().as_str());
    text.push_str("--hello, world!--endbound--");
    let payload_vec = Vec::from(text);

    assert_eq!(message_writer.get_writer().info, payload_vec);
}

#[test]
fn write_tells_the_bytes_of_the_frame() {
    let mut message_writer = MessageWriter::new(
        String::from("--"),
        String::from("bound"),
        String::from("endbound"),
        RandomWrite::new(),
        false,
    )
    .unwrap();
    assert_eq!(message_writer.write(b"hello, world!").unwrap(), 36);
    assert_eq!(
        message_writer.get_writer().info,
        Vec::from("--bound13--hello, world!--endbound--")
    );
    assert_eq!(message_writer.write(b"").unwrap(), 22);
    assert!(message_writer.flush().is_ok());
    assert_eq!(
        message_writer.get_writer().info,
        Vec::from("--bound13--hello, world!--endbound----bound0----endbound--")
    );
}

#[test]
fn a_short_write_fails_the_call() {
    let config = StreamConfiguration::new(
        String::from("--"),
        String::from("bound"),
        String::from("endbound"),
        false,
    )
    .unwrap();
    let mut message_writer = MessageWriter::new_from_config(config, Trickle { info: Vec::new() });
    let outcome = message_writer.write(b"hello");
    assert_eq!(outcome.unwrap_err().kind(), std::io::ErrorKind::WriteZero);
    // the channel took one byte of the first segment, and nothing was written after that
    assert_eq!(message_writer.get_writer().info, Vec::from("-"));
}

#[test]
fn a_failing_channel_fails_the_call_with_its_own_error() {
    let mut message_writer = MessageWriter::new(
        String::from("--"),
        String::from("bound"),
        String::from("endbound"),
        Broken,
        false,
    )
    .unwrap();
    assert_eq!(
        message_writer.write(b"hello").unwrap_err().kind(),
        std::io::ErrorKind::BrokenPipe
    );
    assert_eq!(message_writer.flush().unwrap_err().kind(), std::io::ErrorKind::BrokenPipe);
}

#[test]
fn writer_rejects_empty_tokens() {
    assert!(MessageWriter::new(
        String::from("--"),
        String::from("bound"),
        String::new(),
        RandomWrite::new(),
        false
    )
    .is_none());
}

#[test]
fn the_reserved_flag_changes_nothing_on_the_wire() {
    let mut wires = Vec::new();
    for flag in [false, true] {
        let mut message_writer = MessageWriter::new(
            String::from("--"),
            String::from("bound"),
            String::from("endbound"),
            RandomWrite::new(),
            flag,
        )
        .unwrap();
        assert_eq!(message_writer.write(b"payload").unwrap(), 29);
        wires.push(message_writer.get_writer().info.clone());
    }
    assert_eq!(wires[0], wires[1]);
    assert_eq!(wires[0], Vec::from("--bound7--payload--endbound--"));
}
