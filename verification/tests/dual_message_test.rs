use messenger_plus::stream::{ChannelRead, ChannelWrite, DualMessenger};
use std::io::Result;

#[derive(Debug)]
struct RandomReadWrite {
    info: Vec<u8>,
}

impl RandomReadWrite {
    fn new() -> RandomReadWrite {
        RandomReadWrite { info: Vec::new() }
    }
}

impl ChannelWrite for RandomReadWrite {
    fn write(&mut self, buf: &[u8]) -> Result<usize> {
        let mut count = 0;
        for i in buf {
            self.info.push(*i);
            count = count + 1;
        }
        Ok(count)
    }

    fn flush(&mut self) -> Result<()> {
        Ok(())
    }
}

impl ChannelRead for RandomReadWrite {
    fn read(&mut self, limit: usize) -> Result<Vec<u8>> {
        let mut buf = Vec::new();
        for _ in 0..limit {
            if self.info.is_empty() {
                return Ok(buf);
            }
            buf.push(self.info.remove(0));
        }
        Ok(buf)
    }
}

fn messenger() -> DualMessenger<RandomReadWrite> {
    DualMessenger::new(
        String::from("--"),
        String::from("bound"),
        String::from("endbound"),
        RandomReadWrite::new(),
        false,
    )
    .unwrap()
}

#[test]
fn dual_messenger_test() {
    let mut message_reader = messenger();
    let buf: &[u8] = "hello, world!".as_ref();

    assert_eq!(
        message_reader.write(buf).unwrap(),
        Vec::from("--bound12--hello, world!--endbound--").len()
    );
    assert_eq!(message_reader.read_next_message().ok(), Some(Vec::from("hello, world!")));
    assert_eq!(message_reader.read_next_message().ok(), None);
}

#[test]
fn dual_message_multi_test() {
    let mut message_reader = messenger();
    let buf: &[u8] = "hello, world!".as_ref();

    assert_eq!(
        message_reader.write(buf).unwrap(),
        Vec::from("--bound12--hello, world!--endbound--").len()
    );
    assert_eq!(
        message_reader.write(buf).unwrap(),
        Vec::from("--bound12--hello, world!--endbound--").len()
    );
    assert_eq!(
        message_reader.write(buf).unwrap(),
        Vec::from("--bound12--hello, world!--endbound--").len()
    );
    assert_eq!(message_reader.read_next_message().ok(), Some(Vec::from("hello, world!")));
    assert_eq!(message_reader.read_next_message().ok(), Some(Vec::from("hello, world!")));
    assert_eq!(message_reader.read_next_message().ok(), Some(Vec::from("hello, world!")));
    assert_eq!(message_reader.read_next_message().ok(), None);
}

#[test]
fn dual_messenger_release_gives_the_channel_back() {
    let mut messenger = messenger();
    assert_eq!(messenger.write(b"ab").unwrap(), 24);
    assert!(messenger.flush().is_ok());
    let channel = messenger.release();
    assert_eq!(channel.info, Vec::from("--bound2--ab--endbound--"));
}

#[test]
fn dual_messenger_takes_a_configuration() {
    let config = messenger_plus::stream::StreamConfiguration::new(
        String::from("|"),
        String::from("<"),
        String::from(">"),
        true,
    )
    .unwrap();
    let mut messenger = DualMessenger::new_from_config(config, RandomReadWrite::new());
    assert_eq!(messenger.write(b"").unwrap(), 7);
    assert_eq!(messenger.write(b"xyz").unwrap(), 10);
    assert_eq!(messenger.read_next_message().ok(), Some(Vec::new()));
    assert_eq!(messenger.read_next_message().ok(), Some(Vec::from("xyz")));
    assert_eq!(messenger.read_next_message().ok(), None);
}

#[test]
fn dual_messenger_rejects_empty_tokens() {
    assert!(DualMessenger::new(
        String::from("--"),
        String::new(),
        String::from("endbound"),
        RandomReadWrite::new(),
        false
    )
    .is_none());
}
