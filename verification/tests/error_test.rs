use messenger_plus::stream::{Error, ErrorKind, StreamConfiguration};
use std::io;

fn bad_number() -> std::num::ParseIntError {
    "".parse::<usize>().unwrap_err()
}

fn other_bad_number() -> std::num::ParseIntError {
    "x".parse::<usize>().unwrap_err()
}

fn bad_text() -> std::string::FromUtf8Error {
    String::from_utf8(vec![0xc0]).unwrap_err()
}

fn kinds() -> Vec<ErrorKind> {
    vec![
        ErrorKind::IntParseError(bad_number()),
        ErrorKind::IOError(io::Error::from(io::ErrorKind::NotFound)),
        ErrorKind::NotUTF8(bad_text()),
        ErrorKind::BufferDoesntContainDelimiter,
        ErrorKind::BeginningDoesntMatch,
        ErrorKind::DelimiterDoesntMatch,
        ErrorKind::BufferEmpty,
    ]
}

#[test]
fn a_kind_equals_itself_and_no_other() {
    let left = kinds();
    let right = kinds();
    for i in 0..left.len() {
        for j in 0..right.len() {
            assert_eq!(left[i] == right[j], i == j);
        }
    }
}

#[test]
fn what_a_kind_wraps_is_not_compared() {
    assert!(
        ErrorKind::IOError(io::Error::from(io::ErrorKind::NotFound))
            == ErrorKind::IOError(io::Error::from(io::ErrorKind::TimedOut))
    );
    assert!(
        ErrorKind::IntParseError(bad_number()) == ErrorKind::IntParseError(other_bad_number())
    );
    assert!(
        Error::from(io::Error::from(io::ErrorKind::NotFound))
            == Error::from(io::Error::from(io::ErrorKind::TimedOut))
    );
}

#[test]
fn errors_are_equal_when_their_kinds_are() {
    let errors = || kinds().into_iter().map(Error::from).collect::<Vec<Error>>();
    let left = errors();
    let right = errors();
    for i in 0..left.len() {
        for j in 0..right.len() {
            assert_eq!(left[i] == right[j], i == j);
        }
    }
    assert!(left[0] == Error::from(other_bad_number()));
    assert!(left[1] == Error::from(io::Error::from(io::ErrorKind::Other)));
    assert!(left[2] == Error::from(bad_text()));
    assert!(Error::from(ErrorKind::BufferEmpty) == Error::from(ErrorKind::BufferEmpty));
    assert!(Error::from(ErrorKind::BufferEmpty) != Error::from(ErrorKind::DelimiterDoesntMatch));
}

#[test]
fn an_error_is_made_of_what_it_wraps() {
    match Error::from(io::Error::from(io::ErrorKind::TimedOut)).into_kind() {
        ErrorKind::IOError(fault) => assert_eq!(fault.kind(), io::ErrorKind::TimedOut),
        other => panic!("{:?}", other),
    }
    match Error::from(bad_number()).into_kind() {
        ErrorKind::IntParseError(fault) => assert_eq!(fault, bad_number()),
        other => panic!("{:?}", other),
    }
    match Error::from(bad_text()).into_kind() {
        ErrorKind::NotUTF8(fault) => assert_eq!(fault, bad_text()),
        other => panic!("{:?}", other),
    }
    match Error::from(ErrorKind::BeginningDoesntMatch).into_kind() {
        ErrorKind::BeginningDoesntMatch => {}
        other => panic!("{:?}", other),
    }
}

#[test]
fn what_an_error_says() {
    assert_eq!(
        Error::from(ErrorKind::BufferDoesntContainDelimiter).to_string(),
        "The acclimater buffer doesn't contain the delimiter"
    );
    assert_eq!(
        Error::from(ErrorKind::BeginningDoesntMatch).to_string(),
        "The beginning segments do not match"
    );
    assert_eq!(Error::from(ErrorKind::DelimiterDoesntMatch).to_string(), "The delimiters do not match");
    assert_eq!(Error::from(ErrorKind::BufferEmpty).to_string(), "The buffer is empty");
    assert_eq!(Error::from(bad_number()).to_string(), bad_number().to_string());
    assert_eq!(Error::from(bad_text()).to_string(), bad_text().to_string());
    assert_eq!(
        Error::from(io::Error::from(io::ErrorKind::UnexpectedEof)).to_string(),
        io::Error::from(io::ErrorKind::UnexpectedEof).to_string()
    );
}

#[test]
fn a_configuration_needs_three_tokens() {
    let some = |d: &str, b: &str, e: &str| {
        StreamConfiguration::new(String::from(d), String::from(b), String::from(e), false).is_some()
    };
    assert!(some("--", "bound", "endbound"));
    assert!(some("-", "b", "e"));
    assert!(some("same", "same", "same"));
    assert!(!some("", "bound", "endbound"));
    assert!(!some("--", "", "endbound"));
    assert!(!some("--", "bound", ""));
    assert!(!some("", "", ""));
}

#[test]
fn a_configuration_is_copied_whole() {
    let configuration = StreamConfiguration::new(
        String::from("--"),
        String::from("bound"),
        String::from("endbound"),
        true,
    )
    .unwrap();
    let copy = configuration.clone();
    assert_eq!(copy, configuration);
    let other = StreamConfiguration::new(
        String::from("--"),
        String::from("bound"),
        String::from("endbound"),
        false,
    )
    .unwrap();
    assert_ne!(other, configuration);
}
