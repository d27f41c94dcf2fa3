use prompted::{LineBuffer, ReadEvent, ReadStep, ReadlnError};

#[test]
fn line_buffer_collects_until_line_feed() {
    let mut buffer = LineBuffer::new();
    for byte in [b'h', b'i'] {
        match buffer.feed(ReadEvent::Byte(byte)) {
            ReadStep::Pending(longer) => buffer = longer,
            ReadStep::Done(_) => panic!("line ended early"),
        }
    }
    match buffer.feed(ReadEvent::Byte(b'\n')) {
        ReadStep::Done(outcome) => assert_eq!(outcome.unwrap(), "hi\n"),
        ReadStep::Pending(_) => panic!("line feed did not end the line"),
    }
}

#[test]
fn line_buffer_ends_with_the_source() {
    let buffer = LineBuffer::new();
    let buffer = match buffer.feed(ReadEvent::Byte(b'x')) {
        ReadStep::Pending(longer) => longer,
        ReadStep::Done(_) => panic!("line ended early"),
    };
    match buffer.feed(ReadEvent::End) {
        ReadStep::Done(outcome) => assert_eq!(outcome.unwrap(), "x"),
        ReadStep::Pending(_) => panic!("end of source did not end the line"),
    }
}

#[test]
fn line_buffer_of_exhausted_source_gives_empty_line() {
    match LineBuffer::new().feed(ReadEvent::End) {
        ReadStep::Done(outcome) => assert_eq!(outcome.unwrap(), ""),
        ReadStep::Pending(_) => panic!("end of source did not end the line"),
    }
}

#[test]
fn line_buffer_keeps_carriage_return() {
    let buffer = LineBuffer::new();
    let buffer = match buffer.feed(ReadEvent::Byte(b'\r')) {
        ReadStep::Pending(longer) => longer,
        ReadStep::Done(_) => panic!("carriage return ended the line"),
    };
    match buffer.feed(ReadEvent::Byte(b'\n')) {
        ReadStep::Done(outcome) => assert_eq!(outcome.unwrap(), "\r\n"),
        ReadStep::Pending(_) => panic!("line feed did not end the line"),
    }
}

#[test]
fn line_buffer_reports_failed_source() {
    let buffer = LineBuffer::new();
    let buffer = match buffer.feed(ReadEvent::Byte(b'x')) {
        ReadStep::Pending(longer) => longer,
        ReadStep::Done(_) => panic!("line ended early"),
    };
    let cause = std::io::Error::new(std::io::ErrorKind::BrokenPipe, "pipe closed");
    match buffer.feed(ReadEvent::Failed(cause)) {
        ReadStep::Done(Err(ReadlnError::Io(error))) => {
            assert_eq!(error.kind(), std::io::ErrorKind::BrokenPipe);
            assert_eq!(error.to_string(), "pipe closed");
        }
        other => panic!("unexpected step {:?}", other),
    }
}

#[test]
fn line_buffer_reports_invalid_utf8() {
    let buffer = LineBuffer::new();
    let buffer = match buffer.feed(ReadEvent::Byte(0x80)) {
        ReadStep::Pending(longer) => longer,
        ReadStep::Done(_) => panic!("line ended early"),
    };
    match buffer.feed(ReadEvent::End) {
        ReadStep::Done(Err(ReadlnError::Utf8(error))) => {
            assert_eq!(error.as_bytes(), &[0x80]);
        }
        other => panic!("unexpected step {:?}", other),
    }
}

#[test]
fn error_from_io_error_is_io() {
    let cause = std::io::Error::new(std::io::ErrorKind::UnexpectedEof, "short");
    let error = ReadlnError::from(cause);
    assert!(matches!(error, ReadlnError::Io(_)));
    assert!(error.io_cause().is_some());
    assert!(error.utf8_cause().is_none());
    assert_eq!(error.io_cause().unwrap().kind(), std::io::ErrorKind::UnexpectedEof);
}

#[test]
fn error_from_utf8_error_is_utf8() {
    let cause = String::from_utf8(vec![b'a', 0xff]).unwrap_err();
    let error = ReadlnError::from(cause);
    assert!(matches!(error, ReadlnError::Utf8(_)));
    assert!(error.io_cause().is_none());
    assert_eq!(error.utf8_cause().unwrap().as_bytes(), &[b'a', 0xff]);
}

#[test]
fn message_of_io_error_names_kind_and_cause() {
    let cause = std::io::Error::new(std::io::ErrorKind::Other, "device gone");
    let error = ReadlnError::Io(cause);
    assert_eq!(error.message(), "readln: io error: device gone");
}

#[test]
fn message_of_utf8_error_names_kind_and_cause() {
    let cause = String::from_utf8(vec![b'a', 0xff]).unwrap_err();
    let words = cause.to_string();
    let error = ReadlnError::Utf8(cause);
    assert_eq!(error.message(), format!("readln: utf8 error: {}", words));
    assert!(error.message().starts_with("readln: utf8 error: invalid utf-8"));
}

#[test]
fn message_with_joins_prefix_and_cause() {
    let io = ReadlnError::Io(std::io::Error::new(std::io::ErrorKind::Other, "x"));
    assert_eq!(io.message_with("gone"), "readln: io error: gone");
    assert_eq!(io.message_with(""), "readln: io error: ");
    let utf8 = ReadlnError::Utf8(String::from_utf8(vec![0xc0]).unwrap_err());
    assert_eq!(utf8.message_with("bad byte"), "readln: utf8 error: bad byte");
}
