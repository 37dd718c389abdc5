use ycm_core::lsp::{
    decimal_digits, deliver, frame_header, parse_frame, parse_length, Delivery, Frame, Incoming,
};

#[test]
fn header_gives_the_length() {
    assert_eq!(frame_header(5), b"Content-Length: 5\r\n\r\n".to_vec());
    assert_eq!(frame_header(0), b"Content-Length: 0\r\n\r\n".to_vec());
    assert_eq!(frame_header(1234), b"Content-Length: 1234\r\n\r\n".to_vec());
    assert_eq!(decimal_digits(0), b"0".to_vec());
    assert_eq!(decimal_digits(907), b"907".to_vec());
    assert_eq!(
        decimal_digits(usize::MAX),
        usize::MAX.to_string().into_bytes()
    );
}

#[test]
fn whole_message() {
    let message = b"Content-Length: 5\r\n\r\nhello";
    assert_eq!(
        parse_frame(message),
        Frame::Complete { body_start: 21, content_len: 5 }
    );
    // What follows the content belongs to the next message.
    let two = b"Content-Length: 2\r\n\r\n{}Content-Length: 2\r\n\r\n[]";
    assert_eq!(
        parse_frame(two),
        Frame::Complete { body_start: 21, content_len: 2 }
    );
    assert_eq!(
        parse_frame(&two[23..]),
        Frame::Complete { body_start: 21, content_len: 2 }
    );
    assert_eq!(
        parse_frame(b"Content-Length: 0\r\n\r\n"),
        Frame::Complete { body_start: 21, content_len: 0 }
    );
}

#[test]
fn written_header_is_read_back() {
    for n in [0usize, 1, 9, 10, 99, 4096] {
        let mut message = frame_header(n);
        let header_len = message.len();
        message.extend(std::iter::repeat(b'x').take(n));
        assert_eq!(
            parse_frame(&message),
            Frame::Complete { body_start: header_len, content_len: n }
        );
        if n > 0 {
            message.pop();
            assert_eq!(parse_frame(&message), Frame::Incomplete);
        }
    }
}

#[test]
fn other_headers_are_passed_over() {
    let message =
        b"Content-Type: application/vscode-jsonrpc; charset=utf-8\r\nContent-Length:  12 \r\n\r\n0123456789ab";
    assert_eq!(
        parse_frame(message),
        Frame::Complete { body_start: message.len() - 12, content_len: 12 }
    );
    // The last length counts.
    let message = b"Content-Length: 1\r\nContent-Length: 3\r\n\r\nabc";
    assert_eq!(
        parse_frame(message),
        Frame::Complete { body_start: 40, content_len: 3 }
    );
}

#[test]
fn message_still_on_its_way() {
    assert_eq!(parse_frame(b""), Frame::Incomplete);
    assert_eq!(parse_frame(b"Content-Len"), Frame::Incomplete);
    assert_eq!(parse_frame(b"Content-Length: 5"), Frame::Incomplete);
    assert_eq!(parse_frame(b"Content-Length: 5\r\n"), Frame::Incomplete);
    assert_eq!(parse_frame(b"Content-Length: 5\r\n\r"), Frame::Incomplete);
    assert_eq!(parse_frame(b"Content-Length: 5\r\n\r\n"), Frame::Incomplete);
    assert_eq!(parse_frame(b"Content-Length: 5\r\n\r\nhell"), Frame::Incomplete);
}

#[test]
fn no_message() {
    assert_eq!(parse_frame(b"\r\n{}"), Frame::Malformed);
    assert_eq!(parse_frame(b"Content-Type: x\r\n\r\n{}"), Frame::Malformed);
    assert_eq!(parse_frame(b"Content-Length 5\r\n\r\nhello"), Frame::Malformed);
    assert_eq!(parse_frame(b"Content-Length: five\r\n\r\nhello"), Frame::Malformed);
    assert_eq!(parse_frame(b"Content-Length: \r\n\r\nhello"), Frame::Malformed);
    assert_eq!(parse_frame(b"Content-Length: -5\r\n\r\nhello"), Frame::Malformed);
    assert_eq!(
        parse_frame(b"Content-Length: 99999999999999999999999999\r\n\r\nhello"),
        Frame::Malformed
    );
    // The name of the header is taken as it is written.
    assert_eq!(parse_frame(b"content-length: 5\r\n\r\nhello"), Frame::Malformed);
}

#[test]
fn lengths() {
    let read = |text: &[u8]| parse_length(text, 0, text.len());
    assert_eq!(read(b"42"), Some(42));
    assert_eq!(read(b"  42\t"), Some(42));
    assert_eq!(read(b"+42"), Some(42));
    assert_eq!(read(b"007"), Some(7));
    assert_eq!(read(b""), None);
    assert_eq!(read(b"   "), None);
    assert_eq!(read(b"+"), None);
    assert_eq!(read(b"4 2"), None);
    assert_eq!(read(b"42x"), None);
    assert_eq!(read(usize::MAX.to_string().as_bytes()), Some(usize::MAX));
    assert_eq!(read(b"18446744073709551616"), None);
    assert_eq!(parse_length(b"x12y", 1, 3), Some(12));
}

#[test]
fn deliveries() {
    assert_eq!(deliver(Incoming::Response(Some(7))), Delivery::ToCaller(7));
    assert_eq!(deliver(Incoming::Response(Some(0))), Delivery::ToCaller(0));
    assert_eq!(deliver(Incoming::Response(None)), Delivery::Dropped);
    assert_eq!(deliver(Incoming::Call), Delivery::ToServerRequests);
    assert_eq!(deliver(Incoming::Undecodable), Delivery::Dropped);
}
