use dowe_language_server::protocol::{
    error_message, frame_body, frame_message, header_line, message_from_body,
    message_from_value, notification_message, response_message, HeaderLine,
};

#[test]
fn header_lines_set_the_length_and_end_at_a_blank_line() {
    assert_eq!(header_line(None, "Content-Length: 42\r\n").unwrap(), HeaderLine::Continue(Some(42)));
    assert_eq!(header_line(None, "Content-Length:7").unwrap(), HeaderLine::Continue(Some(7)));
    assert_eq!(header_line(None, "Content-Length:  +8 \r\n").unwrap(), HeaderLine::Continue(Some(8)));
    assert_eq!(
        header_line(Some(5), "Content-Type: application/vscode-jsonrpc\r\n").unwrap(),
        HeaderLine::Continue(Some(5))
    );
    assert_eq!(header_line(Some(5), "\r\n").unwrap(), HeaderLine::Body(5));
    assert_eq!(header_line(None, "\n").unwrap(), HeaderLine::NoMessage);
    assert_eq!(header_line(None, "\r\r\n\n").unwrap(), HeaderLine::NoMessage);
    assert_eq!(header_line(Some(0), "").unwrap(), HeaderLine::Body(0));
}

#[test]
fn a_bad_content_length_is_an_error() {
    assert!(header_line(None, "Content-Length: abc\r\n").is_err());
    assert!(header_line(None, "Content-Length: -1\r\n").is_err());
    assert!(header_line(None, "Content-Length: \r\n").is_err());
    assert!(header_line(None, "Content-Length: 99999999999999999999999\r\n").is_err());
    // The field name is matched exactly.
    assert_eq!(header_line(Some(3), "content-length: 9\r\n").unwrap(), HeaderLine::Continue(Some(3)));
}

#[test]
fn messages_are_read_out_of_their_body() {
    let m = message_from_body(br#"{"jsonrpc":"2.0","id":1,"method":"initialize","params":{"rootUri":null}}"#)
        .unwrap();
    assert_eq!(m.id.unwrap().to_string(), "1");
    assert_eq!(m.method.as_deref(), Some("initialize"));
    assert_eq!(m.params.to_string(), r#"{"rootUri":null}"#);

    let n = message_from_body(br#"{"method":7}"#).unwrap();
    assert!(n.id.is_none());
    assert!(n.method.is_none());
    assert!(n.params.is_null());

    assert!(message_from_body(b"{not json").is_err());
}

#[test]
fn messages_carry_the_jsonrpc_version() {
    assert_eq!(
        response_message(serde_json::Value::from(3u64), serde_json::Value::Null).to_string(),
        r#"{"id":3,"jsonrpc":"2.0","result":null}"#
    );
    assert_eq!(
        error_message(serde_json::Value::from("a"), -32601, "method not found").to_string(),
        r#"{"error":{"code":-32601,"message":"method not found"},"id":"a","jsonrpc":"2.0"}"#
    );
    assert_eq!(
        notification_message("window/logMessage", serde_json::Value::from(1u64)).to_string(),
        r#"{"jsonrpc":"2.0","method":"window/logMessage","params":1}"#
    );
}

#[test]
fn frames_start_with_the_content_length() {
    let framed = frame_message(&response_message(serde_json::Value::from(3u64), serde_json::Value::Null));
    let body = r#"{"id":3,"jsonrpc":"2.0","result":null}"#;
    assert_eq!(String::from_utf8(framed).unwrap(), format!("Content-Length: {}\r\n\r\n{}", body.len(), body));
}

#[test]
fn a_frame_header_reads_back_as_its_body_length() {
    for length in [0usize, 9, 10, 1234, usize::MAX] {
        let line = format!("Content-Length: {}\r\n", length);
        assert_eq!(header_line(None, &line).unwrap(), HeaderLine::Continue(Some(length)));
    }
}

#[test]
fn messages_are_read_out_of_values() {
    let value: serde_json::Value =
        serde_json::from_str(r#"{"id":"x","method":"initialize","params":[1]}"#).unwrap();
    let message = message_from_value(&value);
    assert_eq!(message.id, Some(serde_json::Value::from("x")));
    assert_eq!(message.method.as_deref(), Some("initialize"));
    assert_eq!(message.params.to_string(), "[1]");
    let bare = message_from_value(&serde_json::Value::from(3u64));
    assert!(bare.id.is_none());
    assert!(bare.method.is_none());
    assert!(bare.params.is_null());
    let odd: serde_json::Value = serde_json::from_str(r#"{"method":5}"#).unwrap();
    assert!(message_from_value(&odd).method.is_none());
}

#[test]
fn bodies_are_framed_by_their_length() {
    assert_eq!(frame_body(b"{}".to_vec()), b"Content-Length: 2\r\n\r\n{}".to_vec());
    assert_eq!(frame_body(Vec::new()), b"Content-Length: 0\r\n\r\n".to_vec());
    let long = vec![b'a'; 1234];
    let framed = frame_body(long.clone());
    assert_eq!(&framed[..24], b"Content-Length: 1234\r\n\r\n");
    assert_eq!(&framed[24..], &long[..]);
}

#[test]
fn header_values_are_trimmed_of_unicode_white_space() {
    assert_eq!(
        header_line(None, "Content-Length:\u{a0}12\u{3000}\t\r\n").unwrap(),
        HeaderLine::Continue(Some(12))
    );
    assert_eq!(header_line(Some(3), "Content-Length \r\n").unwrap(), HeaderLine::Continue(Some(3)));
    assert_eq!(header_line(Some(3), "content-length: 9\r\n").unwrap(), HeaderLine::Continue(Some(3)));
    assert!(header_line(None, "Content-Length: \u{2028}\r\n").is_err());
}
