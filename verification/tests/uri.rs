use dowe_language_server::uri::{
    decode_bytes, decode_path, encode_path, escapes_lie_on_boundaries, is_uri_decodable, path_to_uri,
    uri_to_path,
};

#[test]
fn round_trips_file_uri_with_spaces() {
    let path = "/tmp/dowe project/src/views.dowe";
    let uri = path_to_uri(path);

    assert_eq!(uri, "file:///tmp/dowe%20project/src/views.dowe");
    assert_eq!(uri_to_path(&uri).expect("path"), path);
}

#[test]
fn encodes_reserved_and_non_ascii_bytes_in_upper_case_hex() {
    assert_eq!(encode_path("/a b/é#?%"), "/a%20b/%C3%A9%23%3F%25");
    assert_eq!(encode_path("AZaz09/.-_~"), "AZaz09/.-_~");
    assert_eq!(encode_path(""), "");
}

#[test]
fn windows_paths_get_slashes_and_a_leading_slash() {
    assert_eq!(path_to_uri("C:\\work\\my app\\main.dowe"), "file:///C%3A/work/my%20app/main.dowe");
    assert_eq!(path_to_uri("relative/file.dowe"), "file:///relative/file.dowe");
    assert_eq!(path_to_uri(""), "file:///");
}

#[test]
fn round_trips_non_ascii_paths() {
    let path = "/home/zoë/プロジェクト/a+b%c.dowe";
    let uri = path_to_uri(path);
    assert!(uri.is_ascii());
    assert_eq!(uri_to_path(&uri).expect("path"), path);
}

#[test]
fn decodes_escapes_in_either_case_and_keeps_invalid_ones() {
    assert_eq!(decode_path("/a%2fb%2Fc"), "/a/b/c");
    assert_eq!(decode_path("/100%"), "/100%");
    assert_eq!(decode_path("/50%25"), "/50%");
    assert_eq!(decode_path("%zz%4"), "%zz%4");
    assert_eq!(decode_path("%41%"), "A%");
}

#[test]
fn an_escape_may_start_with_a_plus_sign() {
    // `u8::from_str_radix` accepts a leading `+`.
    assert_eq!(decode_path("%+41"), "\u{4}1");
    assert_eq!(decode_path("%+"), "%+");
}

#[test]
fn invalid_utf8_after_decoding_becomes_replacement_characters() {
    assert_eq!(decode_path("/%FF/%C3%A9"), "/\u{FFFD}/é");
}

#[test]
fn only_file_uris_have_paths() {
    assert_eq!(uri_to_path("http://example.com/a"), None);
    assert_eq!(uri_to_path("file:/tmp/a"), None);
    assert_eq!(uri_to_path("file://"), Some(String::new()));
    assert_eq!(uri_to_path("file://host/share"), Some("host/share".to_string()));
}

#[test]
fn escapes_must_lie_on_character_boundaries() {
    assert!(escapes_lie_on_boundaries("%C3%A9"));
    assert!(escapes_lie_on_boundaries("%é"));
    assert!(!escapes_lie_on_boundaries("%xé"));
    assert!(escapes_lie_on_boundaries("%éx"));
    assert!(is_uri_decodable("file:///a%20b"));
    assert!(!is_uri_decodable("file:///%xéy"));
    assert!(is_uri_decodable("untitled:%xéy"));
}

#[test]
fn a_path_and_its_normal_form_have_the_same_uri() {
    for path in ["a\\b c", "/a/b c", "C:\\x", "", "\\\\server\\share"] {
        let uri = path_to_uri(path);
        let normal = uri_to_path(&uri).expect("path");
        assert_eq!(path_to_uri(&normal), uri, "{:?}", path);
    }
    assert_eq!(path_to_uri("a\\b c"), path_to_uri("/a/b c"));
}

#[test]
fn escapes_decode_to_the_bytes_they_denote() {
    assert_eq!(decode_bytes("/a%20b"), b"/a b".to_vec());
    assert_eq!(decode_bytes("%ff%FE%zz%4"), vec![0xff, 0xfe, b'%', b'z', b'z', b'%', b'4']);
    assert_eq!(decode_bytes("%+9x"), vec![9, b'x']);
    assert_eq!(decode_bytes(""), Vec::<u8>::new());
}
