use lair_config::BinDataSized;
use lair_config::ConnectionScheme;
use lair_config::ConnectionUrl;
use lair_config::LairError;
use lair_config::config::get_connection_path;
use lair_config::conn_url::get_server_pub_key_from_connection_url;

#[test]
fn url_round_trip_unix() {
    let pk = BinDataSized::<32>::from_slice(&[7u8; 32]).unwrap();
    let u = ConnectionUrl::with_server_pub_key(
        ConnectionScheme::Unix,
        b"/tmp/x/socket".to_vec(),
        &pk,
    );
    let text = u.to_bytes();
    let expected = format!("unix:///tmp/x/socket?k={}", "07".repeat(32));
    assert_eq!(text, expected.as_bytes());

    let parsed = ConnectionUrl::parse(&text).unwrap();
    assert_eq!(parsed.scheme_kind(), ConnectionScheme::Unix);
    assert_eq!(parsed.get_scheme(), "unix");
    assert_eq!(parsed.path_bytes(), b"/tmp/x/socket");
    assert_eq!(get_server_pub_key_from_connection_url(&parsed).unwrap(), pk);
    assert_eq!(get_connection_path(&parsed).unwrap(), b"/tmp/x/socket".to_vec());
}

#[test]
fn url_round_trip_named_pipe() {
    let pk = BinDataSized::<32>::from_slice(&[0xabu8; 32]).unwrap();
    let u = ConnectionUrl::with_server_pub_key(
        ConnectionScheme::NamedPipe,
        b"\\\\.\\pipe\\my-pipe".to_vec(),
        &pk,
    );
    let text = u.to_bytes();
    let expected = format!("named-pipe:\\\\.\\pipe\\my-pipe?k={}", "ab".repeat(32));
    assert_eq!(text, expected.as_bytes());

    let parsed = ConnectionUrl::parse(&text).unwrap();
    assert_eq!(parsed.scheme_kind(), ConnectionScheme::NamedPipe);
    assert_eq!(parsed.get_scheme(), "named-pipe");
    assert_eq!(parsed.path_bytes(), b"\\\\.\\pipe\\my-pipe");
    assert_eq!(get_server_pub_key_from_connection_url(&parsed).unwrap(), pk);
    // the pipe name is the connection path as-is
    assert_eq!(
        get_connection_path(&parsed).unwrap(),
        b"\\\\.\\pipe\\my-pipe".to_vec()
    );
}

#[test]
fn missing_key_is_a_distinct_error() {
    let u = ConnectionUrl::parse(b"unix:///tmp/x/socket?a=b&c=d").unwrap();
    assert_eq!(
        get_server_pub_key_from_connection_url(&u).unwrap_err(),
        LairError::MissingServerPubKey
    );
    let bare = ConnectionUrl::parse(b"unix:///tmp/x/socket").unwrap();
    assert_eq!(
        get_server_pub_key_from_connection_url(&bare).unwrap_err(),
        LairError::MissingServerPubKey
    );
}

#[test]
fn invalid_key_is_a_parse_error_not_missing() {
    let u = ConnectionUrl::parse(b"unix:///tmp/x/socket?k=zzzz").unwrap();
    assert_eq!(
        get_server_pub_key_from_connection_url(&u).unwrap_err(),
        LairError::InvalidServerPubKey
    );
    // valid hex of the wrong length is invalid too
    let short = format!("unix:///tmp/x/socket?k={}", "07".repeat(16));
    let u2 = ConnectionUrl::parse(short.as_bytes()).unwrap();
    assert_eq!(
        get_server_pub_key_from_connection_url(&u2).unwrap_err(),
        LairError::InvalidServerPubKey
    );
}

#[test]
fn unknown_scheme_is_malformed() {
    assert_eq!(
        ConnectionUrl::parse(b"http://example.com?k=ab").unwrap_err(),
        LairError::MalformedLocator
    );
}

#[test]
fn relative_unix_path_has_no_connection_path() {
    let u = ConnectionUrl::from_parts(ConnectionScheme::Unix, b"rel/socket".to_vec(), Vec::new());
    assert_eq!(get_connection_path(&u).unwrap_err(), LairError::MalformedLocator);
    let t = ConnectionUrl::from_parts(ConnectionScheme::Tcp, b"127.0.0.1:1".to_vec(), Vec::new());
    assert_eq!(get_connection_path(&t).unwrap_err(), LairError::MalformedLocator);
}

#[test]
fn seventeen_bytes_are_not_a_sixteen_byte_salt() {
    let r = BinDataSized::<16>::from_slice(&[0u8; 17]);
    assert_eq!(r.unwrap_err(), LairError::SizeMismatch);
    let r2 = BinDataSized::<16>::from_slice(&[0u8; 15]);
    assert_eq!(r2.unwrap_err(), LairError::SizeMismatch);
    assert!(BinDataSized::<16>::from_slice(&[0u8; 16]).is_ok());
}

#[test]
fn hex_encoding_is_exact_and_round_trips() {
    let data: Vec<u8> = (0u8..16).collect();
    let b = BinDataSized::<16>::from_slice(&data).unwrap();
    let hex = b.to_hex();
    assert_eq!(hex, b"000102030405060708090a0b0c0d0e0f".to_vec());
    let back = BinDataSized::<16>::from_hex_text(&hex).unwrap();
    assert_eq!(back, b);
    // uppercase or odd-length text is rejected
    assert!(BinDataSized::<16>::from_hex_text(b"0A0102030405060708090a0b0c0d0e0f").is_none());
    assert!(BinDataSized::<16>::from_hex_text(b"abc").is_none());
}
