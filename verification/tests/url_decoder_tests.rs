use my_http_server::url_decoder::EscapedState;
use my_http_server::url_decoder::decode_from_url_string;

#[test]
fn test_url_decoding() {
    let value = "http%3A%2F%2F127.0.0.1%3A5223";

    let result = decode_from_url_string(value);

    assert_eq!("http://127.0.0.1:5223", result.unwrap().as_str());
}

#[test]
fn test_decoding_inverts_encoding() {
    assert_eq!("*", decode_from_url_string("%2A").unwrap().as_str());
    assert_eq!("://", decode_from_url_string("%3A%2F%2F").unwrap().as_str());
    assert_eq!("%", decode_from_url_string("%25").unwrap().as_str());
    assert_eq!(
        "a!b#c$d&e'f(g)h*i+j,k/l:m;n=o?p@q[r]",
        decode_from_url_string("a%21b%23c%24d%26e%27f%28g%29h%2Ai%2Bj%2Ck%2Fl%3Am%3Bn%3Do%3Fp%40q%5Br%5D")
            .unwrap()
            .as_str()
    );
}

#[test]
fn test_decoding_without_escapes_is_identity() {
    assert_eq!("plain-text_4.2~", decode_from_url_string("plain-text_4.2~").unwrap().as_str());
    assert_eq!("", decode_from_url_string("").unwrap().as_str());
}

#[test]
fn test_invalid_escape_is_an_error_not_passed_through() {
    assert!(decode_from_url_string("%zz").is_err());
    assert!(decode_from_url_string("abc%2").is_err());
    assert!(decode_from_url_string("100%").is_err());
    // lowercase hex digits are not in the fixed table
    assert!(decode_from_url_string("%2a").is_err());
    // an unknown two-character suffix fails even though it is hex
    assert!(decode_from_url_string("%7E").is_err());
}

#[test]
fn test_escaped_state_machine() {
    let mut state = EscapedState::new('%');
    assert!(matches!(state.get_next('2'), Ok(None)));
    assert!(matches!(state.get_next('A'), Ok(Some('*'))));

    let mut state = EscapedState::new('%');
    assert!(matches!(state.get_next('z'), Ok(None)));
    assert!(state.get_next('z').is_err());
}
