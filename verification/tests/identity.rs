use axum::http::header::HeaderName;
use axum::http::{HeaderMap, HeaderValue};
use load_balancer::client::{client_id, get_client_id, to_hex};

#[test]
fn client_id_is_the_md5_of_address_and_user_agent_in_hex() {
    assert_eq!(client_id("", ""), "d41d8cd98f00b204e9800998ecf8427e");
    assert_eq!(client_id("a", ""), "0cc175b9c0f1b6a831c399e269772661");
    assert_eq!(client_id("", "abc"), "900150983cd24fb0d6963f7d28e17f72");
    assert_eq!(client_id("message", " digest"), "f96b697d7cb7938d525a2f31aaf161d0");
}

#[test]
fn client_id_depends_on_the_joined_text_only() {
    assert_eq!(client_id("10.0.0.1", "curl/8"), client_id("10.0.0.1curl", "/8"));
    assert_ne!(client_id("10.0.0.1", "curl/8"), client_id("10.0.0.2", "curl/8"));
    assert_ne!(client_id("10.0.0.1", "curl/8"), client_id("10.0.0.1", "curl/7"));
}

#[test]
fn client_id_is_thirty_two_lower_case_hex_digits() {
    let id = client_id("192.168.1.20", "Mozilla/5.0 (X11; Linux x86_64)");
    assert_eq!(id.len(), 32);
    assert!(id.chars().all(|c| c.is_ascii_digit() || ('a'..='f').contains(&c)));
    assert_eq!(id, client_id("192.168.1.20", "Mozilla/5.0 (X11; Linux x86_64)"));
}

#[test]
fn client_id_takes_non_ascii_text_as_utf8() {
    assert_eq!(client_id("caf\u{e9}", ""), "07117fe4a1ebd544965dc19573183da2");
}

#[test]
fn get_client_id_is_thirty_two_hex_digits_whatever_the_headers() {
    let mut headers = HeaderMap::new();
    for id in [get_client_id("", &headers), get_client_id("2001:db8::1", &headers)] {
        assert_eq!(id.chars().count(), 32);
    }
    headers.insert(
        HeaderName::from_static("user-agent"),
        HeaderValue::from_static("Mozilla/5.0 (X11; Linux x86_64) Gecko/20100101 Firefox/130.0"),
    );
    let id = get_client_id("10.1.2.3", &headers);
    assert_eq!(id.chars().count(), 32);
    assert!(id.chars().all(|c| c.is_ascii_digit() || ('a'..='f').contains(&c)));
    headers.insert(HeaderName::from_static("accept"), HeaderValue::from_static("*/*"));
    assert_eq!(get_client_id("10.1.2.3", &headers), id);
}

#[test]
fn to_hex_writes_two_digits_for_each_byte() {
    let bytes: [u8; 16] = [0, 1, 9, 10, 15, 16, 17, 127, 128, 160, 171, 205, 239, 240, 254, 255];
    assert_eq!(to_hex(&bytes), "0001090a0f10117f80a0abcdeff0feff");
}

#[test]
fn get_client_id_reads_the_user_agent_header() {
    let mut headers = HeaderMap::new();
    headers.insert(HeaderName::from_static("user-agent"), HeaderValue::from_static("abc"));
    assert_eq!(get_client_id("", &headers), "900150983cd24fb0d6963f7d28e17f72");
    assert_eq!(get_client_id("1.2.3.4", &headers), client_id("1.2.3.4", "abc"));
}

#[test]
fn get_client_id_uses_the_first_user_agent() {
    let mut headers = HeaderMap::new();
    headers.append(HeaderName::from_static("user-agent"), HeaderValue::from_static("first"));
    headers.append(HeaderName::from_static("user-agent"), HeaderValue::from_static("second"));
    assert_eq!(get_client_id("ip", &headers), client_id("ip", "first"));
}

#[test]
fn get_client_id_without_a_readable_user_agent_uses_the_address_alone() {
    let empty = HeaderMap::new();
    assert_eq!(get_client_id("a", &empty), "0cc175b9c0f1b6a831c399e269772661");
    let mut opaque = HeaderMap::new();
    opaque.insert(
        HeaderName::from_static("user-agent"),
        HeaderValue::from_bytes(&[0xff, 0xfe]).unwrap(),
    );
    assert_eq!(get_client_id("a", &opaque), client_id("a", ""));
}
