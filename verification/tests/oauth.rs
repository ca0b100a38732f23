//! Tests of the OAuth redirect parsing and peer checks.

use ridemap::oauth::{authorize_url, is_authorized_peer, parse_oauth_request, scope_is_expected};

#[test]
fn oauth_parse_good_request() {
    let buf = b"GET /?state=&code=deadbeef42&scope=read,activity:read_all HTTP/1.1\r\nHost: x\r\n\r\n";
    let req = parse_oauth_request(buf).unwrap();
    assert_eq!(req.code, b"deadbeef42");
    assert_eq!(req.scope, b"read,activity:read_all");
    assert!(scope_is_expected(&req.scope));
}

#[test]
fn oauth_parse_rejects_bad_shape() {
    // Wrong method.
    assert!(parse_oauth_request(b"POST /?state=&code=ab&scope=read HTTP/1.1").is_none());
    // Empty code.
    assert!(parse_oauth_request(b"GET /?state=&code=&scope=read HTTP/1.1").is_none());
    // Uppercase hex is not accepted in the code.
    assert!(parse_oauth_request(b"GET /?state=&code=DEAD&scope=read HTTP/1.1").is_none());
    // Empty scope.
    assert!(parse_oauth_request(b"GET /?state=&code=ab&scope= HTTP/1.1").is_none());
    // Missing HTTP version.
    assert!(parse_oauth_request(b"GET /?state=&code=ab&scope=read\r\n").is_none());
}

#[test]
fn oauth_wrong_scope_detected() {
    let buf = b"GET /?state=&code=ab&scope=read HTTP/1.1\r\n\r\n";
    let req = parse_oauth_request(buf).unwrap();
    assert!(!scope_is_expected(&req.scope));
}

#[test]
fn oauth_peer_authorization() {
    // Loopback and the private ranges are allowed.
    assert!(is_authorized_peer(127, 0, 0, 1, false));
    assert!(is_authorized_peer(10, 1, 2, 3, false));
    assert!(is_authorized_peer(172, 16, 0, 1, false));
    assert!(is_authorized_peer(172, 31, 255, 1, false));
    assert!(is_authorized_peer(192, 168, 1, 1, false));
    // Public addresses and everything over IPv6 are rejected.
    assert!(!is_authorized_peer(8, 8, 8, 8, false));
    assert!(!is_authorized_peer(172, 32, 0, 1, false));
    assert!(!is_authorized_peer(192, 169, 0, 1, false));
    assert!(!is_authorized_peer(127, 0, 0, 1, true));
}

#[test]
fn oauth_authorize_url_shape() {
    let url = authorize_url("12345", 8080);
    assert_eq!(
        url,
        "https://www.strava.com/oauth/authorize?client_id=12345\
         &redirect_uri=http%3A%2F%2F127.0.0.1%3A8080\
         &response_type=code&approval_prompt=auto&scope=read,activity:read_all"
    );
}
