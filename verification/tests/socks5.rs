use fingerbrow::socks5::{
    append_socks5_address, socks5_auth_reply, socks5_auth_request, socks5_connect_reply,
    socks5_connect_request, socks5_greeting, socks5_method_reply, BoundAddress, Socks5Method,
    UpstreamProxy,
};

fn upstream(username: Option<&str>, password: Option<&str>) -> UpstreamProxy {
    UpstreamProxy {
        scheme: "socks5".to_string(),
        host: "proxy.example".to_string(),
        port: 1080,
        username: username.map(|u| u.to_string()),
        password: password.map(|p| p.to_string()),
    }
}

#[test]
fn greeting_offers_one_method() {
    assert_eq!(socks5_greeting(&upstream(None, None)), Ok(vec![5, 1, 0]));
    assert_eq!(socks5_greeting(&upstream(Some("u"), None)), Ok(vec![5, 1, 2]));
    let mut http = upstream(None, None);
    http.scheme = "http".to_string();
    assert_eq!(
        socks5_greeting(&http),
        Err("Local proxy relay currently supports SOCKS5 upstream proxies only.".to_string())
    );
}

#[test]
fn method_replies_are_read() {
    assert!(matches!(socks5_method_reply([5, 0]), Ok(Socks5Method::NoAuthentication)));
    assert!(matches!(socks5_method_reply([5, 2]), Ok(Socks5Method::UsernamePassword)));
    assert!(matches!(
        socks5_method_reply([4, 0]),
        Err(e) if e == "Upstream proxy returned an invalid SOCKS5 version."
    ));
    assert!(matches!(
        socks5_method_reply([5, 0xff]),
        Err(e) if e == "Upstream SOCKS5 proxy rejected available auth methods."
    ));
    assert!(matches!(socks5_method_reply([5, 3]), Err(e) if e == "Unsupported SOCKS5 auth method: 3"));
}

#[test]
fn auth_request_carries_lengths() {
    assert_eq!(
        socks5_auth_request(&upstream(Some("ab"), Some("xyz"))),
        Ok(vec![1, 2, b'a', b'b', 3, b'x', b'y', b'z'])
    );
    assert_eq!(
        socks5_auth_request(&upstream(None, Some("x"))),
        Err("SOCKS5 proxy requested auth but no username is configured.".to_string())
    );
    assert_eq!(
        socks5_auth_request(&upstream(Some("u"), None)),
        Err("SOCKS5 proxy requested auth but no password is saved.".to_string())
    );
    let long = "p".repeat(256);
    assert_eq!(
        socks5_auth_request(&upstream(Some("u"), Some(&long))),
        Err("SOCKS5 username/password must be 255 bytes or fewer.".to_string())
    );
    assert_eq!(socks5_auth_reply([1, 0]), Ok(()));
    assert_eq!(
        socks5_auth_reply([1, 1]),
        Err("SOCKS5 username/password authentication failed.".to_string())
    );
}

#[test]
fn addresses_are_encoded_by_kind() {
    let mut v4 = vec![9];
    assert_eq!(append_socks5_address(&mut v4, "10.1.2.3", Some(vec![10, 1, 2, 3])), Ok(()));
    assert_eq!(v4, vec![9, 1, 10, 1, 2, 3]);
    let mut v6 = vec![];
    let mut octets: Vec<u8> = vec![0; 15];
    octets.push(1);
    assert_eq!(append_socks5_address(&mut v6, "::1", Some(octets.clone())), Ok(()));
    let mut expected = vec![4];
    expected.extend_from_slice(&octets);
    assert_eq!(v6, expected);
    let mut name = vec![];
    assert_eq!(append_socks5_address(&mut name, "ab.c", None), Ok(()));
    assert_eq!(name, vec![3, 4, b'a', b'b', b'.', b'c']);
    let mut long = vec![];
    assert_eq!(
        append_socks5_address(&mut long, &"h".repeat(256), None),
        Err("SOCKS5 target hostname is too long.".to_string())
    );
}

#[test]
fn connect_request_ends_with_the_port() {
    assert_eq!(
        socks5_connect_request("ab", None, 443),
        Ok(vec![5, 1, 0, 3, 2, b'a', b'b', 1, 187])
    );
}

#[test]
fn connect_replies_say_what_follows() {
    assert!(matches!(socks5_connect_reply([5, 0, 0, 1]), Ok(BoundAddress::Fixed(6))));
    assert!(matches!(socks5_connect_reply([5, 0, 0, 4]), Ok(BoundAddress::Fixed(18))));
    assert!(matches!(socks5_connect_reply([5, 0, 0, 3]), Ok(BoundAddress::LengthPrefixed)));
    assert!(matches!(
        socks5_connect_reply([4, 0, 0, 1]),
        Err(e) if e == "Upstream proxy returned an invalid SOCKS5 response."
    ));
    assert!(matches!(socks5_connect_reply([5, 5, 0, 1]), Err(e) if e == "SOCKS5 connect failed with code 5."));
    assert!(matches!(
        socks5_connect_reply([5, 0, 0, 9]),
        Err(e) if e == "Unsupported SOCKS5 address type in response: 9"
    ));
}

use fingerbrow::socks5::{socks5_handshake_next, socks5_handshake_start, HandshakeAction, HandshakeStage};

fn exchange(a: Result<HandshakeAction, String>) -> (Vec<u8>, usize, HandshakeStage) {
    match a {
        Ok(HandshakeAction::Exchange { send, reply_len, stage }) => (send, reply_len, stage),
        _ => panic!("expected an exchange"),
    }
}

#[test]
fn handshake_without_authentication() {
    let up = upstream(None, None);
    let (send, len, stage) = exchange(socks5_handshake_start(&up));
    assert_eq!((send, len, stage), (vec![5, 1, 0], 2, HandshakeStage::Method));
    let (send, len, stage) = exchange(socks5_handshake_next(stage, &[5, 0], &up, "ab", None, 80));
    assert_eq!((send, len, stage), (vec![5, 1, 0, 3, 2, b'a', b'b', 0, 80], 4, HandshakeStage::Connect));
    assert!(matches!(
        socks5_handshake_next(stage, &[5, 0, 0, 1], &up, "ab", None, 80),
        Ok(HandshakeAction::Open(BoundAddress::Fixed(6)))
    ));
}

#[test]
fn handshake_with_username_and_password() {
    let up = upstream(Some("u"), Some("p"));
    let (send, _, stage) = exchange(socks5_handshake_start(&up));
    assert_eq!(send, vec![5, 1, 2]);
    let (send, len, stage) = exchange(socks5_handshake_next(stage, &[5, 2], &up, "ab", None, 80));
    assert_eq!((send, len, stage), (vec![1, 1, b'u', 1, b'p'], 2, HandshakeStage::Auth));
    let (send, _, stage) = exchange(socks5_handshake_next(stage, &[1, 0], &up, "ab", None, 80));
    assert_eq!(send, vec![5, 1, 0, 3, 2, b'a', b'b', 0, 80]);
    assert_eq!(stage, HandshakeStage::Connect);
    assert!(matches!(
        socks5_handshake_next(HandshakeStage::Auth, &[1, 1], &up, "ab", None, 80),
        Err(e) if e == "SOCKS5 username/password authentication failed."
    ));
}
