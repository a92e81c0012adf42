use fingerbrow::http::{
    chunk_size_overflows, decode_chunked_body, extract_ip_from_body, http_response_body,
    ip_from_parsed_body, parse_http_proxy_target, response_body_overflows, split_host_port,
};

#[test]
fn host_and_port_split_at_the_last_colon() {
    assert_eq!(split_host_port("example.com:8443", 443), Ok(("example.com".to_string(), 8443)));
    assert_eq!(split_host_port("example.com", 443), Ok(("example.com".to_string(), 443)));
    assert_eq!(split_host_port("[::1]:8080", 80), Ok(("::1]:8080".to_string(), 80)));
    assert_eq!(split_host_port("[::1]", 80), Err("Invalid port in proxy target: [::1]".to_string()));
    assert_eq!(split_host_port("[localhost]", 80), Ok(("localhost".to_string(), 80)));
    assert_eq!(
        split_host_port("example.com:http", 80),
        Err("Invalid port in proxy target: example.com:http".to_string())
    );
    assert_eq!(
        split_host_port("example.com:70000", 80),
        Err("Invalid port in proxy target: example.com:70000".to_string())
    );
}

#[test]
fn absolute_targets_give_host_port_and_path() {
    let headers: Vec<String> = vec![];
    assert_eq!(
        parse_http_proxy_target("http://api.ipify.org/?format=json", &headers),
        Ok(("api.ipify.org".to_string(), 80, "/?format=json".to_string()))
    );
    assert_eq!(
        parse_http_proxy_target("http://example.com:8080", &headers),
        Ok(("example.com".to_string(), 8080, "/".to_string()))
    );
}

#[test]
fn origin_targets_use_the_host_header() {
    let headers = vec!["Accept: */*\r\n".to_string(), "HOST: example.org:81\r\n".to_string()];
    assert_eq!(
        parse_http_proxy_target("/index.html", &headers),
        Ok(("example.org".to_string(), 81, "/index.html".to_string()))
    );
    let none: Vec<String> = vec!["Accept: */*\r\n".to_string()];
    assert_eq!(
        parse_http_proxy_target("/", &none),
        Err("HTTP proxy request is missing Host header.".to_string())
    );
}

#[test]
fn chunked_bodies_decode() {
    assert_eq!(decode_chunked_body("4\r\nWiki\r\n5;ext=1\r\npedia\r\n0\r\n\r\n"), Ok("Wikipedia".to_string()));
    assert_eq!(decode_chunked_body("4\r\nWiki"), Err("Invalid chunked response length.".to_string()));
    assert_eq!(decode_chunked_body("4\r\nWiki\r\n"), Err("Invalid chunked response.".to_string()));
    let std_error = usize::from_str_radix("zz", 16).unwrap_err().to_string();
    assert_eq!(decode_chunked_body("zz\r\n"), Err(std_error));
    let empty_error = usize::from_str_radix("", 16).unwrap_err().to_string();
    assert_eq!(decode_chunked_body(" \r\n"), Err(empty_error));
}

#[test]
fn oversized_chunks_are_detected() {
    assert!(chunk_size_overflows("ffffffffffffffff\r\nx"));
    assert!(!chunk_size_overflows("4\r\nWiki\r\n0\r\n\r\n"));
    let response = "HTTP/1.1 200 OK\r\nTransfer-Encoding: chunked\r\n\r\nffffffffffffffff\r\nx";
    assert!(response_body_overflows(response));
    assert!(!response_body_overflows("HTTP/1.1 200 OK\r\n\r\nffffffffffffffff\r\n"));
}

#[test]
fn response_bodies_follow_the_blank_line() {
    assert_eq!(http_response_body("HTTP/1.1 200 OK\r\nContent-Type: text/plain\r\n\r\nhello"), "hello");
    assert_eq!(http_response_body("HTTP/1.1 200 OK"), "");
    assert_eq!(
        http_response_body("HTTP/1.1 200 OK\r\ntransfer-encoding: CHUNKED\r\n\r\n3\r\nabc\r\n0\r\n\r\n"),
        "abc"
    );
    assert_eq!(
        http_response_body("HTTP/1.1 200 OK\r\nTransfer-Encoding: chunked\r\n\r\nnot chunked"),
        "not chunked"
    );
}

#[test]
fn extracts_ip_from_plain_text() {
    assert_eq!(extract_ip_from_body("  your address is 203.0.113.9\n"), Some("203.0.113.9".to_string()));
    assert_eq!(extract_ip_from_body("ip=2001:db8::1;"), Some("2001:db8::1".to_string()));
    assert_eq!(extract_ip_from_body("nothing here"), None);
    assert_eq!(extract_ip_from_body("{\"ip\": 5}"), None);
    assert_eq!(extract_ip_from_body("{\"ip\":\"198.51.100.4\"}"), Some("198.51.100.4".to_string()));
}

#[test]
fn ip_from_parsed_body_prefers_the_json_member() {
    assert_eq!(
        ip_from_parsed_body("1.2.3.4", Some(Some("9.9.9.9".to_string()))),
        Some("9.9.9.9".to_string())
    );
    assert_eq!(ip_from_parsed_body("1.2.3.4", Some(None)), None);
    assert_eq!(ip_from_parsed_body("x 1.2.3.4 y", None), Some("1.2.3.4".to_string()));
}

#[test]
fn one_chunk_decodes_back_to_its_text() {
    for s in ["", "a", "hello world", "πλ €", &"x".repeat(300)] {
        let body = format!("{:x}\r\n{}\r\n0\r\n\r\n", s.len(), s);
        assert_eq!(decode_chunked_body(&body), Ok(s.to_string()));
    }
    assert_eq!(
        decode_chunked_body("5\r\nhello\r\n6;x=1\r\n world\r\n0\r\n\r\n"),
        Ok("hello world".to_string())
    );
}
