use gpui_agentic_http::client::{
    port_from, read_response, read_response_text, request_text, response_body, DEFAULT_PORT,
};

#[test]
fn a_request_without_a_body_says_so() {
    assert_eq!(
        request_text("GET", "/", ""),
        "GET / HTTP/1.1\r\nHost: 127.0.0.1\r\nConnection: close\r\nContent-Length: 0\r\n\r\n"
    );
}

#[test]
fn a_request_with_a_body_gives_its_length_in_bytes() {
    assert_eq!(
        request_text("POST", "/m/a?x=1", "{\"k\":\"é\"}"),
        "POST /m/a?x=1 HTTP/1.1\r\nHost: 127.0.0.1\r\nConnection: close\r\n\
         Content-Type: application/json\r\nContent-Length: 10\r\n\r\n{\"k\":\"é\"}"
    );
    for len in [1usize, 9, 10, 99, 100, 12345] {
        let body = "x".repeat(len);
        let request = request_text("P", "/", &body);
        assert!(request.contains(&format!("Content-Length: {len}\r\n\r\nx")));
        assert_eq!(response_body(&request), body);
    }
}

#[test]
fn the_body_follows_the_first_empty_line() {
    assert_eq!(response_body("HTTP/1.1 200 OK\r\nA: b\r\n\r\nx\r\n\r\ny"), "x\r\n\r\ny");
    assert_eq!(response_body("\r\n\r\n"), "");
    assert_eq!(response_body("a\r\r\n\r\nb"), "b");
    assert_eq!(response_body("no empty line\r\n\r"), "");
    assert_eq!(response_body(""), "");
}

#[test]
fn a_response_is_its_json_body() {
    let json = read_response(b"HTTP/1.1 200 OK\r\n\r\n{\"a\":\"\xc3\xa9\"}").unwrap();
    assert_eq!(json.text_at("a", ""), "é");
    assert_eq!(read_response_text("\r\n\r\n [1]").unwrap().render(), "[1]");
}

#[test]
fn a_response_without_json_is_an_error_with_the_parsers_message() {
    let message = |body: &str| {
        let error = serde_json::from_str::<serde_json::Value>(body).unwrap_err();
        format!("bad JSON response: {error}")
    };
    let response = b"HTTP/1.1 404 Not Found\r\n\r\nnot found";
    assert_eq!(read_response(response).unwrap_err(), message("not found"));
    assert_eq!(read_response(b"").unwrap_err(), message(""));
    assert_eq!(read_response(b"{}").unwrap_err(), message(""));
}

#[test]
fn bytes_that_are_no_text_are_replaced() {
    let json = read_response(b"\xff\r\n\r\n\"a\xffb\"").unwrap();
    assert_eq!(json.render(), "\"a\u{fffd}b\"");
}

#[test]
fn a_port_is_read_as_the_integer_parser_reads_it() {
    let settings = [
        "0", "1", "7331", "65535", "65536", "99999999999999999999", "+80", "+", "-1", "-0", "",
        " 80", "80 ", "0x50", "8a", "00080", "++1", "+00065535", "٣",
    ];
    for text in settings {
        assert_eq!(port_from(Some(text)), text.parse::<u16>().unwrap_or(7330), "{text:?}");
    }
    assert_eq!(port_from(None), 7330);
    assert_eq!(DEFAULT_PORT, 7330);
}

#[test]
fn every_port_reads_back_from_its_decimal_digits() {
    for port in 0..=u16::MAX {
        assert_eq!(port_from(Some(&port.to_string())), port);
    }
}
