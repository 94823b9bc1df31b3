use stdin_http_rs::{build_head, build_response, push_decimal, push_text};

fn decimal_of(n: usize) -> String {
    let mut out: Vec<u8> = Vec::new();
    push_decimal(&mut out, n);
    String::from_utf8(out).unwrap()
}

#[test]
fn decimal_of_zero_is_one_digit() {
    assert_eq!(decimal_of(0), "0");
}

#[test]
fn decimal_exact_values() {
    assert_eq!(decimal_of(7), "7");
    assert_eq!(decimal_of(10), "10");
    assert_eq!(decimal_of(305), "305");
    assert_eq!(decimal_of(2048), "2048");
}

#[test]
fn decimal_of_largest_size() {
    assert_eq!(decimal_of(usize::MAX), usize::MAX.to_string());
}

#[test]
fn decimal_appends_after_existing_bytes() {
    let mut out: Vec<u8> = b"n=".to_vec();
    push_decimal(&mut out, 42);
    assert_eq!(out, b"n=42".to_vec());
}

#[test]
fn text_is_appended_as_utf8() {
    let mut out: Vec<u8> = vec![1u8];
    push_text(&mut out, "é!");
    assert_eq!(out, vec![1u8, 0xC3, 0xA9, b'!']);
}

#[test]
fn head_for_plain_text() {
    let head = build_head(5, "text/plain; charset=utf-8");
    assert_eq!(
        String::from_utf8(head).unwrap(),
        "HTTP/1.1 200 OK\r\nContent-Length: 5\r\nContent-Type: text/plain; charset=utf-8\r\nConnection: close\r\n\r\n"
    );
}

#[test]
fn response_carries_body_verbatim() {
    let body: Vec<u8> = vec![0u8, 255, b'h', b'i', b'\n'];
    let r = build_response(&body, "application/octet-stream");
    let mut expected: Vec<u8> = b"HTTP/1.1 200 OK\r\nContent-Length: 5\r\nContent-Type: application/octet-stream\r\nConnection: close\r\n\r\n".to_vec();
    expected.extend_from_slice(&body);
    assert_eq!(r, expected);
}

#[test]
fn response_with_empty_body() {
    let r = build_response(&[], "text/html; charset=utf-8");
    assert_eq!(
        r,
        b"HTTP/1.1 200 OK\r\nContent-Length: 0\r\nContent-Type: text/html; charset=utf-8\r\nConnection: close\r\n\r\n".to_vec()
    );
}

#[test]
fn content_length_counts_bytes_not_characters() {
    let body: Vec<u8> = "héllo".as_bytes().to_vec();
    let r = build_response(&body, "text/plain");
    let text = String::from_utf8(r).unwrap();
    assert!(text.starts_with("HTTP/1.1 200 OK\r\nContent-Length: 6\r\n"));
    assert!(text.ends_with("\r\n\r\nhéllo"));
}

#[test]
fn large_body_length_is_written_in_full() {
    let body: Vec<u8> = vec![b'x'; 12345];
    let r = build_response(&body, "text/plain");
    let head = b"HTTP/1.1 200 OK\r\nContent-Length: 12345\r\nContent-Type: text/plain\r\nConnection: close\r\n\r\n";
    assert_eq!(r.len(), head.len() + 12345);
    assert_eq!(&r[..head.len()], &head[..]);
    assert!(r[head.len()..].iter().all(|b| *b == b'x'));
}
