use paqus_wallet::http::{content_length, http_response_body, response_body_complete};

#[test]
fn content_length_lines() {
    assert_eq!(content_length("Content-Length: 12"), Some(12));
    assert_eq!(content_length("content-length:7\r"), Some(7));
    assert_eq!(content_length("CONTENT-LENGTH:  0 "), Some(0));
    assert_eq!(content_length("Content-Type: 12"), None);
    assert_eq!(content_length("Content-Length: x"), None);
    assert_eq!(content_length("Content-Length 12"), None);
    assert_eq!(content_length("Content-Length: +3"), Some(3));
}

#[test]
fn completeness_of_responses() {
    assert_eq!(response_body_complete(b"HTTP/1.1 200 OK\r\n").ok(), Some(false));
    let head = b"HTTP/1.1 200 OK\r\nContent-Length: 5\r\n\r\n".to_vec();
    assert_eq!(response_body_complete(&head).ok(), Some(false));
    let mut full = head.clone();
    full.extend_from_slice(b"hello");
    assert_eq!(response_body_complete(&full).ok(), Some(true));
    let no_length = b"HTTP/1.1 200 OK\r\nConnection: close\r\n\r\nbody".to_vec();
    assert_eq!(response_body_complete(&no_length).ok(), Some(false));
    let bad = b"HTTP/1.1 200 OK\r\nX: \xff\r\n\r\n".to_vec();
    assert!(response_body_complete(&bad).is_err());
}

#[test]
fn a_verdict_stays_with_more_bytes() {
    let mut full = b"HTTP/1.1 200 OK\r\ncontent-length: 2\r\n\r\nok".to_vec();
    assert_eq!(response_body_complete(&full).ok(), Some(true));
    full.extend_from_slice(b"\r\n\r\nContent-Length: 99\r\n\r\n");
    assert_eq!(response_body_complete(&full).ok(), Some(true));
    let mut bad = b"X: \xfe\r\n\r\n".to_vec();
    assert!(response_body_complete(&bad).is_err());
    bad.extend_from_slice(b"more");
    assert!(response_body_complete(&bad).is_err());
}

#[test]
fn bodies_of_responses() {
    assert_eq!(
        http_response_body(b"HTTP/1.1 200 OK\r\nA: b\r\n\r\n{\"ok\":true}").unwrap(),
        "{\"ok\":true}"
    );
    assert_eq!(http_response_body(b"no headers").unwrap(), "no headers");
    assert_eq!(http_response_body(b"H\r\n\r\n").unwrap(), "");
    assert!(http_response_body(b"\xff").is_err());
}

#[test]
fn content_length_reads_back_in_any_case() {
    for n in [0usize, 1, 4096, usize::MAX] {
        assert_eq!(content_length(&format!("Content-Length: {n}")), Some(n));
        assert_eq!(content_length(&format!("cOnTeNt-LeNgTh: {n}")), Some(n));
    }
}
