use rustwebhello::http::push_decimal;
use rustwebhello::{response, route, Route};

#[test]
fn root_request_is_index() {
    assert_eq!(route(b"GET / HTTP/1.1\r\nHost: x\r\n\r\n"), Route::Index);
}

#[test]
fn sleep_request_is_delayed() {
    let r = route(b"GET /sleep HTTP/1.1\r\n\r\n");
    assert_eq!(r, Route::Sleep);
    assert!(r.is_delayed());
    assert_eq!(r.status_line(), b"HTTP/1.1 200 OK".to_vec());
    assert_eq!(r.content_path(), "index.html");
}

#[test]
fn other_requests_are_not_found() {
    for req in [&b"GET /other HTTP/1.1\r\n"[..], b"GET / HTTP/1.0\r\n", b"", b"GET /"] {
        let r = route(req);
        assert_eq!(r, Route::NotFound);
        assert!(!r.is_delayed());
        assert_eq!(r.status_line(), b"HTTP/1.1 404 NOT FOUND".to_vec());
        assert_eq!(r.content_path(), "404.html");
    }
}

#[test]
fn index_answer() {
    assert!(!Route::Index.is_delayed());
    assert_eq!(Route::Index.content_path(), "index.html");
}

#[test]
fn response_frames_body() {
    let r = response(b"HTTP/1.1 200 OK", b"hello");
    assert_eq!(r, b"HTTP/1.1 200 OK\r\nContent-Length: 5\r\n\r\nhello".to_vec());
    let empty = response(b"HTTP/1.1 404 NOT FOUND", b"");
    assert_eq!(empty, b"HTTP/1.1 404 NOT FOUND\r\nContent-Length: 0\r\n\r\n".to_vec());
}

#[test]
fn decimal_lengths() {
    for (n, s) in [(0usize, "0"), (9, "9"), (10, "10"), (1234, "1234"), (usize::MAX, "18446744073709551615")] {
        let mut out = b"x".to_vec();
        push_decimal(&mut out, n);
        assert_eq!(out, format!("x{}", s).into_bytes());
    }
}

#[test]
fn long_body_length() {
    let body = vec![b'a'; 1500];
    let r = response(b"S", &body);
    assert_eq!(&r[..25], b"S\r\nContent-Length: 1500\r\n");
    assert_eq!(r.len(), 25 + 2 + 1500);
}
