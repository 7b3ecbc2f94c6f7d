use rust_webserver::http::{requested_file, response, route, Route};

#[test]
fn requested_file_prefixes_html_directory() {
    assert_eq!(
        requested_file(b"GET /about.html HTTP/1.1"),
        Some(b"html/about.html".to_vec())
    );
    assert_eq!(requested_file(b"GET / HTTP/1.1"), Some(b"html/".to_vec()));
}

#[test]
fn requested_file_without_space_stops_at_line_end() {
    assert_eq!(requested_file(b"GET /x"), Some(b"html/x".to_vec()));
    assert_eq!(requested_file(b"GET"), None);
    assert_eq!(requested_file(b""), None);
}

#[test]
fn root_and_sleep_lines_serve_index() {
    assert_eq!(route(b"GET / HTTP/1.1", false), Route::Index);
    assert_eq!(route(b"GET /sleep HTTP/1.1", false), Route::Slow);
    assert!(route(b"GET /sleep HTTP/1.1", false).delays());
    assert!(!route(b"GET / HTTP/1.1", true).delays());
    assert_eq!(Route::Index.serve_path(b"html/"), b"html/index.html".to_vec());
    assert_eq!(Route::Slow.serve_path(b"html/sleep"), b"html/index.html".to_vec());
    assert_eq!(Route::Slow.status_line(), "HTTP/1.1 200 OK");
}

#[test]
fn existing_file_is_found_only_for_get() {
    assert_eq!(route(b"GET /a.html HTTP/1.1", true), Route::Found);
    assert_eq!(route(b"GET /a.html HTTP/1.1", false), Route::Missing);
    assert_eq!(route(b"POST /a.html HTTP/1.1", true), Route::Missing);
    assert_eq!(route(b"GETX /a.html HTTP/1.1", true), Route::Missing);
    assert_eq!(Route::Found.serve_path(b"html/a.html"), b"html/a.html".to_vec());
    assert_eq!(Route::Found.status_line(), "HTTP/1.1 200 OK");
}

#[test]
fn missing_file_gets_not_found_page() {
    let r = route(b"GET /nope.html HTTP/1.1", false);
    assert_eq!(r.status_line(), "HTTP/1.1 404 NOT FOUND");
    assert_eq!(r.serve_path(b"html/nope.html"), b"html/404.html".to_vec());
    assert!(!r.delays());
}

#[test]
fn response_frames_body_with_length() {
    let r = response(b"HTTP/1.1 200 OK", b"<p>hi</p>");
    assert_eq!(
        r,
        b"HTTP/1.1 200 OK\r\nContent-Type: text/html; charset=utf-8\r\nContent-Length: 9\r\n\r\n<p>hi</p>"
            .to_vec()
    );
}

#[test]
fn response_length_has_several_digits() {
    let body = vec![b'x'; 1205];
    let r = response(b"HTTP/1.1 404 NOT FOUND", &body);
    let head = b"HTTP/1.1 404 NOT FOUND\r\nContent-Type: text/html; charset=utf-8\r\nContent-Length: 1205\r\n\r\n";
    assert_eq!(&r[..head.len()], &head[..]);
    assert_eq!(r.len(), head.len() + 1205);
}

#[test]
fn response_with_empty_body() {
    let r = response(b"HTTP/1.1 200 OK", b"");
    assert_eq!(
        r,
        b"HTTP/1.1 200 OK\r\nContent-Type: text/html; charset=utf-8\r\nContent-Length: 0\r\n\r\n"
            .to_vec()
    );
}
