use httpcore::headers::Headers;
use httpcore::response::{Response, Status};

#[test]
fn status_text_renders_canonically() {
    assert_eq!(Status::NotFound.text().as_str(), "404 Not Found");
}

#[test]
fn status_text_is_idempotent() {
    let first = Status::NotFound.text();
    let second = Status::NotFound.text();
    assert_eq!(first, second);
}

#[test]
fn from_html_sets_body_and_headers() {
    let resp = Response::from_html(Status::NotFound, "Hello, world!");
    assert_eq!(resp.status, Status::NotFound);
    assert_eq!(resp.body, b"Hello, world!".to_vec());
    assert_eq!(resp.headers.len(), 2);
    assert_eq!(
        resp.headers.get("Content-Type").unwrap().as_str(),
        "text/html"
    );
    assert_eq!(resp.headers.get("Content-Length").unwrap().as_str(), "13");
}

#[test]
fn from_html_counts_bytes_not_chars() {
    let resp = Response::from_html(Status::NotFound, "h\u{e9}llo");
    assert_eq!(resp.headers.get("Content-Length").unwrap().as_str(), "6");
    assert_eq!(resp.body.len(), 6);
}

#[test]
fn from_html_empty_payload() {
    let resp = Response::from_html(Status::NotFound, "");
    assert_eq!(resp.headers.get("Content-Length").unwrap().as_str(), "0");
    assert_eq!(resp.body.len(), 0);
}

#[test]
fn write_exact_bytes() {
    let mut headers = Headers::new();
    headers.insert("Content-Type".to_string(), "text/html".to_string());
    headers.insert("Content-Length".to_string(), "13".to_string());
    let resp = Response {
        status: Status::NotFound,
        headers,
        body: b"Hello, world!".to_vec(),
    };
    let mut out: Vec<u8> = Vec::new();
    resp.write(&mut out);
    assert_eq!(
        out,
        b"HTTP/1.1 404 Not Found\r\nContent-Type: text/html\r\nContent-Length: 13\r\n\r\nHello, world!"
            .to_vec()
    );
}

#[test]
fn write_without_headers() {
    let resp = Response {
        status: Status::NotFound,
        headers: Headers::new(),
        body: Vec::new(),
    };
    let mut out: Vec<u8> = Vec::new();
    resp.write(&mut out);
    assert_eq!(out, b"HTTP/1.1 404 Not Found\r\n\r\n\r\n".to_vec());
}

#[test]
fn html_round_trip_declares_length_and_keeps_body() {
    let text = "<html><body>hi</body></html>";
    let resp = Response::from_html(Status::NotFound, text);
    let declared = resp.headers.get("Content-Length").unwrap().clone();
    let mut out: Vec<u8> = Vec::new();
    resp.write(&mut out);
    assert_eq!(declared.as_str(), text.len().to_string().as_str());
    assert!(out.ends_with(text.as_bytes()));
    let head = &out[..out.len() - text.len()];
    let head_str = std::str::from_utf8(head).unwrap();
    assert!(head_str.contains("Content-Length: 28\r\n"));
    assert!(head_str.contains("Content-Type: text/html\r\n"));
    assert!(head_str.starts_with("HTTP/1.1 404 Not Found\r\n"));
    assert!(head_str.ends_with("\r\n\r\n"));
}

#[test]
fn headers_insert_get_and_overwrite() {
    let mut h = Headers::new();
    assert_eq!(h.len(), 0);
    assert!(h.get("k").is_none());
    h.insert("k".to_string(), "v1".to_string());
    assert_eq!(h.len(), 1);
    assert_eq!(h.get("k").unwrap().as_str(), "v1");
    h.insert("k".to_string(), "v2".to_string());
    assert_eq!(h.len(), 1);
    assert_eq!(h.get("k").unwrap().as_str(), "v2");
    h.insert("other".to_string(), "v3".to_string());
    assert_eq!(h.len(), 2);
    assert_eq!(h.get("other").unwrap().as_str(), "v3");
    assert_eq!(h.get("k").unwrap().as_str(), "v2");
}

#[test]
fn headers_keep_insertion_order_in_output() {
    let mut headers = Headers::new();
    headers.insert("B".to_string(), "2".to_string());
    headers.insert("A".to_string(), "1".to_string());
    let resp = Response {
        status: Status::NotFound,
        headers,
        body: Vec::new(),
    };
    let mut out: Vec<u8> = Vec::new();
    resp.write(&mut out);
    assert_eq!(out, b"HTTP/1.1 404 Not Found\r\nB: 2\r\nA: 1\r\n\r\n".to_vec());
}
