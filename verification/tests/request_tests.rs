use httpcore::request::{parse_request, Method, ParseError};

fn to_lines(v: &[&str]) -> Vec<String> {
    v.iter().map(|s| s.to_string()).collect()
}

#[test]
fn parse_well_formed() {
    let lines = to_lines(&["GET /x\r\n", "Host: a\r\n", "\r\n"]);
    let req = parse_request(&lines).unwrap();
    assert_eq!(req.method, Method::Get);
    assert_eq!(req.path.as_str(), "/x");
    assert_eq!(req.headers.len(), 1);
    assert_eq!(req.headers.get("Host").unwrap().as_str(), "a");
}

#[test]
fn parse_root_request() {
    let lines = to_lines(&["GET /\r\n", "\r\n"]);
    let req = parse_request(&lines).unwrap();
    assert_eq!(req.method, Method::Get);
    assert_eq!(req.path.as_str(), "/");
    assert_eq!(req.headers.len(), 0);
}

#[test]
fn parse_missing_method_blank_request_line() {
    let lines = to_lines(&["\r\n", "\r\n"]);
    assert_eq!(parse_request(&lines).unwrap_err(), ParseError::MissingMethod);
}

#[test]
fn parse_missing_method_empty_stream() {
    let lines: Vec<String> = Vec::new();
    assert_eq!(parse_request(&lines).unwrap_err(), ParseError::MissingMethod);
}

#[test]
fn parse_unknown_method() {
    let lines = to_lines(&["POST /x\r\n", "\r\n"]);
    assert_eq!(
        parse_request(&lines).unwrap_err(),
        ParseError::UnknownMethod("POST".to_string())
    );
}

#[test]
fn parse_unknown_method_is_case_sensitive() {
    let lines = to_lines(&["get /x\r\n", "\r\n"]);
    assert_eq!(
        parse_request(&lines).unwrap_err(),
        ParseError::UnknownMethod("get".to_string())
    );
}

#[test]
fn parse_missing_path() {
    let lines = to_lines(&["GET\r\n", "\r\n"]);
    assert_eq!(parse_request(&lines).unwrap_err(), ParseError::MissingPath);
}

#[test]
fn parse_missing_path_trailing_spaces() {
    let lines = to_lines(&["GET   \r\n", "\r\n"]);
    assert_eq!(parse_request(&lines).unwrap_err(), ParseError::MissingPath);
}

#[test]
fn parse_missing_path_wins_over_unknown_method() {
    let lines = to_lines(&["POST\r\n", "\r\n"]);
    assert_eq!(parse_request(&lines).unwrap_err(), ParseError::MissingPath);
}

#[test]
fn parse_header_without_colon() {
    let lines = to_lines(&["GET /x\r\n", "BadHeader\r\n", "\r\n"]);
    assert_eq!(
        parse_request(&lines).unwrap_err(),
        ParseError::MissingHeaderValue
    );
}

#[test]
fn parse_ignores_extra_request_line_tokens() {
    let lines = to_lines(&["GET /x HTTP/1.1\r\n", "\r\n"]);
    let req = parse_request(&lines).unwrap();
    assert_eq!(req.path.as_str(), "/x");
}

#[test]
fn parse_duplicate_header_last_write_wins() {
    let lines = to_lines(&["GET /\r\n", "A: 1\r\n", "A: 2\r\n", "\r\n"]);
    let req = parse_request(&lines).unwrap();
    assert_eq!(req.headers.len(), 1);
    assert_eq!(req.headers.get("A").unwrap().as_str(), "2");
}

#[test]
fn parse_header_value_is_trimmed() {
    let lines = to_lines(&["GET /\r\n", "Key:   padded value \r\n", "\r\n"]);
    let req = parse_request(&lines).unwrap();
    assert_eq!(req.headers.get("Key").unwrap().as_str(), "padded value");
}

#[test]
fn parse_header_value_keeps_later_colons() {
    let lines = to_lines(&["GET /\r\n", "Host: example.com:8080\r\n", "\r\n"]);
    let req = parse_request(&lines).unwrap();
    assert_eq!(req.headers.get("Host").unwrap().as_str(), "example.com:8080");
}

#[test]
fn parse_end_of_stream_ends_header_block() {
    let lines = to_lines(&["GET /\r\n", "Host: a\r\n"]);
    let req = parse_request(&lines).unwrap();
    assert_eq!(req.headers.len(), 1);
    assert_eq!(req.headers.get("Host").unwrap().as_str(), "a");
}

#[test]
fn parse_bare_newline_ends_header_block() {
    let lines = to_lines(&["GET /\r\n", "\n", "Host: a\r\n"]);
    let req = parse_request(&lines).unwrap();
    assert_eq!(req.headers.len(), 0);
}

#[test]
fn method_try_from_known_token() {
    assert_eq!(Method::try_from("GET").unwrap(), Method::Get);
}

#[test]
fn method_try_from_unknown_token() {
    assert_eq!(
        Method::try_from("PUT").unwrap_err(),
        ParseError::UnknownMethod("PUT".to_string())
    );
}
