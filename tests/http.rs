use http_server::{
    handle_request, response_for_tokens, same_text, BAD_REQUEST_RESPONSE, NOT_FOUND_RESPONSE,
    OK_RESPONSE,
};

#[test]
fn get_root_is_answered() {
    let contents = "Hi, my name is Josh.";
    let expected = format!(
        "HTTP/1.1 200 OK\r\nContent-Length: {}\r\n\r\n{}",
        contents.len(),
        contents
    );
    assert_eq!(OK_RESPONSE, expected);
    assert_eq!(handle_request(Some("GET / HTTP/1.1")), expected);
}

#[test]
fn tokens_split_on_any_white_space() {
    assert_eq!(handle_request(Some("  GET\t/   HTTP/1.1 extra")), OK_RESPONSE);
}

#[test]
fn other_targets_are_not_found() {
    assert_eq!(handle_request(Some("GET /other HTTP/1.1")), NOT_FOUND_RESPONSE);
    assert_eq!(handle_request(Some("POST / HTTP/1.1")), NOT_FOUND_RESPONSE);
    assert_eq!(NOT_FOUND_RESPONSE, "HTTP/1.1 404 Not Found");
}

#[test]
fn malformed_requests_are_bad() {
    assert_eq!(BAD_REQUEST_RESPONSE, "HTTP/1.1 400 Bad Request\r\n\r\n");
    assert_eq!(handle_request(None), BAD_REQUEST_RESPONSE);
    assert_eq!(handle_request(Some("GET /")), BAD_REQUEST_RESPONSE);
    assert_eq!(handle_request(Some("")), BAD_REQUEST_RESPONSE);
    assert_eq!(handle_request(Some("GET / HTTP/1.0")), BAD_REQUEST_RESPONSE);
}

#[test]
fn response_from_tokens() {
    assert_eq!(response_for_tokens(&vec!["GET", "/", "HTTP/1.1"]), OK_RESPONSE);
    assert_eq!(response_for_tokens(&vec!["GET", "/a", "HTTP/1.1"]), NOT_FOUND_RESPONSE);
    assert_eq!(response_for_tokens(&vec!["GET", "/"]), BAD_REQUEST_RESPONSE);
    assert_eq!(response_for_tokens(&vec![]), BAD_REQUEST_RESPONSE);
}

#[test]
fn text_comparison() {
    assert!(same_text("abc", "abc"));
    assert!(!same_text("abc", "abd"));
    assert!(!same_text("abc", "ab"));
    assert!(same_text("", ""));
}
