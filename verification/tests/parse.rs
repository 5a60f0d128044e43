use zhttp::error::RunError;
use zhttp::locate::find_request_block;
use zhttp::parse::parse_request;

#[test]
fn parse_find_request_block_single_block() {
    let content = "GET https://example.com\nAccept: application/json";
    let block = find_request_block(content, 1).unwrap();
    assert_eq!(block, "GET https://example.com\nAccept: application/json");
}

#[test]
fn parse_find_request_block_multiple_blocks() {
    let content =
        "GET https://first.com\n###\nPOST https://second.com\n###\nDELETE https://third.com";
    let block = find_request_block(content, 3).unwrap();
    assert_eq!(block, "POST https://second.com");
}

#[test]
fn parse_find_request_block_last_block_without_trailing_separator() {
    let content = "GET https://first.com\n###\nPOST https://last.com\nContent-Type: text/plain";
    let block = find_request_block(content, 3).unwrap();
    assert_eq!(block, "POST https://last.com\nContent-Type: text/plain");
}

#[test]
fn parse_find_request_block_with_named_comment() {
    let content = "### My Request\nGET https://example.com";
    let block = find_request_block(content, 1).unwrap();
    assert_eq!(block, "### My Request\nGET https://example.com");
}

#[test]
fn find_request_block_not_found() {
    let content = "GET https://example.com";
    let err = find_request_block(content, 99).unwrap_err();
    assert!(matches!(err, RunError::NoRequestBlock(99)));
}

#[test]
fn parse_parse_request_basic_get() {
    let block = "GET https://example.com";
    let req = parse_request(block).unwrap();
    assert_eq!(req.method, "GET");
    assert_eq!(req.url, "https://example.com");
    assert!(req.http_version.is_none());
    assert!(req.headers.is_empty());
    assert!(req.body.is_none());
    assert!(req.name.is_none());
}

#[test]
fn parse_parse_request_post_with_json_body() {
    let block = "POST https://api.example.com/data\nContent-Type: application/json\n\n{\"key\": \"value\"}";
    let req = parse_request(block).unwrap();
    assert_eq!(req.method, "POST");
    assert_eq!(req.url, "https://api.example.com/data");
    assert_eq!(
        req.headers,
        vec![("Content-Type".to_string(), "application/json".to_string())]
    );
    assert_eq!(req.body.as_deref(), Some("{\"key\": \"value\"}"));
}

#[test]
fn parse_parse_request_with_http_version() {
    let block = "GET https://example.com HTTP/2";
    let req = parse_request(block).unwrap();
    assert_eq!(req.method, "GET");
    assert_eq!(req.url, "https://example.com");
    assert_eq!(req.http_version.as_deref(), Some("HTTP/2"));
}

#[test]
fn parse_parse_request_name_from_comment() {
    let block = "### My Request\nGET https://example.com";
    let req = parse_request(block).unwrap();
    assert_eq!(req.name.as_deref(), Some("My Request"));
}

#[test]
fn parse_parse_request_multiple_headers() {
    let block = "GET https://example.com\nAccept: application/json\nAuthorization: Bearer token123\nX-Custom: value";
    let req = parse_request(block).unwrap();
    assert_eq!(req.headers.len(), 3);
    assert_eq!(
        req.headers[0],
        ("Accept".to_string(), "application/json".to_string())
    );
    assert_eq!(
        req.headers[1],
        ("Authorization".to_string(), "Bearer token123".to_string())
    );
    assert_eq!(
        req.headers[2],
        ("X-Custom".to_string(), "value".to_string())
    );
}

#[test]
fn parse_parse_request_no_headers_no_body() {
    let block = "DELETE https://example.com/resource/1";
    let req = parse_request(block).unwrap();
    assert_eq!(req.method, "DELETE");
    assert_eq!(req.url, "https://example.com/resource/1");
    assert!(req.headers.is_empty());
    assert!(req.body.is_none());
}

#[test]
fn parse_parse_request_comments_ignored() {
    let block = "// This is a comment\nGET https://example.com\n// Another comment";
    let req = parse_request(block).unwrap();
    assert_eq!(req.method, "GET");
    assert_eq!(req.url, "https://example.com");
    assert!(req.headers.is_empty());
}

#[test]
fn parse_parse_request_multiline_body() {
    let block = "POST https://example.com\nContent-Type: application/json\n\n{\n  \"name\": \"test\",\n  \"value\": 42\n}";
    let req = parse_request(block).unwrap();
    assert_eq!(
        req.body.as_deref(),
        Some("{\n  \"name\": \"test\",\n  \"value\": 42\n}")
    );
}

#[test]
fn parse_request_empty_block() {
    let err = parse_request("").unwrap_err();
    assert!(matches!(err, RunError::ParseFailed(_)));
}
