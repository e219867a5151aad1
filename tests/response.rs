use http::headers::Headers;
use http::request::HttpVersion;
use http::response::HttpResponse;

#[test]
fn test_has_body() {
    let mut r1 = HttpResponse::new();
    r1.success();
    r1.body_str(String::from("hello world"));
    println!("{}", r1.to_string());
    assert_eq!("HTTP/1.1 200 OK", r1.to_string().lines().next().unwrap());
    assert_eq!(Some(&"11".to_string()), r1.headers.get("Content-Length"));
    assert_eq!(Some("hello world"), r1.body_str_ref());
}

#[test]
fn test_no_body() {
    let mut r1 = HttpResponse::new();
    r1.success();
    println!("{}", r1.to_string());
    assert_eq!("HTTP/1.1 200 OK", r1.to_string().lines().next().unwrap());
    assert_eq!(None, r1.headers.get("Content-Length"));
    assert_eq!(None, r1.body_ref());
}

#[test]
fn new_response_is_200_with_server_header() {
    let r = HttpResponse::new();
    assert_eq!(r.code, 200);
    assert_eq!(r.message, "OK");
    assert_eq!(r.version, HttpVersion::V1);
    assert_eq!(r.headers.get("Server"), Some(&"Rust Server/1.0".to_string()));
    assert_eq!(r.headers.len(), 1);
}

#[test]
fn wire_form_without_body() {
    let r = HttpResponse::new();
    assert_eq!(r.to_string(), "HTTP/1.1 200 OK\nServer: Rust Server/1.0\n\n");
    assert_eq!(r.to_bytes(), b"HTTP/1.1 200 OK\nServer: Rust Server/1.0\n\n".to_vec());
}

#[test]
fn wire_form_with_body() {
    let mut r = HttpResponse::new();
    r.body_str(String::from("abc"));
    assert_eq!(
        r.to_string(),
        "HTTP/1.1 200 OK\nServer: Rust Server/1.0\nContent-Length: 3\n\nabc"
    );
}

#[test]
fn content_length_counts_bytes() {
    let mut r = HttpResponse::new();
    r.body_str(String::from("héllo"));
    assert_eq!(r.headers.get("Content-Length"), Some(&"6".to_string()));
    r.body(vec![0u8; 1234]);
    assert_eq!(r.headers.get("Content-Length"), Some(&"1234".to_string()));
    assert_eq!(r.body_ref().map(|b| b.len()), Some(1234));
    r.body(Vec::new());
    assert_eq!(r.headers.get("Content-Length"), Some(&"0".to_string()));
}

#[test]
fn content_length_follows_each_mutator() {
    let mut r = HttpResponse::new();
    r.header(String::from("Content-Type"), String::from("text/plain"));
    r.body_str(String::from("first body"));
    r.success();
    r.body_str(String::from("x"));
    assert_eq!(r.headers.get("Content-Length"), Some(&"1".to_string()));
    r.not_found();
    assert_eq!(r.headers.get("Content-Length"), Some(&"13".to_string()));
    assert_eq!(r.body_str_ref(), Some("404 Not Found"));
    assert_eq!(r.headers.get("Content-Type"), Some(&"text/plain".to_string()));
}

#[test]
fn bad_request_sets_code_message_and_body() {
    let mut r = HttpResponse::new();
    r.bad_request();
    assert_eq!(r.code, 400);
    assert_eq!(r.message, "Bad Request");
    assert_eq!(r.body_str_ref(), Some("400 Bad Request"));
    assert_eq!(r.headers.get("Content-Length"), Some(&"15".to_string()));
}

#[test]
fn not_found_sets_code_message_and_body() {
    let mut r = HttpResponse::new();
    r.not_found();
    assert_eq!(r.code, 404);
    assert_eq!(r.message, "Not Found");
    assert_eq!(r.to_string().lines().next().unwrap(), "HTTP/1.1 404 Not Found");
}

#[test]
fn error_sets_code_message_and_body() {
    let mut r = HttpResponse::new();
    r.error();
    assert_eq!(r.code, 500);
    assert_eq!(r.message, "Server Error");
    assert_eq!(r.body_str_ref(), Some("500 Server Error"));
    assert_eq!(r.headers.get("Content-Length"), Some(&"16".to_string()));
}

#[test]
fn header_replaces_value_in_place() {
    let mut r = HttpResponse::new();
    r.header(String::from("X-A"), String::from("1"));
    r.header(String::from("Server"), String::from("other"));
    assert_eq!(r.headers.len(), 2);
    assert_eq!(r.headers.get("Server"), Some(&"other".to_string()));
    let (name, value) = r.headers.entry(0);
    assert_eq!((name.as_str(), value.as_str()), ("Server", "other"));
}

#[test]
fn headers_extend_last_wins() {
    let mut more = Headers::new();
    more.insert(String::from("A"), String::from("1"));
    more.insert(String::from("B"), String::from("2"));
    more.insert(String::from("A"), String::from("3"));
    let mut r = HttpResponse::new();
    r.headers(more);
    assert_eq!(r.headers.len(), 3);
    assert_eq!(r.headers.get("A"), Some(&"3".to_string()));
    assert_eq!(r.headers.get("B"), Some(&"2".to_string()));
    assert_eq!(r.headers.get("C"), None);
}

#[test]
fn non_utf8_body_is_raw_on_the_wire_and_empty_as_text() {
    let mut r = HttpResponse::new();
    r.body(vec![0xff, 0x00, 0x41]);
    assert_eq!(r.body_str_ref(), None);
    assert!(r.to_string().ends_with("Content-Length: 3\n\n"));
    let bytes = r.to_bytes();
    assert_eq!(&bytes[bytes.len() - 5..], &[b'\n', b'\n', 0xff, 0x00, 0x41]);
}

#[test]
fn negative_code_is_written_with_sign() {
    let mut r = HttpResponse::new();
    r.code = -7;
    assert_eq!(r.to_string().lines().next().unwrap(), "HTTP/1.1 -7 OK");
}

#[test]
fn version_text() {
    assert_eq!(HttpVersion::V1.to_string(), "HTTP/1.1");
    assert_eq!(HttpVersion::UNDEFINED.to_string(), "UNDEFINED");
}
