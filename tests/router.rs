use http::channel::HttpChannel;
use http::connection::{exchange, finish, respond_to};
use http::pattern::Pattern;
use http::request::HttpRequest;
use http::response::HttpResponse;
use http::router::{Handler, HttpRouter, Mapping, RegexMapping, RequestMapping, StaticMapping};

/// Sets the body to a fixed text.
struct BodyText(&'static str);

impl Handler for BodyText {
    fn call(&self, channel: &mut HttpChannel) -> Result<(), String> {
        channel.response.body_str(String::from(self.0));
        Ok(())
    }
}

/// Fails with a message, having sent nothing.
struct Fails;

impl Handler for Fails {
    fn call(&self, _channel: &mut HttpChannel) -> Result<(), String> {
        Err(String::from("boom"))
    }
}

/// Sends its own bytes, then fails.
struct StreamsThenFails;

impl Handler for StreamsThenFails {
    fn call(&self, channel: &mut HttpChannel) -> Result<(), String> {
        channel.write(b"raw bytes");
        Err(String::from("late failure"))
    }
}

fn get(pattern: &str, text: &'static str) -> RegexMapping<BodyText> {
    RegexMapping::GET(Pattern::new(pattern).unwrap(), BodyText(text))
}

fn channel_for(input: &str) -> HttpChannel {
    HttpChannel::new(HttpRequest::new(input), HttpResponse::new())
}

#[test]
fn router_test1() {
    let mut router = HttpRouter::new();
    router.route(get(r"^/hello", "hello"));
    router.route(get(r"^/world", "world"));
    let mut channel = channel_for("GET /hello HTTP/1.1\n\n");

    router.handle(&mut channel).unwrap();
    let response = channel.response;
    assert_eq!("hello", response.body_str_ref().unwrap())
}

#[test]
fn router_test2() {
    let a = || 1;
    a();
}

#[test]
fn first_registered_route_wins() {
    let mut router = HttpRouter::new();
    router.route(get("/hello", "A"));
    router.route(get("/.*", "B"));
    let request = HttpRequest::new("GET /hello HTTP/1.1\n\n");
    assert_eq!(router.select(&request), Some(0));
    let mut channel = channel_for("GET /hello HTTP/1.1\n\n");
    router.handle(&mut channel).unwrap();
    assert_eq!(channel.response.body_str_ref(), Some("A"));
    let mut channel = channel_for("GET /other HTTP/1.1\n\n");
    router.handle(&mut channel).unwrap();
    assert_eq!(channel.response.body_str_ref(), Some("B"));
}

#[test]
fn broad_route_first_shadows_specific_one() {
    let mut router = HttpRouter::new();
    router.route(get("/.*", "B"));
    router.route(get("/hello", "A"));
    let mut channel = channel_for("GET /hello HTTP/1.1\n\n");
    router.handle(&mut channel).unwrap();
    assert_eq!(channel.response.body_str_ref(), Some("B"));
}

#[test]
fn unmatched_request_gets_404_and_no_handler_runs() {
    let mut router = HttpRouter::new();
    router.route(get("^/only$", "handled"));
    let mut channel = channel_for("GET /else HTTP/1.1\n\n");
    assert!(router.handle(&mut channel).is_ok());
    assert_eq!(channel.response.code, 404);
    assert_eq!(channel.response.body_str_ref(), Some("404 Not Found"));
    assert!(!channel.is_sent);
    assert!(channel.output.is_empty());
}

#[test]
fn method_filters() {
    let mut router = HttpRouter::new();
    router.route(RegexMapping::POST(Pattern::new("^/p$").unwrap(), BodyText("post")));
    router.route(RegexMapping::REQUEST(Pattern::new("^/p$").unwrap(), BodyText("any")));
    let post = HttpRequest::new("POST /p HTTP/1.1\n\n");
    let get = HttpRequest::new("GET /p HTTP/1.1\n\n");
    let other = HttpRequest::new("PUT /p HTTP/1.1\n\n");
    assert_eq!(router.select(&post), Some(0));
    assert_eq!(router.select(&get), Some(1));
    assert_eq!(router.select(&other), Some(1));
    let only_get = get_mapping();
    assert!(only_get.predicate(&get));
    assert!(!only_get.predicate(&post));
}

fn get_mapping() -> RegexMapping<BodyText> {
    get("^/p$", "get")
}

#[test]
fn pattern_sees_path_without_query() {
    let mut router = HttpRouter::new();
    router.route(get("^/abc$", "abc"));
    let request = HttpRequest::new("GET /abc?x=1 HTTP/1.1\n\n");
    assert_eq!(router.select(&request), Some(0));
}

#[test]
fn static_mapping_serves_get_under_its_patterns() {
    let m = StaticMapping::new(
        vec![Pattern::new("^/static/").unwrap(), Pattern::new(r"\.html$").unwrap()],
        BodyText("file"),
    );
    assert!(m.predicate(&HttpRequest::new("GET /static/a.css HTTP/1.1\n\n")));
    assert!(m.predicate(&HttpRequest::new("GET /x/index.html HTTP/1.1\n\n")));
    assert!(!m.predicate(&HttpRequest::new("POST /static/a.css HTTP/1.1\n\n")));
    assert!(!m.predicate(&HttpRequest::new("GET /other HTTP/1.1\n\n")));
    assert!(!StaticMapping::new(Vec::new(), Fails).predicate(&HttpRequest::new("GET / HTTP/1.1\n\n")));
}

#[test]
fn channel_send_writes_response_then_bytes() {
    let mut channel = channel_for("GET / HTTP/1.1\n\n");
    channel.send(b"tail");
    assert!(channel.is_sent);
    let mut expected = HttpResponse::new().to_bytes();
    expected.extend_from_slice(b"tail");
    assert_eq!(channel.output, expected);
}

#[test]
fn end_to_end_exchange() {
    let mut router = HttpRouter::new();
    router.route(get("^/abc$", "abc"));
    let out = exchange(&router, "GET /abc HTTP/1.1\n\n").unwrap();
    let text = String::from_utf8(out).unwrap();
    assert_eq!(text.lines().next().unwrap(), "HTTP/1.1 200 OK");
    let body = text.split("\n\n").nth(1).unwrap();
    assert_eq!(body, "abc");
}

#[test]
fn empty_read_writes_nothing() {
    let router: HttpRouter<RegexMapping<BodyText>> = HttpRouter::new();
    assert_eq!(exchange(&router, ""), None);
}

#[test]
fn malformed_request_gets_400() {
    let router: HttpRouter<RegexMapping<BodyText>> = HttpRouter::new();
    let out = String::from_utf8(exchange(&router, "GARBAGE\n\n").unwrap()).unwrap();
    assert_eq!(
        out,
        "HTTP/1.1 400 Bad Request\nServer: Rust Server/1.0\nContent-Length: 15\n\n400 Bad Request"
    );
}

#[test]
fn unmatched_exchange_gets_404_wire_form() {
    let router: HttpRouter<RegexMapping<BodyText>> = HttpRouter::new();
    let out = String::from_utf8(exchange(&router, "GET /none HTTP/1.1\n\n").unwrap()).unwrap();
    assert_eq!(
        out,
        "HTTP/1.1 404 Not Found\nServer: Rust Server/1.0\nContent-Length: 13\n\n404 Not Found"
    );
}

#[test]
fn failing_handler_gets_500_with_its_message() {
    let mut router = HttpRouter::new();
    router.route(RegexMapping::GET(Pattern::new("^/").unwrap(), Fails));
    let out = respond_to(&router, HttpRequest::new("GET /x HTTP/1.1\n\n"));
    let text = String::from_utf8(out).unwrap();
    assert_eq!(text.lines().next().unwrap(), "HTTP/1.1 500 Server Error");
    assert!(text.ends_with("Content-Length: 4\n\nboom"));
}

#[test]
fn sent_exchange_is_not_written_again() {
    let mut router = HttpRouter::new();
    router.route(RegexMapping::GET(Pattern::new("^/").unwrap(), StreamsThenFails));
    let out = respond_to(&router, HttpRequest::new("GET /x HTTP/1.1\n\n"));
    assert_eq!(out, b"raw bytes".to_vec());
}

#[test]
fn mixed_routes_dispatch_in_order() {
    let mut router = HttpRouter::new();
    router.route(Mapping::Static(StaticMapping::new(vec![Pattern::new("^/static/").unwrap()], BodyText("file"))));
    router.route(Mapping::Regex(get("^/", "root")));
    let mut channel = channel_for("GET /static/x HTTP/1.1\n\n");
    router.handle(&mut channel).unwrap();
    assert_eq!(channel.response.body_str_ref(), Some("file"));
    let mut channel = channel_for("POST /static/x HTTP/1.1\n\n");
    router.handle(&mut channel).unwrap();
    assert_eq!(channel.response.code, 404);
}

#[test]
fn finish_writes_the_response_when_nothing_was_sent() {
    let channel = channel_for("GET / HTTP/1.1\n\n");
    let expected = HttpResponse::new().to_bytes();
    assert_eq!(finish(channel, Ok(())), expected);
}

#[test]
fn finish_turns_a_failure_into_500_with_its_message() {
    let channel = channel_for("GET / HTTP/1.1\n\n");
    let out = String::from_utf8(finish(channel, Err(String::from("bad thing")))).unwrap();
    assert_eq!(
        out,
        "HTTP/1.1 500 Server Error\nServer: Rust Server/1.0\nContent-Length: 9\n\nbad thing"
    );
}

#[test]
fn finish_writes_only_what_was_sent() {
    let mut channel = channel_for("GET / HTTP/1.1\n\n");
    channel.write(b"abc");
    assert_eq!(finish(channel, Err(String::from("ignored"))), b"abc".to_vec());
}

#[test]
fn matched_handler_error_comes_back_unchanged() {
    let mut router = HttpRouter::new();
    router.route(RegexMapping::GET(Pattern::new("^/").unwrap(), Fails));
    let mut channel = channel_for("GET /x HTTP/1.1\n\n");
    assert_eq!(router.handle(&mut channel), Err(String::from("boom")));
    assert_eq!(channel.response.code, 200);
}
