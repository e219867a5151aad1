use vstd::prelude::*;
use vstd::utf8::encode_utf8;

use crate::channel::HttpChannel;
use crate::headers::{headers_text, lemma_position_absent, position, with_header, HeaderModel};
use crate::request::{parse_error, version_text, HttpRequest, HttpVersion};
use crate::response::{content_length_name, server_name, server_value, HttpResponse};
use crate::router::{first_match, HttpRouter, RequestMapping};
use crate::text::{decimal, signed_decimal};

verus! {

/// The wire form of a fresh response given a status and a text body: version
/// 1.1, the `Server` header, then `Content-Length`.
pub open spec fn canned_wire(code: int, message: Seq<char>, body: Seq<char>) -> Seq<u8> {
    let hs: Seq<HeaderModel> = seq![
        (server_name(), server_value()),
        (content_length_name(), decimal(encode_utf8(body).len())),
    ];
    encode_utf8("HTTP/1.1"@ + " "@ + signed_decimal(code) + " "@ + message + "\n"@ + headers_text(hs) + "\n"@)
        + encode_utf8(body)
}

/// After `HttpResponse::new`, setting `Content-Length` appends it after `Server`.
proof fn lemma_canned_headers(d: Seq<char>)
    ensures
        crate::headers::with_header(seq![(server_name(), server_value())], content_length_name(), d)
            == seq![(server_name(), server_value()), (content_length_name(), d)],
{
    let hs: Seq<HeaderModel> = seq![(server_name(), server_value())];
    reveal_strlit("Server");
    reveal_strlit("Content-Length");
    assert(server_name()[0] != content_length_name()[0]);
    assert(hs[0].0 != content_length_name());
    lemma_position_absent(hs, content_length_name());
    assert(position(hs, content_length_name()) == 1);
    assert(hs.push((content_length_name(), d)) =~= seq![(server_name(), server_value()), (content_length_name(), d)]);
}

/// The wire form of a response whose headers are `Server` then `Content-Length`.
proof fn lemma_canned_wire(r: &HttpResponse, code: int, message: Seq<char>, body: Seq<char>)
    requires
        r.code == code,
        r.message@ == message,
        r.version == crate::request::HttpVersion::V1,
        r.headers@ == seq![(server_name(), server_value()), (content_length_name(), decimal(encode_utf8(body).len()))],
        r.spec_body() == Some(encode_utf8(body)),
    ensures
        r.wire() == canned_wire(code, message, body),
{
    let hs = r.headers@;
    assert(hs.drop_last().drop_last() =~= Seq::<HeaderModel>::empty());
}

/// The wire form of `resp` once `error()` and then `body_str(m)` have been applied to it.
pub open spec fn error_wire(resp: HttpResponse, m: Seq<char>) -> Seq<u8> {
    let failed = with_header(
        resp.headers@,
        content_length_name(),
        decimal(encode_utf8("500 Server Error"@).len()),
    );
    let hs = with_header(failed, content_length_name(), decimal(encode_utf8(m).len()));
    encode_utf8(
        version_text(resp.version) + " "@ + signed_decimal(500) + " "@ + "Server Error"@ + "\n"@
            + headers_text(hs) + "\n"@,
    ) + encode_utf8(m)
}

/// The bytes that end an exchange whose handler left `after` and returned
/// `outcome`: what it sent itself once the exchange is marked sent; else the
/// response; else, on a failure, a `500 Server Error` whose body is the message.
pub open spec fn finished(after: HttpChannel, outcome: Result<(), String>) -> Seq<u8> {
    if after.is_sent {
        after.output@
    } else {
        match outcome {
            Ok(()) => after.response.wire(),
            Err(m) => error_wire(after.response, m@),
        }
    }
}

/// Ends an exchange: returns the bytes to write back, given the channel as the
/// handler left it and what the handler returned. The buffered response is
/// written only when nothing was sent.
pub fn finish(channel: HttpChannel, outcome: Result<(), String>) -> (r: Vec<u8>)
    ensures
        r@ == finished(channel, outcome),
{
    let mut channel = channel;
    let ghost start = channel.response;
    if channel.is_sent {
        return channel.output;
    }
    match outcome {
        Ok(()) => channel.response.to_bytes(),
        Err(message) => {
            let ghost m = message@;
            channel.response.error();
            channel.response.body_str(message);
            let r = channel.response.to_bytes();
            assert(r@ =~= error_wire(start, m));
            r
        },
    }
}

/// The channel a handler receives: `request`, a fresh `200 OK` response with
/// the `Server` header, nothing sent.
pub open spec fn fresh_channel(c: HttpChannel, request: HttpRequest) -> bool {
    &&& c.request == request
    &&& c.response.code == 200
    &&& c.response.message@ == "OK"@
    &&& c.response.version == HttpVersion::V1
    &&& c.response.headers@ == seq![(server_name(), server_value())]
    &&& c.response.spec_body() is None
    &&& c.output@.len() == 0
    &&& !c.is_sent
}

/// `out` is what answering `request` with `router` gives: a `404 Not Found`
/// when no route applies; else what the first route that applies did to a
/// fresh channel, ended by `finished`.
pub open spec fn responds<M: RequestMapping>(router: HttpRouter<M>, request: HttpRequest, out: Seq<u8>) -> bool {
    match first_match(router.routes(), &request) {
        None => out == canned_wire(404, "Not Found"@, "404 Not Found"@),
        Some(i) => exists|before: HttpChannel, after: HttpChannel, res: Result<(), String>|
            fresh_channel(before, request) && #[trigger] router.routes()[i].handled(before, after, res)
                && out == finished(after, res),
    }
}

/// Runs `request` through `router` and returns the bytes to write back.
pub fn respond_to<M: RequestMapping>(router: &HttpRouter<M>, request: HttpRequest) -> (r: Vec<u8>)
    ensures
        responds(*router, request, r@),
{
    let ghost req = request;
    let response = HttpResponse::new();
    let mut channel = HttpChannel::new(request, response);
    let ghost before = channel;
    proof {
        lemma_canned_headers(decimal(encode_utf8("404 Not Found"@).len()));
    }
    let outcome = router.handle(&mut channel);
    let ghost after = channel;
    let ghost res = outcome;
    proof {
        if first_match(router.routes(), &req) is None {
            lemma_canned_wire(&channel.response, 404, "Not Found"@, "404 Not Found"@);
        }
    }
    let r = finish(channel, outcome);
    proof {
        if let Some(i) = first_match(router.routes(), &req) {
            assert(router.routes()[i].handled(before, after, res));
        }
    }
    r
}

/// One exchange on what was read from a connection: returns the bytes to write
/// back, or nothing when nothing was read. A request that does not parse gets
/// a `400 Bad Request` response; one that does is answered by `respond_to`.
pub fn exchange<M: RequestMapping>(router: &HttpRouter<M>, input: &str) -> (r: Option<Vec<u8>>)
    ensures
        r is None <==> input@.len() == 0,
        input@.len() > 0 && parse_error(input@) is Some ==> (r matches Some(b) && b@ == canned_wire(
            400,
            "Bad Request"@,
            "400 Bad Request"@,
        )),
        input@.len() > 0 && parse_error(input@) is None ==> (r matches Some(b) && exists|q: HttpRequest|
            #[trigger] q.parsed_from(input@) && responds(*router, q, b@)),
{
    if input.is_empty() {
        return None;
    }
    match HttpRequest::parse(input) {
        Ok(request) => {
            let ghost q = request;
            let r = respond_to(router, request);
            assert(q.parsed_from(input@) && responds(*router, q, r@));
            Some(r)
        },
        Err(_) => {
            let mut response = HttpResponse::new();
            response.bad_request();
            proof {
                lemma_canned_headers(decimal(encode_utf8("400 Bad Request"@).len()));
                lemma_canned_wire(&response, 400, "Bad Request"@, "400 Bad Request"@);
            }
            Some(response.to_bytes())
        },
    }
}

} // verus!
