use vstd::prelude::*;
use vstd::string::{StrSliceExecFns, StringSliceAdditionalSpecFns};
use vstd::utf8::{decode_utf8, encode_utf8, valid_utf8};

use crate::headers::{
    header_value, headers_text, lemma_header_value_other, lemma_with_header_distinct,
    lemma_with_headers_other, with_header, with_headers, Headers,
};
use crate::request::{version_text, HttpVersion};
use crate::text::{decimal, decimal_string, push_signed_decimal, signed_decimal};

verus! {

broadcast use vstd::utf8::encode_utf8_decode_utf8;

/// Relies on std::str::from_utf8: it accepts exactly the valid UTF-8 byte
/// sequences, and the text it returns is encoded by those bytes.
#[verifier::external_body]
fn utf8_text(b: &[u8]) -> (r: Option<&str>)
    ensures
        r is Some <==> valid_utf8(b@),
        r matches Some(s) ==> s.spec_bytes() == b@,
{
    std::str::from_utf8(b).ok()
}

pub open spec fn content_length_name() -> Seq<char> {
    "Content-Length"@
}

pub open spec fn server_name() -> Seq<char> {
    "Server"@
}

pub open spec fn server_value() -> Seq<char> {
    "Rust Server/1.0"@
}

/// The text of a body, as the text form of a message shows it: empty when the
/// body is absent or is not UTF-8.
pub open spec fn body_text(b: Option<Seq<u8>>) -> Seq<char> {
    match b {
        Some(bytes) => if valid_utf8(bytes) {
            decode_utf8(bytes)
        } else {
            Seq::empty()
        },
        None => Seq::empty(),
    }
}

/// The bytes of a body as they go on the wire: nothing when it is absent.
pub open spec fn body_bytes(b: Option<Seq<u8>>) -> Seq<u8> {
    match b {
        Some(bytes) => bytes,
        None => Seq::empty(),
    }
}

/// On the wire, a response whose `Content-Length` is consistent carries, after
/// its head, exactly the body's bytes, and the header gives their number.
pub proof fn lemma_wire_body_matches_content_length(r: HttpResponse)
    requires
        r.length_consistent(),
        header_value(r.headers@, content_length_name()) is Some,
    ensures
        r.spec_body() matches Some(b) && r.wire() == encode_utf8(r.head_text()) + b
            && header_value(r.headers@, content_length_name()) == Some(decimal(b.len())),
{
}

/// A response, built by handlers and serialised by the connection.
#[derive(Debug)]
pub struct HttpResponse {
    pub code: i32,
    pub message: String,
    pub version: HttpVersion,
    pub headers: Headers,
    pub body: Option<Vec<u8>>,
}

impl HttpResponse {
    /// The body, if one is set.
    pub open spec fn spec_body(&self) -> Option<Seq<u8>> {
        match self.body {
            Some(b) => Some(b@),
            None => None,
        }
    }

    /// A `Content-Length` header, where there is one, gives the body's length in bytes.
    pub open spec fn length_consistent(&self) -> bool {
        header_value(self.headers@, content_length_name()) matches Some(v) ==> (
            self.spec_body() matches Some(b) && v == decimal(b.len()))
    }

    /// `VERSION CODE MESSAGE`.
    pub open spec fn status_line(&self) -> Seq<char> {
        version_text(self.version) + " "@ + signed_decimal(self.code as int) + " "@ + self.message@
    }

    /// The status line, the header lines and the blank line that ends them.
    pub open spec fn head_text(&self) -> Seq<char> {
        self.status_line() + "\n"@ + headers_text(self.headers@) + "\n"@
    }

    /// The message as bytes on the wire.
    pub open spec fn wire(&self) -> Seq<u8> {
        encode_utf8(self.head_text()) + body_bytes(self.spec_body())
    }

    /// The message as text, the body shown as `body_text` shows it.
    pub open spec fn text(&self) -> Seq<char> {
        self.head_text() + body_text(self.spec_body())
    }

    /// `200 OK`, version 1.1, a `Server` header and no body.
    pub fn new() -> (r: HttpResponse)
        ensures
            r.length_consistent(),
            r.code == 200,
            r.message@ == "OK"@,
            r.version == HttpVersion::V1,
            r.headers@ == seq![(server_name(), server_value())],
            r.spec_body() is None,
    {
        let mut headers = Headers::new();
        headers.insert("Server".to_string(), "Rust Server/1.0".to_string());
        proof {
            reveal_strlit("Server");
            reveal_strlit("Content-Length");
            assert(headers@ =~= seq![(server_name(), server_value())]);
            assert(server_name()[0] != content_length_name()[0]);
            assert(headers@[0].0 != content_length_name());
        }
        HttpResponse { code: 200, message: "OK".to_string(), version: HttpVersion::V1, headers, body: None }
    }

    /// Sets the status to `200 OK`.
    pub fn success(&mut self)
        ensures
            final(self).code == 200,
            final(self).message@ == "OK"@,
            final(self).version == old(self).version,
            final(self).headers@ == old(self).headers@,
            final(self).spec_body() == old(self).spec_body(),
            old(self).length_consistent() ==> final(self).length_consistent(),
    {
        self.code = 200;
        self.message = "OK".to_string();
    }

    /// Sets the header `name` to `value`, replacing an entry of that name.
    pub fn header(&mut self, name: String, value: String)
        ensures
            final(self).headers@ == with_header(old(self).headers@, name@, value@),
            final(self).code == old(self).code,
            final(self).message@ == old(self).message@,
            final(self).version == old(self).version,
            final(self).spec_body() == old(self).spec_body(),
            old(self).length_consistent() && name@ != content_length_name()
                ==> final(self).length_consistent(),
    {
        proof {
            use_type_invariant(&self.headers);
            lemma_with_header_distinct(self.headers@, name@, value@);
            if old(self).length_consistent() && name@ != content_length_name() {
                lemma_header_value_other(self.headers@, name@, value@, content_length_name());
            }
        }
        self.headers.insert(name, value);
    }

    /// Sets each header of `headers`, in its order.
    pub fn headers(&mut self, headers: Headers)
        ensures
            final(self).headers@ == with_headers(old(self).headers@, headers@),
            final(self).code == old(self).code,
            final(self).message@ == old(self).message@,
            final(self).version == old(self).version,
            final(self).spec_body() == old(self).spec_body(),
            old(self).length_consistent() && (forall|k: int|
                0 <= k < headers@.len() ==> (#[trigger] headers@[k]).0 != content_length_name())
                ==> final(self).length_consistent(),
    {
        proof {
            use_type_invariant(&self.headers);
            if forall|k: int| 0 <= k < headers@.len() ==> (#[trigger] headers@[k]).0 != content_length_name() {
                lemma_with_headers_other(self.headers@, headers@, content_length_name());
            }
        }
        self.headers.extend(headers);
    }

    /// Sets the body to these bytes and `Content-Length` to their number.
    pub fn body(&mut self, body: Vec<u8>)
        ensures
            final(self).length_consistent(),
            final(self).headers@ == with_header(
                old(self).headers@,
                content_length_name(),
                decimal(body@.len()),
            ),
            final(self).spec_body() == Some(body@),
            final(self).code == old(self).code,
            final(self).message@ == old(self).message@,
            final(self).version == old(self).version,
    {
        let len = decimal_string(body.len() as u64);
        proof {
            use_type_invariant(&self.headers);
            lemma_with_header_distinct(self.headers@, content_length_name(), len@);
        }
        self.headers.insert("Content-Length".to_string(), len);
        self.body = Some(body);
    }

    /// Sets the body to the UTF-8 bytes of `body` and `Content-Length` to their number.
    pub fn body_str(&mut self, body: String)
        ensures
            final(self).length_consistent(),
            final(self).headers@ == with_header(
                old(self).headers@,
                content_length_name(),
                decimal(encode_utf8(body@).len()),
            ),
            final(self).spec_body() == Some(encode_utf8(body@)),
            final(self).code == old(self).code,
            final(self).message@ == old(self).message@,
            final(self).version == old(self).version,
    {
        let bytes = body.as_str().as_bytes_vec();
        self.body(bytes);
    }

    /// Sets the status to `400 Bad Request`, with a body that says so.
    pub fn bad_request(&mut self)
        ensures
            final(self).length_consistent(),
            final(self).code == 400,
            final(self).message@ == "Bad Request"@,
            final(self).spec_body() == Some(encode_utf8("400 Bad Request"@)),
            final(self).headers@ == with_header(
                old(self).headers@,
                content_length_name(),
                decimal(encode_utf8("400 Bad Request"@).len()),
            ),
            final(self).version == old(self).version,
    {
        self.code = 400;
        self.message = "Bad Request".to_string();
        self.body_str("400 Bad Request".to_string());
    }

    /// Sets the status to `404 Not Found`, with a body that says so.
    pub fn not_found(&mut self)
        ensures
            final(self).length_consistent(),
            final(self).code == 404,
            final(self).message@ == "Not Found"@,
            final(self).spec_body() == Some(encode_utf8("404 Not Found"@)),
            final(self).headers@ == with_header(
                old(self).headers@,
                content_length_name(),
                decimal(encode_utf8("404 Not Found"@).len()),
            ),
            final(self).version == old(self).version,
    {
        self.code = 404;
        self.message = "Not Found".to_string();
        self.body_str("404 Not Found".to_string());
    }

    /// Sets the status to `500 Server Error`, with a body that says so.
    pub fn error(&mut self)
        ensures
            final(self).length_consistent(),
            final(self).code == 500,
            final(self).message@ == "Server Error"@,
            final(self).spec_body() == Some(encode_utf8("500 Server Error"@)),
            final(self).headers@ == with_header(
                old(self).headers@,
                content_length_name(),
                decimal(encode_utf8("500 Server Error"@).len()),
            ),
            final(self).version == old(self).version,
    {
        self.code = 500;
        self.message = "Server Error".to_string();
        self.body_str("500 Server Error".to_string());
    }

    /// The body's bytes, if a body is set.
    pub fn body_ref(&self) -> (r: Option<&[u8]>)
        ensures
            r matches Some(b) ==> self.spec_body() == Some(b@),
            r is None ==> self.spec_body() is None,
    {
        match &self.body {
            Some(b) => Some(b.as_slice()),
            None => None,
        }
    }

    /// The body as text: `None` when it is absent or is not UTF-8.
    pub fn body_str_ref(&self) -> (r: Option<&str>)
        ensures
            r matches Some(s) ==> self.spec_body() == Some(encode_utf8(s@)),
            r is None ==> (self.spec_body() matches Some(b) ==> !valid_utf8(b)),
    {
        match &self.body {
            Some(b) => utf8_text(b.as_slice()),
            None => None,
        }
    }

    /// The status line, header lines and blank line, as text.
    fn head_string(&self) -> (r: String)
        ensures
            r@ == self.head_text(),
    {
        let mut out = self.version.to_string();
        out.append(" ");
        push_signed_decimal(&mut out, self.code);
        out.append(" ");
        out.append(self.message.as_str());
        out.append("\n");
        self.headers.write_lines(&mut out);
        out.append("\n");
        assert(out@ =~= self.head_text());
        out
    }

    /// The message as bytes on the wire: status line, header lines, a blank
    /// line, then the body's bytes, if any.
    pub fn to_bytes(&self) -> (r: Vec<u8>)
        ensures
            r@ == self.wire(),
    {
        let head = self.head_string();
        let mut out = head.as_str().as_bytes_vec();
        match &self.body {
            Some(b) => {
                let mut rest = b.clone();
                out.append(&mut rest);
            },
            None => {},
        }
        assert(out@ =~= self.wire());
        out
    }

    /// The message as text, with the body shown only when it is UTF-8.
    pub fn to_string(&self) -> (r: String)
        ensures
            r@ == self.text(),
    {
        let mut out = self.head_string();
        match self.body_str_ref() {
            Some(s) => {
                proof {
                    vstd::utf8::encode_utf8_valid_utf8(s@);
                }
                out.append(s);
            },
            None => {},
        }
        assert(out@ =~= self.text());
        out
    }
}

} // verus!
