use vstd::prelude::*;

use vstd::pervasive::unreached;

use crate::headers::{with_headers, HeaderModel, Headers};
use crate::parse::{
    body_of, header_lines, header_of, parse_header, parse_http_request, request_line, tokens,
    chars_of, token_ranges,
};
use crate::pattern::{regex_matches, Pattern};
use crate::text::str_eq;
use multimap::MultiMap;

verus! {

/// The request method; a token other than `GET` or `POST` is `UNDEFINED`.
#[derive(Debug, Clone, Copy, PartialEq, Eq, Structural)]
pub enum HttpMethod {
    GET,
    POST,
    UNDEFINED,
}

/// The method that a request-line token names.
pub open spec fn method_of(s: Seq<char>) -> HttpMethod {
    if s == "GET"@ {
        HttpMethod::GET
    } else if s == "POST"@ {
        HttpMethod::POST
    } else {
        HttpMethod::UNDEFINED
    }
}

impl<'a> From<&'a str> for HttpMethod {
    fn from(s: &'a str) -> (r: HttpMethod)
        ensures
            r == method_of(s@),
    {
        if str_eq(s, "GET") {
            HttpMethod::GET
        } else if str_eq(s, "POST") {
            HttpMethod::POST
        } else {
            HttpMethod::UNDEFINED
        }
    }
}

impl<'a> vstd::std_specs::convert::FromSpecImpl<&'a str> for HttpMethod {
    open spec fn obeys_from_spec() -> bool {
        true
    }

    open spec fn from_spec(s: &'a str) -> HttpMethod {
        method_of(s@)
    }
}

/// The protocol version; a token other than `HTTP/1.1` is `UNDEFINED`.
#[derive(Debug, Clone, Copy, PartialEq, Eq, Structural)]
pub enum HttpVersion {
    V1,
    UNDEFINED,
}

/// The version that a request-line token names.
pub open spec fn version_of(s: Seq<char>) -> HttpVersion {
    if s == "HTTP/1.1"@ {
        HttpVersion::V1
    } else {
        HttpVersion::UNDEFINED
    }
}

/// The text of a version.
pub open spec fn version_text(v: HttpVersion) -> Seq<char> {
    match v {
        HttpVersion::V1 => "HTTP/1.1"@,
        HttpVersion::UNDEFINED => "UNDEFINED"@,
    }
}

impl<'a> From<&'a str> for HttpVersion {
    fn from(s: &'a str) -> (r: HttpVersion)
        ensures
            r == version_of(s@),
    {
        if str_eq(s, "HTTP/1.1") {
            HttpVersion::V1
        } else {
            HttpVersion::UNDEFINED
        }
    }
}

impl<'a> vstd::std_specs::convert::FromSpecImpl<&'a str> for HttpVersion {
    open spec fn obeys_from_spec() -> bool {
        true
    }

    open spec fn from_spec(s: &'a str) -> HttpVersion {
        version_of(s@)
    }
}

impl HttpVersion {
    /// The text of this version.
    pub fn to_string(&self) -> (r: String)
        ensures
            r@ == version_text(*self),
    {
        match self {
            HttpVersion::V1 => "HTTP/1.1".to_string(),
            HttpVersion::UNDEFINED => "UNDEFINED".to_string(),
        }
    }
}

/// Whether the URL parser accepts `text`.
pub uninterp spec fn url_accepts(text: Seq<char>) -> bool;

/// The path of the URL that `text` parses to.
pub uninterp spec fn url_path(text: Seq<char>) -> Seq<char>;

/// The query string of the URL that `text` parses to.
pub uninterp spec fn url_query(text: Seq<char>) -> Option<Seq<char>>;

/// The decoded key-value pairs of the query of the URL that `text` parses to, in order.
pub uninterp spec fn url_query_pairs(text: Seq<char>) -> Seq<(Seq<char>, Seq<char>)>;

#[verifier::external_type_specification]
#[verifier::external_body]
pub struct ExUrl(url::Url);

#[verifier::external_type_specification]
#[verifier::external_body]
pub struct ExUrlParseError(url::ParseError);

/// Relies on url::Url::parse: it parses exactly the texts it accepts.
#[verifier::external_body]
fn parse_url(text: &str) -> (r: Result<url::Url, url::ParseError>)
    ensures
        r is Ok <==> url_accepts(text@),
{
    url::Url::parse(text)
}

/// A parsed URL together with the text it was parsed from.
#[derive(Debug)]
pub struct ParsedUrl {
    text: String,
    url: url::Url,
}

impl View for ParsedUrl {
    type V = Seq<char>;

    closed spec fn view(&self) -> Seq<char> {
        self.text@
    }
}

/// Relies on url::Url::path, on the URL that `u` holds, which was parsed from `u@`.
#[verifier::external_body]
fn url_path_of(u: &ParsedUrl) -> (r: String)
    ensures
        r@ == url_path(u@),
{
    u.url.path().to_string()
}

/// Relies on url::Url::query, on the URL that `u` holds, which was parsed from `u@`.
#[verifier::external_body]
fn url_query_of(u: &ParsedUrl) -> (r: Option<String>)
    ensures
        r is Some <==> url_query(u@) is Some,
        r matches Some(q) ==> url_query(u@) == Some(q@),
{
    u.url.query().map(|q| q.to_string())
}

/// Relies on url::Url::query_pairs, on the URL that `u` holds, which was parsed
/// from `u@`: the decoded pairs of its query, in order.
#[verifier::external_body]
fn url_query_pairs_of(u: &ParsedUrl) -> (r: Vec<(String, String)>)
    ensures
        r@.len() == url_query_pairs(u@).len(),
        forall|k: int| 0 <= k < r@.len() ==> ((#[trigger] r@[k]).0@, r@[k].1@) == url_query_pairs(u@)[k],
{
    u.url.query_pairs().into_owned().collect()
}

impl ParsedUrl {
    /// Parses `text` as a URL.
    pub fn parse(text: &str) -> (r: Option<ParsedUrl>)
        ensures
            r is Some <==> url_accepts(text@),
            r matches Some(u) ==> u@ == text@,
    {
        match parse_url(text) {
            Ok(url) => Some(ParsedUrl { text: text.to_string(), url }),
            Err(_) => None,
        }
    }

    /// The path.
    pub fn path(&self) -> (r: String)
        ensures
            r@ == url_path(self@),
    {
        url_path_of(self)
    }

    /// The query string, if there is one.
    pub fn query(&self) -> (r: Option<String>)
        ensures
            r is Some <==> url_query(self@) is Some,
            r matches Some(q) ==> url_query(self@) == Some(q@),
    {
        url_query_of(self)
    }

    /// The decoded pairs of the query, in order.
    pub fn query_pairs(&self) -> (r: Vec<(String, String)>)
        ensures
            r@.len() == url_query_pairs(self@).len(),
            forall|k: int| 0 <= k < r@.len() ==> ((#[trigger] r@[k]).0@, r@[k].1@) == url_query_pairs(self@)[k],
    {
        url_query_pairs_of(self)
    }
}

#[verifier::external_type_specification]
#[verifier::external_body]
#[verifier::reject_recursive_types(K)]
#[verifier::reject_recursive_types(V)]
#[verifier::reject_recursive_types(S)]
pub struct ExMultiMap<K, V, S>(multimap::MultiMap<K, V, S>);

/// A multimap from query keys to their values.
pub type QueryMap = MultiMap<String, String>;

/// What a multimap of strings holds: for each key, its values in insertion order.
pub uninterp spec fn multimap_contents(m: QueryMap) -> Map<Seq<char>, Seq<Seq<char>>>;

/// `c` with `v` appended to the values of `k`.
pub open spec fn add_value(c: Map<Seq<char>, Seq<Seq<char>>>, k: Seq<char>, v: Seq<char>) -> Map<Seq<char>, Seq<Seq<char>>> {
    if c.contains_key(k) {
        c.insert(k, c[k].push(v))
    } else {
        c.insert(k, seq![v])
    }
}

/// Pairs grouped by key, the values of a key in the order of the pairs.
pub open spec fn group_pairs(ps: Seq<(Seq<char>, Seq<char>)>) -> Map<Seq<char>, Seq<Seq<char>>>
    decreases ps.len(),
{
    if ps.len() == 0 {
        Map::empty()
    } else {
        add_value(group_pairs(ps.drop_last()), ps.last().0, ps.last().1)
    }
}

/// Relies on multimap::MultiMap::new: the map starts empty.
#[verifier::external_body]
fn multimap_new() -> (r: QueryMap)
    ensures
        multimap_contents(r).dom() == Set::<Seq<char>>::empty(),
{
    MultiMap::new()
}

/// Relies on multimap::MultiMap::insert: the value goes at the end of the
/// values of its key, or starts them.
#[verifier::external_body]
fn multimap_insert(m: &mut QueryMap, k: String, v: String)
    ensures
        multimap_contents(*final(m)) == add_value(multimap_contents(*old(m)), k@, v@),
{
    m.insert(k, v)
}

/// Why a request could not be parsed.
#[derive(Debug, Clone, Copy, PartialEq, Eq, Structural)]
pub enum RequestError {
    /// The request line has fewer than three tokens.
    MalformedRequestLine,
    /// A header line has no colon.
    MalformedHeader,
}

/// The base against which a request target is read as a URL.
pub open spec fn url_base() -> Seq<char> {
    "http://undefined"@
}

/// The header lines of `cs`, parsed; meaningful when every one has a colon.
pub open spec fn parsed_headers(cs: Seq<char>) -> Seq<HeaderModel> {
    header_lines(cs).map_values(|l: Seq<char>| header_of(l).unwrap())
}

/// Every header line of `cs` has a colon.
pub open spec fn headers_ok(cs: Seq<char>) -> bool {
    forall|k: int| 0 <= k < header_lines(cs).len() ==> (#[trigger] header_of(header_lines(cs)[k])) is Some
}

/// How parsing `cs` fails, if it does: the request line is checked first.
pub open spec fn parse_error(cs: Seq<char>) -> Option<RequestError> {
    if tokens(request_line(cs)).len() < 3 {
        Some(RequestError::MalformedRequestLine)
    } else if !headers_ok(cs) {
        Some(RequestError::MalformedHeader)
    } else {
        None
    }
}

/// A request line with fewer than three tokens is refused; one with three is
/// accepted whatever its method and version tokens say, when every header line
/// has a colon: an unknown method or version is `UNDEFINED`, not an error.
pub proof fn lemma_request_line_tokens(cs: Seq<char>)
    ensures
        tokens(request_line(cs)).len() < 3 ==> parse_error(cs) == Some(RequestError::MalformedRequestLine),
        tokens(request_line(cs)).len() == 3 && headers_ok(cs) ==> parse_error(cs) is None,
{
}

/// The request target: the second token of the request line.
pub open spec fn target_of(cs: Seq<char>) -> Seq<char> {
    tokens(request_line(cs))[1]
}

/// A parsed request.
#[derive(Debug)]
pub struct HttpRequest {
    pub method: HttpMethod,
    /// The decoded path of the target, without its query.
    pub path: String,
    pub version: HttpVersion,
    pub headers: Headers,
    pub body: Option<String>,
    /// The query string of the target, if it has one.
    pub raw_query: Option<String>,
    /// The decoded key-value pairs of the query, in order.
    pub query_pairs: Vec<(String, String)>,
}

impl HttpRequest {
    /// The request that `cs` parses to, where `parse_error(cs)` is `None`.
    /// The target is read as a URL against `url_base`; a target that the URL
    /// parser rejects is kept whole as the path, with no query.
    pub open spec fn parsed_from(&self, cs: Seq<char>) -> bool {
        let toks = tokens(request_line(cs));
        let text = url_base() + target_of(cs);
        &&& self.method == method_of(toks[0])
        &&& self.version == version_of(toks[2])
        &&& self.headers@ == with_headers(Seq::empty(), parsed_headers(cs))
        &&& (self.body matches Some(b) ==> body_of(cs) == Some(b@))
        &&& (self.body is None ==> body_of(cs) is None)
        &&& if url_accepts(text) {
            &&& self.path@ == url_path(text)
            &&& (self.raw_query is Some <==> url_query(text) is Some)
            &&& (self.raw_query matches Some(q) ==> url_query(text) == Some(q@))
            &&& self.pairs_view() == url_query_pairs(text)
        } else {
            &&& self.path@ == target_of(cs)
            &&& self.raw_query is None
            &&& self.query_pairs@.len() == 0
        }
    }

    /// The query pairs as the contracts see them.
    pub open spec fn pairs_view(&self) -> Seq<(Seq<char>, Seq<char>)> {
        self.query_pairs@.map_values(|p: (String, String)| (p.0@, p.1@))
    }

    /// Parses a request: its request line, header lines and body.
    pub fn parse(s: &str) -> (r: Result<HttpRequest, RequestError>)
        ensures
            r matches Err(e) ==> parse_error(s@) == Some(e),
            r matches Ok(req) ==> parse_error(s@) is None && req.parsed_from(s@),
    {
        let (first, lines, body) = parse_http_request(s);
        let cs = chars_of(first.as_str());
        let toks = token_ranges(&cs, 3);
        if toks.len() < 3 {
            return Err(RequestError::MalformedRequestLine);
        }
        assert(tokens(request_line(s@)).len() >= 3);
        let mut headers = Headers::new();
        let ghost hl = header_lines(s@);
        let mut k: usize = 0;
        while k < lines.len()
            invariant
                lines@.len() == hl.len(),
                hl == header_lines(s@),
                tokens(request_line(s@)).len() >= 3,
                forall|m: int| 0 <= m < lines@.len() ==> (#[trigger] lines@[m])@ == hl[m],
                k <= lines@.len(),
                forall|m: int| 0 <= m < k ==> (#[trigger] header_of(hl[m])) is Some,
                headers@ == with_headers(Seq::empty(), hl.take(k as int).map_values(|l: Seq<char>| header_of(l).unwrap())),
            decreases lines@.len() - k,
        {
            match parse_header(lines[k].as_str()) {
                Ok((name, value)) => {
                    proof {
                        let f = |l: Seq<char>| header_of(l).unwrap();
                        assert(hl.take(k + 1).map_values(f).drop_last() =~= hl.take(k as int).map_values(f));
                    }
                    headers.insert(name, value);
                },
                Err(_) => {
                    proof {
                        assert(header_of(header_lines(s@)[k as int]) is None);
                        assert(!headers_ok(s@));
                    }
                    return Err(RequestError::MalformedHeader);
                },
            }
            k = k + 1;
        }
        proof {
            assert(hl.take(k as int) =~= hl);
        }
        let method = HttpMethod::from(first.substring_char(toks[0].0, toks[0].1));
        let target = first.substring_char(toks[1].0, toks[1].1);
        let version = HttpVersion::from(first.substring_char(toks[2].0, toks[2].1));
        let mut text = "http://undefined".to_string();
        text.append(target);
        let (path, raw_query, query_pairs) = match ParsedUrl::parse(text.as_str()) {
            Some(u) => (u.path(), u.query(), u.query_pairs()),
            None => (target.to_string(), None, Vec::new()),
        };
        let body = match body {
            Some(b) => Some(b.to_string()),
            None => None,
        };
        let req = HttpRequest { method, path, version, headers, body, raw_query, query_pairs };
        proof {
            if url_accepts(text@) {
                assert(req.pairs_view() =~= url_query_pairs(text@));
            }
        }
        Ok(req)
    }

    /// Parses a request that is known to be well formed.
    pub fn new(s: &str) -> (r: HttpRequest)
        requires
            parse_error(s@) is None,
        ensures
            r.parsed_from(s@),
    {
        match Self::parse(s) {
            Ok(r) => r,
            Err(_) => unreached(),
        }
    }

    /// The query string, if the target has one.
    pub fn query(&self) -> (r: Option<&str>)
        ensures
            r is Some <==> self.raw_query is Some,
            r matches Some(q) ==> self.raw_query matches Some(o) && q@ == o@,
    {
        match &self.raw_query {
            Some(q) => Some(q.as_str()),
            None => None,
        }
    }

    /// The query pairs grouped by key, the values of each key in order.
    pub fn query_pair(&self) -> (r: QueryMap)
        ensures
            multimap_contents(r) == group_pairs(self.pairs_view()),
    {
        let mut m = multimap_new();
        let mut i: usize = 0;
        while i < self.query_pairs.len()
            invariant
                i <= self.query_pairs@.len(),
                multimap_contents(m) == group_pairs(self.pairs_view().take(i as int)),
            decreases self.query_pairs@.len() - i,
        {
            let p = &self.query_pairs[i];
            proof {
                assert(self.pairs_view().take(i + 1).drop_last() =~= self.pairs_view().take(i as int));
            }
            multimap_insert(&mut m, p.0.clone(), p.1.clone());
            i = i + 1;
        }
        proof {
            assert(self.pairs_view().take(i as int) =~= self.pairs_view());
        }
        m
    }

    /// Whether `pattern` matches somewhere in the path.
    pub fn path_match(&self, pattern: &Pattern) -> (r: bool)
        ensures
            r == regex_matches(pattern@, self.path@),
    {
        pattern.is_match(self.path.as_str())
    }

    /// The body, if there is one.
    pub fn body(&self) -> (r: Option<&str>)
        ensures
            r is Some <==> self.body is Some,
            r matches Some(b) ==> self.body matches Some(o) && b@ == o@,
    {
        match &self.body {
            Some(b) => Some(b.as_str()),
            None => None,
        }
    }
}

} // verus!
