use vstd::prelude::*;
use vstd::utf8::encode_utf8;

use crate::channel::HttpChannel;
use crate::headers::with_header;
use crate::pattern::{regex_matches, Pattern};
use crate::request::{HttpMethod, HttpRequest};
use crate::response::content_length_name;
use crate::text::decimal;

verus! {

/// A route: whether it applies to a request, and what it does when chosen.
pub trait RequestMapping {
    /// Whether this route applies to `request`.
    spec fn applies(&self, request: &HttpRequest) -> bool;

    fn predicate(&self, request: &HttpRequest) -> (r: bool)
        ensures
            r == self.applies(request),
    ;

    /// What handling does: the channel before, the channel after, and the result.
    spec fn handled(&self, before: HttpChannel, after: HttpChannel, r: Result<(), String>) -> bool;

    /// Handles the exchange: fills the response, or sends bytes itself.
    /// An error carries a message.
    fn handle(&self, channel: &mut HttpChannel) -> (r: Result<(), String>)
        ensures
            self.handled(*old(channel), *final(channel), r),
    ;
}

/// The work a route does when it is chosen.
pub trait Handler {
    /// What a call does: the channel before, the channel after, and the result.
    /// A handler that does not state it leaves it unconstrained.
    open spec fn effect(&self, before: HttpChannel, after: HttpChannel, r: Result<(), String>) -> bool {
        true
    }

    fn call(&self, channel: &mut HttpChannel) -> (r: Result<(), String>)
        ensures
            self.effect(*old(channel), *final(channel), r),
    ;
}

/// A route whose path must match a pattern; by method: `GET` only, `POST`
/// only, or any method.
pub enum RegexMapping<F> {
    GET(Pattern, F),
    POST(Pattern, F),
    REQUEST(Pattern, F),
}

impl<F: Handler> RequestMapping for RegexMapping<F> {
    open spec fn applies(&self, request: &HttpRequest) -> bool {
        match self {
            RegexMapping::GET(p, _) => request.method == HttpMethod::GET && regex_matches(p@, request.path@),
            RegexMapping::POST(p, _) => request.method == HttpMethod::POST && regex_matches(p@, request.path@),
            RegexMapping::REQUEST(p, _) => regex_matches(p@, request.path@),
        }
    }

    fn predicate(&self, request: &HttpRequest) -> (r: bool) {
        match self {
            RegexMapping::GET(p, _) => request.method == HttpMethod::GET && request.path_match(p),
            RegexMapping::POST(p, _) => request.method == HttpMethod::POST && request.path_match(p),
            RegexMapping::REQUEST(p, _) => request.path_match(p),
        }
    }

    open spec fn handled(&self, before: HttpChannel, after: HttpChannel, r: Result<(), String>) -> bool {
        match self {
            RegexMapping::GET(_, f) => f.effect(before, after, r),
            RegexMapping::POST(_, f) => f.effect(before, after, r),
            RegexMapping::REQUEST(_, f) => f.effect(before, after, r),
        }
    }

    fn handle(&self, channel: &mut HttpChannel) -> (r: Result<(), String>) {
        match self {
            RegexMapping::GET(_, f) => f.call(channel),
            RegexMapping::POST(_, f) => f.call(channel),
            RegexMapping::REQUEST(_, f) => f.call(channel),
        }
    }
}

/// Serves static files: applies to `GET` requests whose path matches one of
/// its patterns; its handler streams the file.
pub struct StaticMapping<F> {
    pub static_path: Vec<Pattern>,
    pub handler: F,
}

impl<F> StaticMapping<F> {
    pub fn new(static_path: Vec<Pattern>, handler: F) -> (r: StaticMapping<F>)
        ensures
            r.static_path@ == static_path@,
            r.handler == handler,
    {
        StaticMapping { static_path, handler }
    }

    /// Whether this serves `request`.
    pub open spec fn serves(&self, request: &HttpRequest) -> bool {
        request.method == HttpMethod::GET && exists|i: int|
            0 <= i < self.static_path@.len() && regex_matches((#[trigger] self.static_path@[i])@, request.path@)
    }
}

impl<F: Handler> RequestMapping for StaticMapping<F> {
    open spec fn applies(&self, request: &HttpRequest) -> bool {
        self.serves(request)
    }

    fn predicate(&self, request: &HttpRequest) -> (r: bool) {
        if request.method != HttpMethod::GET {
            return false;
        }
        let mut i: usize = 0;
        while i < self.static_path.len()
            invariant
                i <= self.static_path@.len(),
                request.method == HttpMethod::GET,
                forall|j: int| 0 <= j < i ==> !regex_matches((#[trigger] self.static_path@[j])@, request.path@),
            decreases self.static_path@.len() - i,
        {
            if request.path_match(&self.static_path[i]) {
                assert(regex_matches(self.static_path@[i as int]@, request.path@));
                return true;
            }
            i = i + 1;
        }
        false
    }

    open spec fn handled(&self, before: HttpChannel, after: HttpChannel, r: Result<(), String>) -> bool {
        self.handler.effect(before, after, r)
    }

    fn handle(&self, channel: &mut HttpChannel) -> (r: Result<(), String>) {
        self.handler.call(channel)
    }
}

/// A route of either kind.
pub enum Mapping<F> {
    Regex(RegexMapping<F>),
    Static(StaticMapping<F>),
}

impl<F: Handler> RequestMapping for Mapping<F> {
    open spec fn applies(&self, request: &HttpRequest) -> bool {
        match self {
            Mapping::Regex(m) => m.applies(request),
            Mapping::Static(m) => m.applies(request),
        }
    }

    fn predicate(&self, request: &HttpRequest) -> (r: bool) {
        match self {
            Mapping::Regex(m) => m.predicate(request),
            Mapping::Static(m) => m.predicate(request),
        }
    }

    open spec fn handled(&self, before: HttpChannel, after: HttpChannel, r: Result<(), String>) -> bool {
        match self {
            Mapping::Regex(m) => m.handled(before, after, r),
            Mapping::Static(m) => m.handled(before, after, r),
        }
    }

    fn handle(&self, channel: &mut HttpChannel) -> (r: Result<(), String>) {
        match self {
            Mapping::Regex(m) => m.handle(channel),
            Mapping::Static(m) => m.handle(channel),
        }
    }
}

/// `i` is the first route of `ms` that applies to `request`.
pub open spec fn is_first_match<M: RequestMapping>(ms: Seq<M>, request: &HttpRequest, i: int) -> bool {
    &&& 0 <= i < ms.len()
    &&& ms[i].applies(request)
    &&& forall|j: int| 0 <= j < i ==> !(#[trigger] ms[j]).applies(request)
}

/// The first route of `ms` that applies to `request`, if any.
pub open spec fn first_match<M: RequestMapping>(ms: Seq<M>, request: &HttpRequest) -> Option<int> {
    if exists|i: int| is_first_match(ms, request, i) {
        Some(choose|i: int| is_first_match(ms, request, i))
    } else {
        None
    }
}

/// Routes are tried in the order they were registered: the first route that
/// applies is the one chosen, whatever routes after it also apply.
pub proof fn lemma_first_registered_wins<M: RequestMapping>(ms: Seq<M>, request: &HttpRequest, i: int)
    requires
        0 <= i < ms.len(),
        ms[i].applies(request),
        forall|j: int| 0 <= j < i ==> !(#[trigger] ms[j]).applies(request),
    ensures
        first_match(ms, request) == Some(i),
        forall|k: int| i < k < ms.len() ==> first_match(ms, request) != Some(k),
{
    assert(is_first_match(ms, request, i));
    let c = choose|c: int| is_first_match(ms, request, c);
    assert(c == i);
}

/// A route table, tried in registration order.
pub struct HttpRouter<M> {
    mappings: Vec<M>,
}

impl<M: RequestMapping> HttpRouter<M> {
    /// The routes, in registration order.
    pub closed spec fn routes(&self) -> Seq<M> {
        self.mappings@
    }

    /// A router with no route.
    pub fn new() -> (r: HttpRouter<M>)
        ensures
            r.routes().len() == 0,
    {
        HttpRouter { mappings: Vec::new() }
    }

    /// Adds a route after the others.
    pub fn route(&mut self, request_mapping: M)
        ensures
            final(self).routes() == old(self).routes().push(request_mapping),
    {
        self.mappings.push(request_mapping);
    }

    /// The index of the first route that applies to `request`.
    pub fn select(&self, request: &HttpRequest) -> (r: Option<usize>)
        ensures
            r matches Some(i) ==> first_match(self.routes(), request) == Some(i as int),
            r is None ==> first_match(self.routes(), request) is None,
    {
        let mut i: usize = 0;
        while i < self.mappings.len()
            invariant
                i <= self.mappings@.len(),
                forall|j: int| 0 <= j < i ==> !(#[trigger] self.mappings@[j]).applies(request),
            decreases self.mappings@.len() - i,
        {
            if self.mappings[i].predicate(request) {
                proof {
                    lemma_first_registered_wins(self.routes(), request, i as int);
                }
                return Some(i);
            }
            i = i + 1;
        }
        None
    }

    /// Hands the exchange to the first route that applies; when none does, the
    /// response becomes `404 Not Found` and no handler runs.
    pub fn handle(&self, channel: &mut HttpChannel) -> (r: Result<(), String>)
        ensures
            first_match(self.routes(), &old(channel).request) is None ==> {
                &&& r is Ok
                &&& final(channel).request == old(channel).request
                &&& final(channel).output@ == old(channel).output@
                &&& final(channel).is_sent == old(channel).is_sent
                &&& final(channel).response.code == 404
                &&& final(channel).response.message@ == "Not Found"@
                &&& final(channel).response.spec_body() == Some(encode_utf8("404 Not Found"@))
                &&& final(channel).response.headers@ == with_header(
                    old(channel).response.headers@,
                    content_length_name(),
                    decimal(encode_utf8("404 Not Found"@).len()),
                )
                &&& final(channel).response.version == old(channel).response.version
                &&& final(channel).response.length_consistent()
            },
            first_match(self.routes(), &old(channel).request) matches Some(i)
                ==> self.routes()[i].handled(*old(channel), *final(channel), r),
    {
        match self.select(&channel.request) {
            Some(i) => self.mappings[i].handle(channel),
            None => {
                channel.response.not_found();
                Ok(())
            },
        }
    }
}

} // verus!
