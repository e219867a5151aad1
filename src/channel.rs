use vstd::prelude::*;

use crate::request::HttpRequest;
use crate::response::HttpResponse;

verus! {

/// One exchange: the request, the response being built, and the bytes that a
/// handler writes itself, which go out in place of the response. Once
/// `is_sent` is set, the buffered response is not written.
#[derive(Debug)]
pub struct HttpChannel {
    pub request: HttpRequest,
    pub response: HttpResponse,
    /// Bytes a handler writes itself; they go out when the exchange ends.
    pub output: Vec<u8>,
    pub is_sent: bool,
}

impl HttpChannel {
    /// A channel with nothing written yet.
    pub fn new(request: HttpRequest, response: HttpResponse) -> (r: HttpChannel)
        ensures
            r.request == request,
            r.response == response,
            r.output@.len() == 0,
            !r.is_sent,
    {
        HttpChannel { request, response, output: Vec::new(), is_sent: false }
    }

    /// Writes the response as it stands, followed by `b`, to the output, and
    /// marks the exchange sent.
    pub fn send(&mut self, b: &[u8])
        ensures
            final(self).output@ == old(self).output@ + old(self).response.wire() + b@,
            final(self).is_sent,
            final(self).request == old(self).request,
            final(self).response == old(self).response,
    {
        let mut head = self.response.to_bytes();
        self.output.append(&mut head);
        self.write(b);
    }

    /// Writes `b`, as it is, to the output, and marks the exchange sent.
    pub fn write(&mut self, b: &[u8])
        ensures
            final(self).output@ == old(self).output@ + b@,
            final(self).is_sent,
            final(self).request == old(self).request,
            final(self).response == old(self).response,
    {
        let ghost start = self.output@;
        let mut i: usize = 0;
        while i < b.len()
            invariant
                i <= b@.len(),
                self.output@ == start + b@.take(i as int),
                self.request == old(self).request,
                self.response == old(self).response,
            decreases b@.len() - i,
        {
            self.output.push(b[i]);
            proof {
                assert(b@.take(i + 1) =~= b@.take(i as int).push(b@[i as int]));
            }
            i = i + 1;
        }
        assert(b@.take(i as int) =~= b@);
        self.is_sent = true;
    }
}

} // verus!
