//! The route table and the per-connection dispatch pipeline. Routes are
//! registered before serving begins and frozen: each holds a response
//! computed once at registration, never a live re-read of its backing
//! file. Lookup is first-match on the exact path bytes; a miss is
//! answered with the fallback response fixed at construction.

use vstd::prelude::*;

use crate::format::dec_digits;
use crate::format::dec_value;
use crate::format::format_response;
use crate::format::lemma_content_length_round_trip;
use crate::format::response_bytes;
use crate::http::Response;
use crate::http::ResponseModel;
use crate::http::html_response;
use crate::http::html_response_spec;
use crate::http::slash_bytes;
use crate::parse::bytes_eq;
use crate::parse::get_request_line;
use crate::parse::is_ws;
use crate::parse::lemma_parse_get_request_line;
use crate::parse::lemma_parse_never_empty;
use crate::parse::parse_request;
use crate::parse::parse_request_spec;

verus! {

/// One registered route: a path and the response frozen for it at
/// registration time.
pub struct Endpoint {
    pub path: Vec<u8>,
    pub handler: Response,
}

impl Endpoint {
    /// A route for `path` answered by the given frozen response.
    pub fn new(path: Vec<u8>, handler: Response) -> (e: Endpoint)
        ensures
            e == (Endpoint { path, handler }),
    {
        Endpoint { path, handler }
    }

    /// The sentinel route for path `/` whose response carries the
    /// fallback contents. Those contents were read from the designated
    /// fallback file once, before this call.
    pub fn default(fallback_contents: Vec<u8>) -> (e: Endpoint)
        ensures
            e.path@ == slash_bytes(),
            e.handler@ == html_response_spec(fallback_contents@),
    {
        let path: Vec<u8> = vec!['/' as u8];
        proof {
            assert(path@ =~= slash_bytes());
        }
        Endpoint::new(path, html_response(fallback_contents))
    }
}

/// First-match lookup over the routes from index `i` on: the frozen
/// response of the first route whose path equals `path` exactly, if any.
pub open spec fn lookup_from(eps: Seq<Endpoint>, path: Seq<u8>, i: int) -> Option<ResponseModel>
    decreases eps.len() - i,
{
    if i < 0 || i >= eps.len() {
        None
    } else if eps[i].path@ == path {
        Some(eps[i].handler@)
    } else {
        lookup_from(eps, path, i + 1)
    }
}

/// First-match lookup over all routes.
pub open spec fn lookup(eps: Seq<Endpoint>, path: Seq<u8>) -> Option<ResponseModel> {
    lookup_from(eps, path, 0)
}

/// The table the dispatcher consults: the registered routes, in
/// registration order, and the fallback response used on a miss. It is
/// populated during setup and read-only once serving begins.
pub struct RouteTable {
    pub endpoints: Vec<Endpoint>,
    pub fallback: Response,
}

/// The response a table gives for a path: the first matching route's
/// frozen response, or the fallback on a miss.
pub open spec fn response_for(t: RouteTable, path: Seq<u8>) -> ResponseModel {
    match lookup(t.endpoints@, path) {
        Some(r) => r,
        None => t.fallback@,
    }
}

/// The bytes dispatch writes for a request line: the wire form of the
/// response the table gives for the parsed path.
pub open spec fn dispatch_spec(t: RouteTable, line: Seq<u8>) -> Seq<u8> {
    response_bytes(response_for(t, parse_request_spec(line).path))
}

impl RouteTable {
    /// An empty table whose fallback response carries the given
    /// contents, frozen here once.
    pub fn new(fallback_contents: Vec<u8>) -> (t: RouteTable)
        ensures
            t.endpoints@ =~= Seq::<Endpoint>::empty(),
            t.fallback@ == html_response_spec(fallback_contents@),
    {
        RouteTable { endpoints: Vec::new(), fallback: html_response(fallback_contents) }
    }

    /// Registers a route: appends it after the existing ones, which stay
    /// as they are. First-match lookup therefore never changes what an
    /// already-registered path is answered with.
    pub fn add_endpoint(&mut self, path: Vec<u8>, handler: Response)
        ensures
            final(self).endpoints@ == old(self).endpoints@.push(Endpoint { path, handler }),
            final(self).fallback == old(self).fallback,
    {
        let e = Endpoint::new(path, handler);
        self.endpoints.push(e);
    }

    /// Registers a `GET` route for `path` whose response body is exactly
    /// `contents`, the bytes read from the route's backing file once,
    /// before this call. The response is frozen into the table: later
    /// changes to the file are never reflected.
    pub fn add_get_endpoint(&mut self, path: Vec<u8>, contents: Vec<u8>)
        ensures
            final(self).endpoints@.len() == old(self).endpoints@.len() + 1,
            final(self).endpoints@.subrange(0, old(self).endpoints@.len() as int) == old(
                self,
            ).endpoints@,
            final(self).endpoints@.last().path@ == path@,
            final(self).endpoints@.last().handler@ == html_response_spec(contents@),
            final(self).fallback == old(self).fallback,
    {
        let ghost eps0 = self.endpoints@;
        self.add_endpoint(path, html_response(contents));
        proof {
            assert(self.endpoints@.subrange(0, eps0.len() as int) =~= eps0);
        }
    }

    /// First-match lookup by exact byte equality on the path.
    pub fn find_endpoint(&self, path: &Vec<u8>) -> (r: Option<&Response>)
        ensures
            match r {
                Some(resp) => lookup(self.endpoints@, path@) == Some(resp@),
                None => lookup(self.endpoints@, path@) is None,
            },
    {
        let eps = &self.endpoints;
        let mut i: usize = 0;
        while i < eps.len()
            invariant
                i <= eps@.len(),
                eps@ == self.endpoints@,
                lookup(eps@, path@) == lookup_from(eps@, path@, i as int),
            decreases eps@.len() - i,
        {
            if bytes_eq(&eps[i].path, path) {
                let h = &eps[i].handler;
                proof {
                    assert(lookup_from(eps@, path@, i as int) == Some(eps@[i as int].handler@));
                    assert(h@ == eps@[i as int].handler@);
                    assert(lookup(eps@, path@) == Some(h@));
                }
                return Some(h);
            }
            proof {
                assert(lookup_from(eps@, path@, i as int) == lookup_from(
                    eps@,
                    path@,
                    i as int + 1,
                ));
            }
            i = i + 1;
        }
        None
    }

    /// The whole per-connection pipeline on one request line: parse it
    /// (defaults in place of missing tokens), look the path up, serialize
    /// the matching or fallback response. Total: every byte sequence is
    /// answered, so a malformed line never aborts the connection.
    pub fn dispatch(&self, request_line: &Vec<u8>) -> (out: Vec<u8>)
        ensures
            out@ == dispatch_spec(*self, request_line@),
    {
        let req = parse_request(request_line);
        let resp: &Response = match self.find_endpoint(&req.path) {
            Some(r) => r,
            None => &self.fallback,
        };
        format_response(resp)
    }
}

/// Registering a route for a path no earlier route matches makes lookup
/// of that path yield exactly the newly frozen response. Together with
/// `add_get_endpoint`'s contract — the stored body is the `contents`
/// value itself, copied at registration — a later request for the path is
/// answered with the original contents, whatever becomes of the backing
/// file afterwards.
pub proof fn lemma_lookup_after_register(eps: Seq<Endpoint>, e: Endpoint, path: Seq<u8>)
    requires
        lookup(eps, path) is None,
        e.path@ == path,
    ensures
        lookup(eps.push(e), path) == Some(e.handler@),
{
    lemma_lookup_from_push(eps, e, path, 0);
}

proof fn lemma_lookup_from_push(eps: Seq<Endpoint>, e: Endpoint, path: Seq<u8>, i: int)
    requires
        0 <= i <= eps.len(),
        lookup_from(eps, path, i) is None,
        e.path@ == path,
    ensures
        lookup_from(eps.push(e), path, i) == Some(e.handler@),
    decreases eps.len() - i,
{
    if i < eps.len() {
        assert(eps.push(e)[i] == eps[i]);
        lemma_lookup_from_push(eps, e, path, i + 1);
    } else {
        assert(eps.push(e)[i] == e);
    }
}

/// Serving a registered path: a `GET {path} HTTP/1.1` request for a path
/// whose lookup yields the frozen response `r` is answered with exactly
/// `r`'s wire form — the bytes after the header are `r`'s frozen body,
/// and the Content-Length digits written read back as that body's exact
/// byte length.
pub proof fn lemma_registered_path_served(t: RouteTable, path: Seq<u8>, r: ResponseModel)
    requires
        path.len() > 0,
        forall|i: int| 0 <= i < path.len() ==> !is_ws(#[trigger] path[i]),
        lookup(t.endpoints@, path) == Some(r),
    ensures
        dispatch_spec(t, get_request_line(path)) == response_bytes(r),
        response_bytes(r).len() >= r.body.len(),
        response_bytes(r).subrange(
            response_bytes(r).len() - r.body.len(),
            response_bytes(r).len() as int,
        ) == r.body,
        dec_value(dec_digits(r.body.len())) == r.body.len(),
{
    lemma_parse_get_request_line(path);
    lemma_content_length_round_trip(r);
}

/// Serving an unregistered path: a `GET {path} HTTP/1.1` request for a
/// path no route matches is answered with the wire form of the fallback
/// response — its body is the fallback content, however many distinct
/// unregistered paths are tried.
pub proof fn lemma_unregistered_path_fallback(t: RouteTable, path: Seq<u8>)
    requires
        path.len() > 0,
        forall|i: int| 0 <= i < path.len() ==> !is_ws(#[trigger] path[i]),
        lookup(t.endpoints@, path) is None,
    ensures
        dispatch_spec(t, get_request_line(path)) == response_bytes(t.fallback@),
{
    lemma_parse_get_request_line(path);
}

/// Dispatch never aborts a connection: whatever bytes the request line
/// holds — malformed or empty — it parses to a request with defaulted
/// method, nonempty path and nonempty protocol, and dispatch answers it
/// with the wire form of some frozen response of the table.
pub proof fn lemma_dispatch_total(t: RouteTable, line: Seq<u8>)
    ensures
        parse_request_spec(line).path.len() > 0,
        parse_request_spec(line).protocol.len() > 0,
        dispatch_spec(t, line) == response_bytes(response_for(t, parse_request_spec(line).path)),
{
    lemma_parse_never_empty(line);
}

} // verus!
