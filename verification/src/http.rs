//! Plain data model of the HTTP values the pipeline computes on.
//!
//! The byte-level transport owns parsing and writing; the pipeline only ever
//! sees a request's method, path and query string, and produces a response as
//! a status code, an ordered header list and one pre-materialized body chunk.

use vstd::prelude::*;

verus! {

/// An HTTP request method.
#[derive(Clone, Copy, PartialEq, Eq, Structural, Debug)]
pub enum Method {
    Get,
    Head,
    Post,
    Put,
    Delete,
    Connect,
    Options,
    Trace,
    Patch,
}

/// The routed part of an inbound request: method, path and raw query string.
///
/// Transport-level headers and the request body never influence dispatch or
/// any handler, so they stay with the transport.
#[derive(Debug)]
pub struct Request {
    pub method: Method,
    pub path: String,
    pub query: Option<String>,
}

impl Request {
    /// The query string as a mathematical value, if one was present.
    pub open spec fn query_spec(&self) -> Option<Seq<char>> {
        match self.query {
            Some(q) => Some(q@),
            None => None,
        }
    }
}

/// One response header: a name and a value.
#[derive(Debug)]
pub struct Header {
    pub name: String,
    pub value: String,
}

impl View for Header {
    type V = (Seq<char>, Seq<char>);

    open spec fn view(&self) -> (Seq<char>, Seq<char>) {
        (self.name@, self.value@)
    }
}

/// A complete response: status code, ordered header list, one body chunk.
///
/// The body is produced exactly once by a terminal handler; outer layers may
/// only append headers, never change the body or the headers already set.
#[derive(Debug)]
pub struct Response {
    pub status: u16,
    pub headers: Vec<Header>,
    pub body: Vec<u8>,
}

impl Response {
    /// The header list as a sequence of (name, value) pairs.
    pub open spec fn headers_spec(&self) -> Seq<(Seq<char>, Seq<char>)> {
        self.headers@.map_values(|h: Header| h@)
    }

    /// How many headers of the list carry the given name.
    pub open spec fn count_header(&self, name: Seq<char>) -> nat {
        count_name(self.headers_spec(), name)
    }

    /// The response carries exactly one header of this name, with this value.
    pub open spec fn has_unique_header(&self, name: Seq<char>, value: Seq<char>) -> bool {
        filter_name(self.headers_spec(), name) =~= seq![(name, value)]
    }
}

/// The headers of the list that carry the given name, in order.
pub open spec fn filter_name(hs: Seq<(Seq<char>, Seq<char>)>, name: Seq<char>) -> Seq<
    (Seq<char>, Seq<char>),
> {
    hs.filter(|h: (Seq<char>, Seq<char>)| h.0 == name)
}

/// How many headers of the list carry the given name.
pub open spec fn count_name(hs: Seq<(Seq<char>, Seq<char>)>, name: Seq<char>) -> nat {
    filter_name(hs, name).len()
}

/// Law: appending a header keeps every header already present, in place and
/// unchanged; the list grows by exactly one; the appended name's count rises
/// by one and no other name's count moves. An outer layer that only appends
/// can therefore never remove or overwrite what an inner layer set.
pub proof fn lemma_append_preserves(
    before: Seq<(Seq<char>, Seq<char>)>,
    after: Seq<(Seq<char>, Seq<char>)>,
    h: (Seq<char>, Seq<char>),
)
    requires
        after == before.push(h),
    ensures
        after.len() == before.len() + 1,
        forall|i: int| 0 <= i < before.len() ==> after[i] == before[i],
        count_name(after, h.0) == count_name(before, h.0) + 1,
        forall|n: Seq<char>| n != h.0 ==> count_name(after, n) == count_name(before, n),
{
    assert(after.drop_last() =~= before);
    assert(after.last() == h);
    assert forall|n: Seq<char>| n != h.0 implies count_name(after, n) == count_name(
        before,
        n,
    ) by {
        reveal(Seq::filter);
    }
    assert(count_name(after, h.0) == count_name(before, h.0) + 1) by {
        reveal(Seq::filter);
    }
}

/// Append one header; every header already present is kept, in place.
pub fn append_header(res: &mut Response, name: &str, value: &str)
    ensures
        final(res).headers_spec() =~= old(res).headers_spec().push((name@, value@)),
        final(res).status == old(res).status,
        final(res).body@ == old(res).body@,
{
    let h = Header { name: name.to_owned(), value: value.to_owned() };
    res.headers.push(h);
}

} // verus!
