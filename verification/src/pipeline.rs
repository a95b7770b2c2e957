//! The composed request pipeline: context injection around header stamping
//! around the router and its terminal handlers.
//!
//! The collaborators (database client, template renderer) run outside this
//! core; what they produced for a request enters as a plain `CollabResult`
//! value, and every byte and header of the response is then computed here.

use vstd::prelude::*;
use vstd::string::is_ascii;

use crate::error::Error;
use crate::http::Request;
use crate::http::Response;
use crate::http::append_header;
use crate::http::filter_name;
use crate::query::query_count;
use crate::router::Route;
use crate::router::RouteTable;
use crate::router::spec_dispatch;
use crate::ser::Message;
use crate::ser::World;
use crate::ser::copy_bytes;
use crate::ser::json_message;
use crate::ser::json_world;
use crate::ser::json_worlds;
use crate::ser::push_str_bytes;
use crate::ser::serialize_message;
use crate::ser::serialize_world;
use crate::ser::serialize_worlds;
use crate::state::Context;
use crate::state::SharedState;
use crate::text::ascii_of;

verus! {

/// What the collaborators produced for one request, as plain values.
pub enum CollabResult {
    /// The route needs no collaborator.
    NoCall,
    /// The single record the database returned.
    OneWorld(World),
    /// The record list the database returned.
    ManyWorlds(Vec<World>),
    /// The page the template renderer produced from the fortune list.
    FortunesHtml(Vec<u8>),
    /// The database collaborator failed.
    UpstreamFailed,
    /// The template collaborator failed.
    RenderFailed,
}

/// What the database collaborator is asked to do for a request.
#[derive(Clone, Copy, PartialEq, Eq, Structural, Debug)]
pub enum CollabCall {
    NoCall,
    FetchOne,
    FetchMany(u16),
    UpdateMany(u16),
    FetchFortunes,
}

/// The collaborator call each route makes, with the parsed count.
pub open spec fn call_of(route: Route, n: u16) -> CollabCall {
    match route {
        Route::Plaintext => CollabCall::NoCall,
        Route::Json => CollabCall::NoCall,
        Route::Db => CollabCall::FetchOne,
        Route::Fortunes => CollabCall::FetchFortunes,
        Route::Queries => CollabCall::FetchMany(n),
        Route::Updates => CollabCall::UpdateMany(n),
    }
}

/// A collaborator result a route's handler can be handed.
pub open spec fn fits(route: Route, input: CollabResult) -> bool {
    match route {
        Route::Plaintext => input is NoCall,
        Route::Json => input is NoCall,
        Route::Db => input is OneWorld || input is UpstreamFailed,
        Route::Fortunes => input is FortunesHtml || input is UpstreamFailed
            || input is RenderFailed,
        Route::Queries => input is ManyWorlds || input is UpstreamFailed,
        Route::Updates => input is ManyWorlds || input is UpstreamFailed,
    }
}

/// The Content-Type each route's handler sets.
pub open spec fn content_type_of(route: Route) -> Seq<char> {
    match route {
        Route::Plaintext => "text/plain"@,
        Route::Json => "application/json"@,
        Route::Db => "application/json"@,
        Route::Fortunes => "text/html; charset=utf-8"@,
        Route::Queries => "application/json"@,
        Route::Updates => "application/json"@,
    }
}

/// The error a handler reports, decided by the collaborator outcome alone.
pub open spec fn error_of(input: CollabResult) -> Option<Error> {
    match input {
        CollabResult::UpstreamFailed => Some(Error::Upstream),
        CollabResult::RenderFailed => Some(Error::Render),
        _ => None,
    }
}

/// The exact body a handler builds from a successful collaborator outcome.
pub open spec fn body_of(route: Route, input: CollabResult) -> Seq<u8> {
    match input {
        CollabResult::NoCall => if route is Plaintext {
            ascii_of("Hello, World!"@)
        } else {
            json_message("Hello, World!"@)
        },
        CollabResult::OneWorld(w) => json_world(w),
        CollabResult::ManyWorlds(ws) => json_worlds(ws@),
        CollabResult::FortunesHtml(h) => h@,
        _ => Seq::empty(),
    }
}

/// The routes that serialize through the worker's scratch buffer.
pub open spec fn uses_buffer(route: Route) -> bool {
    route is Json || route is Db || route is Queries || route is Updates
}

/// The terminal handlers: deconstruct the context exactly once, build the
/// response for the route, and hand the worker state back in every case.
pub fn call_route(route: Route, input: CollabResult, ctx: Context) -> (r: (
    Result<Response, Error>,
    SharedState,
))
    requires
        fits(route, input),
    ensures
        r.0 is Ok <==> error_of(input) is None,
        r.0 matches Err(e) ==> Some(e) == error_of(input),
        r.0 matches Ok(res) ==> {
            &&& res.status == 200
            &&& res.body@ == body_of(route, input)
            &&& res.headers_spec() =~= seq![("content-type"@, content_type_of(route))]
        },
        r.0 is Ok && uses_buffer(route) ==> r.1.write_buf@ == body_of(route, input),
        !(r.0 is Ok && uses_buffer(route)) ==> r.1.write_buf@ == ctx.state.write_buf@,
{
    let parts = ctx.into_parts();
    let mut state = parts.1;
    match route {
        Route::Plaintext => {
            proof {
                reveal_strlit("Hello, World!");
                assert(is_ascii("Hello, World!"));
            }
            let mut body: Vec<u8> = Vec::new();
            push_str_bytes(&mut body, "Hello, World!");
            let mut res = Response { status: 200, headers: Vec::new(), body };
            append_header(&mut res, "content-type", "text/plain");
            (Ok(res), state)
        },
        Route::Json => {
            let m = Message::new();
            serialize_message(&mut state.write_buf, &m);
            let body = copy_bytes(&state.write_buf);
            let mut res = Response { status: 200, headers: Vec::new(), body };
            append_header(&mut res, "content-type", "application/json");
            (Ok(res), state)
        },
        Route::Db => {
            match input {
                CollabResult::OneWorld(w) => {
                    serialize_world(&mut state.write_buf, &w);
                    let body = copy_bytes(&state.write_buf);
                    let mut res = Response { status: 200, headers: Vec::new(), body };
                    append_header(&mut res, "content-type", "application/json");
                    (Ok(res), state)
                },
                _ => (Err(Error::Upstream), state),
            }
        },
        Route::Fortunes => {
            match input {
                CollabResult::FortunesHtml(h) => {
                    let mut res = Response { status: 200, headers: Vec::new(), body: h };
                    append_header(&mut res, "content-type", "text/html; charset=utf-8");
                    (Ok(res), state)
                },
                CollabResult::RenderFailed => (Err(Error::Render), state),
                _ => (Err(Error::Upstream), state),
            }
        },
        Route::Queries => {
            match input {
                CollabResult::ManyWorlds(ws) => {
                    serialize_worlds(&mut state.write_buf, &ws);
                    let body = copy_bytes(&state.write_buf);
                    let mut res = Response { status: 200, headers: Vec::new(), body };
                    append_header(&mut res, "content-type", "application/json");
                    (Ok(res), state)
                },
                _ => (Err(Error::Upstream), state),
            }
        },
        Route::Updates => {
            match input {
                CollabResult::ManyWorlds(ws) => {
                    serialize_worlds(&mut state.write_buf, &ws);
                    let body = copy_bytes(&state.write_buf);
                    let mut res = Response { status: 200, headers: Vec::new(), body };
                    append_header(&mut res, "content-type", "application/json");
                    (Ok(res), state)
                },
                _ => (Err(Error::Upstream), state),
            }
        },
    }
}

/// Header-stamping middleware: delegate first, then append the fixed Server
/// header to whatever response came back — append only, never replace.
pub fn stamp_server(res: &mut Response)
    ensures
        final(res).headers_spec() =~= old(res).headers_spec().push(("server"@, "X"@)),
        final(res).status == old(res).status,
        final(res).body@ == old(res).body@,
{
    append_header(res, "server", "X");
}

/// Decide everything the transport needs before the collaborator runs: the
/// route the request dispatches to and the collaborator call it makes, with
/// the count parameter parsed and clamped.
pub fn plan(table: &RouteTable, req: &Request) -> (r: Result<(Route, CollabCall), Error>)
    ensures
        r matches Ok(p) ==> {
            &&& spec_dispatch(table.view_spec(), req.method, req.path@) == Ok::<Route, Error>(p.0)
            &&& p.1 == call_of(p.0, query_count(req.query_spec()))
        },
        r matches Err(e) ==> spec_dispatch(table.view_spec(), req.method, req.path@) == Err::<
            Route,
            Error,
        >(e),
{
    let route = match table.dispatch(req.method, req.path.as_str()) {
        Ok(h) => h,
        Err(e) => {
            return Err(e);
        },
    };
    let q = match &req.query {
        Some(s) => Some(s.as_str()),
        None => None,
    };
    let n: u16 = crate::query::parse_count(q);
    let c = match route {
        Route::Plaintext => CollabCall::NoCall,
        Route::Json => CollabCall::NoCall,
        Route::Db => CollabCall::FetchOne,
        Route::Fortunes => CollabCall::FetchFortunes,
        Route::Queries => CollabCall::FetchMany(n),
        Route::Updates => CollabCall::UpdateMany(n),
    };
    Ok((route, c))
}

/// Law: a served response carries exactly one Content-Type header, with the
/// route's tabulated value, and exactly one Server header, with the fixed
/// value — whichever handler produced the body.
pub proof fn lemma_served_header_counts(res: Response, route: Route)
    requires
        res.headers_spec() =~= seq![
            ("content-type"@, content_type_of(route)),
            ("server"@, "X"@),
        ],
    ensures
        res.count_header("content-type"@) == 1,
        res.count_header("server"@) == 1,
        res.has_unique_header("content-type"@, content_type_of(route)),
        res.has_unique_header("server"@, "X"@),
{
    reveal_strlit("content-type");
    reveal_strlit("server");
    assert("content-type"@.len() == 12);
    assert("server"@.len() == 6);
    reveal_with_fuel(Seq::filter, 4);
    let hs = res.headers_spec();
    assert(hs.drop_last() =~= seq![("content-type"@, content_type_of(route))]);
    assert(hs.drop_last().drop_last() =~= Seq::<(Seq<char>, Seq<char>)>::empty());
    assert(filter_name(hs, "content-type"@) =~= seq![("content-type"@, content_type_of(route))]);
    assert(filter_name(hs, "server"@) =~= seq![("server"@, "X"@)]);
}

/// The whole composed chain, outermost layer first: inject the context, let
/// the router pick the terminal handler, and stamp the Server header onto
/// every successful response. The worker state comes back on every path.
pub fn serve(table: &RouteTable, req: Request, state: SharedState, input: CollabResult) -> (r: (
    Result<Response, Error>,
    SharedState,
))
    requires
        spec_dispatch(table.view_spec(), req.method, req.path@) matches Ok(h) ==> fits(h, input),
    ensures
        spec_dispatch(table.view_spec(), req.method, req.path@) matches Err(e) ==> r.0 == Err::<
            Response,
            Error,
        >(e) && r.1.write_buf@ == state.write_buf@,
        spec_dispatch(table.view_spec(), req.method, req.path@) matches Ok(route) ==> {
            &&& (r.0 is Ok <==> error_of(input) is None)
            &&& (r.0 matches Err(e) ==> Some(e) == error_of(input))
            &&& (r.0 matches Ok(res) ==> {
                &&& res.status == 200
                &&& res.body@ == body_of(route, input)
                &&& res.headers_spec() =~= seq![
                    ("content-type"@, content_type_of(route)),
                    ("server"@, "X"@),
                ]
            })
            &&& (r.0 is Ok && uses_buffer(route) ==> r.1.write_buf@ == body_of(route, input))
            &&& (!(r.0 is Ok && uses_buffer(route)) ==> r.1.write_buf@ == state.write_buf@)
        },
{
    let route = match table.dispatch(req.method, req.path.as_str()) {
        Ok(h) => h,
        Err(e) => {
            return (Err(e), state);
        },
    };
    let ctx = Context::new(req, state);
    let out = call_route(route, input, ctx);
    let state2 = out.1;
    match out.0 {
        Ok(mut res) => {
            stamp_server(&mut res);
            (Ok(res), state2)
        },
        Err(e) => (Err(e), state2),
    }
}

} // verus!
