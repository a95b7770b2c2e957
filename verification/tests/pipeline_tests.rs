use dispatch_core::error::Error;
use dispatch_core::http::Method;
use dispatch_core::http::Request;
use dispatch_core::http::Response;
use dispatch_core::pipeline::serve;
use dispatch_core::pipeline::CollabResult;
use dispatch_core::router::default_table;
use dispatch_core::ser::World;
use dispatch_core::state::SharedState;

fn get(path: &str, query: Option<&str>) -> Request {
    Request {
        method: Method::Get,
        path: path.to_string(),
        query: query.map(|q| q.to_string()),
    }
}

fn header_values<'a>(res: &'a Response, name: &str) -> Vec<&'a str> {
    res.headers
        .iter()
        .filter(|h| h.name == name)
        .map(|h| h.value.as_str())
        .collect()
}

#[test]
fn plaintext_scenario() {
    let table = default_table();
    let (out, _state) = serve(
        &table,
        get("/plaintext", None),
        SharedState::new(),
        CollabResult::NoCall,
    );
    let res = out.expect("plaintext must succeed");
    assert_eq!(res.status, 200);
    assert_eq!(res.body, b"Hello, World!".to_vec());
    assert_eq!(header_values(&res, "content-type"), vec!["text/plain"]);
    assert_eq!(header_values(&res, "server"), vec!["X"]);
    assert_eq!(res.headers.len(), 2);
}

#[test]
fn json_scenario() {
    let table = default_table();
    let (out, state) = serve(
        &table,
        get("/json", None),
        SharedState::new(),
        CollabResult::NoCall,
    );
    let res = out.expect("json must succeed");
    assert_eq!(res.status, 200);
    assert_eq!(res.body, b"{\"message\":\"Hello, World!\"}".to_vec());
    assert_eq!(header_values(&res, "content-type"), vec!["application/json"]);
    assert_eq!(header_values(&res, "server"), vec!["X"]);
    // the scratch buffer holds exactly this body afterwards
    assert_eq!(state.write_buf, res.body);
}

#[test]
fn db_scenario() {
    let table = default_table();
    let world = World { id: 42, randomnumber: 9999 };
    let (out, _state) = serve(
        &table,
        get("/db", None),
        SharedState::new(),
        CollabResult::OneWorld(world),
    );
    let res = out.expect("db must succeed on a fetched record");
    assert_eq!(res.body, b"{\"id\":42,\"randomNumber\":9999}".to_vec());
    assert_eq!(header_values(&res, "content-type"), vec!["application/json"]);
}

#[test]
fn db_upstream_failure() {
    let table = default_table();
    let (out, _state) = serve(
        &table,
        get("/db", None),
        SharedState::new(),
        CollabResult::UpstreamFailed,
    );
    assert_eq!(out.unwrap_err(), Error::Upstream);
}

#[test]
fn fortunes_scenario() {
    let table = default_table();
    let page = b"<html>ok</html>".to_vec();
    let (out, _state) = serve(
        &table,
        get("/fortunes", None),
        SharedState::new(),
        CollabResult::FortunesHtml(page.clone()),
    );
    let res = out.expect("fortunes must succeed on a rendered page");
    assert_eq!(res.body, page);
    assert_eq!(
        header_values(&res, "content-type"),
        vec!["text/html; charset=utf-8"]
    );
    assert_eq!(header_values(&res, "server"), vec!["X"]);
}

#[test]
fn fortunes_render_failure() {
    let table = default_table();
    let (out, _state) = serve(
        &table,
        get("/fortunes", None),
        SharedState::new(),
        CollabResult::RenderFailed,
    );
    assert_eq!(out.unwrap_err(), Error::Render);
}

#[test]
fn queries_scenario() {
    let table = default_table();
    let worlds = vec![
        World { id: 1, randomnumber: 2 },
        World { id: 3, randomnumber: 4 },
    ];
    let (out, _state) = serve(
        &table,
        get("/queries", Some("count=2")),
        SharedState::new(),
        CollabResult::ManyWorlds(worlds),
    );
    let res = out.expect("queries must succeed on fetched records");
    assert_eq!(
        res.body,
        b"[{\"id\":1,\"randomNumber\":2},{\"id\":3,\"randomNumber\":4}]".to_vec()
    );
    assert_eq!(header_values(&res, "content-type"), vec!["application/json"]);
}

#[test]
fn updates_upstream_failure() {
    let table = default_table();
    let (out, _state) = serve(
        &table,
        get("/updates", Some("count=3")),
        SharedState::new(),
        CollabResult::UpstreamFailed,
    );
    assert_eq!(out.unwrap_err(), Error::Upstream);
}

#[test]
fn unknown_path_is_not_found() {
    let table = default_table();
    let (out, _state) = serve(
        &table,
        get("/missing", None),
        SharedState::new(),
        CollabResult::NoCall,
    );
    assert_eq!(out.unwrap_err(), Error::RouteNotFound);
}

#[test]
fn wrong_method_is_not_allowed() {
    let table = default_table();
    let req = Request {
        method: Method::Post,
        path: "/plaintext".to_string(),
        query: None,
    };
    let (out, _state) = serve(&table, req, SharedState::new(), CollabResult::NoCall);
    assert_eq!(out.unwrap_err(), Error::MethodNotAllowed);
}

#[test]
fn state_returned_on_error_paths() {
    let table = default_table();
    let mut state = SharedState::new();
    state.write_buf = b"left over".to_vec();
    let (out, state_back) = serve(
        &table,
        get("/nowhere", None),
        state,
        CollabResult::NoCall,
    );
    assert!(out.is_err());
    assert_eq!(state_back.write_buf, b"left over".to_vec());
}

#[test]
fn sequential_requests_share_buffer_without_residue() {
    let table = default_table();
    // first request leaves its bytes in the worker buffer
    let (out1, state1) = serve(
        &table,
        get("/db", None),
        SharedState::new(),
        CollabResult::OneWorld(World { id: 1, randomnumber: 1000000 }),
    );
    let long_body = out1.expect("first record").body;
    assert_eq!(state1.write_buf, long_body);
    // a second, shorter record through the same buffer: no residue of the first
    let (out2, _state2) = serve(
        &table,
        get("/db", None),
        state1,
        CollabResult::OneWorld(World { id: 2, randomnumber: 3 }),
    );
    let res2 = out2.expect("second record");
    assert_eq!(res2.body, b"{\"id\":2,\"randomNumber\":3}".to_vec());
    // and the fresh-buffer encoding of the same record is identical
    let (out3, _state3) = serve(
        &table,
        get("/db", None),
        SharedState::new(),
        CollabResult::OneWorld(World { id: 2, randomnumber: 3 }),
    );
    assert_eq!(out3.expect("fresh buffer").body, res2.body);
}
