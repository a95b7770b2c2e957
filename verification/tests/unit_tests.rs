use dispatch_core::http::append_header;
use dispatch_core::http::Header;
use dispatch_core::http::Method;
use dispatch_core::http::Request;
use dispatch_core::http::Response;
use dispatch_core::pipeline::plan;
use dispatch_core::pipeline::stamp_server;
use dispatch_core::pipeline::CollabCall;
use dispatch_core::query::parse_count;
use dispatch_core::router::default_table;
use dispatch_core::router::Route;
use dispatch_core::router::RouteTable;
use dispatch_core::ser::serialize_message;
use dispatch_core::ser::serialize_world;
use dispatch_core::ser::serialize_worlds;
use dispatch_core::ser::Message;
use dispatch_core::ser::World;

#[test]
fn count_plain_value() {
    assert_eq!(parse_count(Some("count=5")), 5);
}

#[test]
fn count_unparseable_defaults() {
    assert_eq!(parse_count(Some("count=abc")), 1);
    assert_eq!(parse_count(Some("count=12a")), 1);
    assert_eq!(parse_count(Some("count=")), 1);
    assert_eq!(parse_count(Some("count")), 1);
}

#[test]
fn count_missing_defaults() {
    assert_eq!(parse_count(None), 1);
    assert_eq!(parse_count(Some("")), 1);
    assert_eq!(parse_count(Some("other=5")), 1);
}

#[test]
fn count_clamped_high() {
    assert_eq!(parse_count(Some("count=100000")), 500);
    assert_eq!(parse_count(Some("count=501")), 500);
    assert_eq!(parse_count(Some("count=500")), 500);
    assert_eq!(parse_count(Some("count=99999999999999999999")), 500);
}

#[test]
fn count_clamped_low() {
    assert_eq!(parse_count(Some("count=0")), 1);
    assert_eq!(parse_count(Some("count=1")), 1);
}

#[test]
fn count_short_key_accepted() {
    assert_eq!(parse_count(Some("q=20")), 20);
}

#[test]
fn count_among_other_pairs() {
    assert_eq!(parse_count(Some("a=1&count=7")), 7);
    assert_eq!(parse_count(Some("count=2&count=9")), 2);
    assert_eq!(parse_count(Some("account=9&q=3")), 3);
}

#[test]
fn dispatch_resolves_each_route() {
    let table = default_table();
    let cases = vec![
        ("/plaintext", Route::Plaintext),
        ("/json", Route::Json),
        ("/db", Route::Db),
        ("/fortunes", Route::Fortunes),
        ("/queries", Route::Queries),
        ("/updates", Route::Updates),
    ];
    for (path, route) in cases {
        assert_eq!(table.dispatch(Method::Get, path), Ok(route));
    }
}

#[test]
fn insert_refuses_duplicates() {
    let mut table = RouteTable::new();
    assert!(table.insert(Method::Get, "/a", Route::Json).is_ok());
    assert!(table.insert(Method::Get, "/a", Route::Db).is_err());
    assert!(table.insert(Method::Post, "/a", Route::Db).is_ok());
}

#[test]
fn plan_parses_and_clamps() {
    let table = default_table();
    let req = Request {
        method: Method::Get,
        path: "/queries".to_string(),
        query: Some("count=0".to_string()),
    };
    assert_eq!(plan(&table, &req).unwrap(), (Route::Queries, CollabCall::FetchMany(1)));
    let req2 = Request {
        method: Method::Get,
        path: "/updates".to_string(),
        query: Some("count=5000".to_string()),
    };
    assert_eq!(plan(&table, &req2).unwrap(), (Route::Updates, CollabCall::UpdateMany(500)));
    let req3 = Request {
        method: Method::Get,
        path: "/db".to_string(),
        query: None,
    };
    assert_eq!(plan(&table, &req3).unwrap(), (Route::Db, CollabCall::FetchOne));
}

#[test]
fn serialize_world_exact() {
    let mut buf: Vec<u8> = Vec::new();
    serialize_world(&mut buf, &World { id: 0, randomnumber: 10 });
    assert_eq!(buf, b"{\"id\":0,\"randomNumber\":10}".to_vec());
}

#[test]
fn serialize_worlds_exact() {
    let mut buf: Vec<u8> = Vec::new();
    serialize_worlds(&mut buf, &Vec::new());
    assert_eq!(buf, b"[]".to_vec());
    serialize_worlds(&mut buf, &vec![World { id: 7, randomnumber: 8 }]);
    assert_eq!(buf, b"[{\"id\":7,\"randomNumber\":8}]".to_vec());
}

#[test]
fn serialize_message_exact() {
    let mut buf: Vec<u8> = b"residue from an earlier request".to_vec();
    let m = Message::new();
    serialize_message(&mut buf, &m);
    assert_eq!(buf, b"{\"message\":\"Hello, World!\"}".to_vec());
}

#[test]
fn serializer_leaves_no_residue() {
    let mut buf: Vec<u8> = Vec::new();
    serialize_world(&mut buf, &World { id: 11111, randomnumber: 22222 });
    let first = buf.clone();
    serialize_world(&mut buf, &World { id: 5, randomnumber: 6 });
    let mut fresh: Vec<u8> = Vec::new();
    serialize_world(&mut fresh, &World { id: 5, randomnumber: 6 });
    assert_eq!(buf, fresh);
    assert_ne!(buf, first);
}

#[test]
fn stamping_keeps_inner_headers() {
    let mut res = Response {
        status: 200,
        headers: vec![
            Header { name: "content-type".to_string(), value: "text/plain".to_string() },
            Header { name: "etag".to_string(), value: "abc".to_string() },
            Header { name: "cache-control".to_string(), value: "no-store".to_string() },
        ],
        body: b"x".to_vec(),
    };
    stamp_server(&mut res);
    assert_eq!(res.headers.len(), 4);
    assert_eq!(res.headers[0].name, "content-type");
    assert_eq!(res.headers[0].value, "text/plain");
    assert_eq!(res.headers[1].name, "etag");
    assert_eq!(res.headers[2].name, "cache-control");
    assert_eq!(res.headers[3].name, "server");
    assert_eq!(res.headers[3].value, "X");
}

#[test]
fn append_header_appends_at_end() {
    let mut res = Response { status: 200, headers: Vec::new(), body: Vec::new() };
    append_header(&mut res, "content-type", "application/json");
    append_header(&mut res, "content-type", "application/json");
    assert_eq!(res.headers.len(), 2);
    assert_eq!(res.headers[0].name, "content-type");
    assert_eq!(res.headers[1].name, "content-type");
}
