//! Exact-match routing over a fixed table.
//!
//! The table is built once at startup and never mutated afterwards; dispatch
//! is a read-only scan, so workers share it without synchronization. A path
//! that is absent from the table fails with `RouteNotFound`; a present path
//! under a method no entry carries fails with `MethodNotAllowed`.

use vstd::prelude::*;

use crate::error::Error;
use crate::http::Method;
use crate::text::str_eq;

verus! {

/// The six terminal handlers, named; the table erases handler types by
/// storing one of these tags per entry.
#[derive(Clone, Copy, PartialEq, Eq, Structural, Debug)]
pub enum Route {
    Plaintext,
    Json,
    Db,
    Fortunes,
    Queries,
    Updates,
}

/// One route table entry: (method, path) and the handler it resolves to.
pub struct RouteEntry {
    pub method: Method,
    pub path: String,
    pub handler: Route,
}

impl View for RouteEntry {
    type V = (Method, Seq<char>, Route);

    open spec fn view(&self) -> (Method, Seq<char>, Route) {
        (self.method, self.path@, self.handler)
    }
}

/// The route table: built at startup, read-only at request time.
pub struct RouteTable {
    pub entries: Vec<RouteEntry>,
}

/// Insertion refused: the (method, path) pair is already in the table.
#[derive(Clone, Copy, PartialEq, Eq, Structural, Debug)]
pub struct DuplicateRoute;

/// The handler of the first entry that carries the method and the path.
pub open spec fn first_route(t: Seq<(Method, Seq<char>, Route)>, m: Method, p: Seq<char>) -> Option<
    Route,
>
    decreases t.len(),
{
    if t.len() == 0 {
        None
    } else if t[0].0 == m && t[0].1 == p {
        Some(t[0].2)
    } else {
        first_route(t.drop_first(), m, p)
    }
}

/// Some entry carries the path, under whatever method.
pub open spec fn has_path(t: Seq<(Method, Seq<char>, Route)>, p: Seq<char>) -> bool {
    exists|i: int| 0 <= i < t.len() && t[i].1 == p
}

/// Some entry carries the method and the path.
pub open spec fn has_route(t: Seq<(Method, Seq<char>, Route)>, m: Method, p: Seq<char>) -> bool {
    exists|i: int| 0 <= i < t.len() && t[i].0 == m && t[i].1 == p
}

/// What dispatch resolves to: the first matching handler, or the error the
/// table's contents dictate.
pub open spec fn spec_dispatch(
    t: Seq<(Method, Seq<char>, Route)>,
    m: Method,
    p: Seq<char>,
) -> Result<Route, Error> {
    match first_route(t, m, p) {
        Some(h) => Ok(h),
        None => if has_path(t, p) {
            Err(Error::MethodNotAllowed)
        } else {
            Err(Error::RouteNotFound)
        },
    }
}

/// A matching entry exists exactly when the scan finds one.
pub proof fn lemma_first_route_some(t: Seq<(Method, Seq<char>, Route)>, m: Method, p: Seq<char>)
    ensures
        first_route(t, m, p) is Some <==> has_route(t, m, p),
    decreases t.len(),
{
    if t.len() > 0 {
        lemma_first_route_some(t.drop_first(), m, p);
        if t[0].0 == m && t[0].1 == p {
        } else {
            if has_route(t, m, p) {
                let i = choose|i: int| 0 <= i < t.len() && t[i].0 == m && t[i].1 == p;
                assert(i > 0);
                assert(t.drop_first()[i - 1] == t[i]);
                assert(has_route(t.drop_first(), m, p));
            }
            if has_route(t.drop_first(), m, p) {
                let i = choose|i: int|
                    0 <= i < t.drop_first().len() && t.drop_first()[i].0 == m
                        && t.drop_first()[i].1 == p;
                assert(t[i + 1] == t.drop_first()[i]);
                assert(has_route(t, m, p));
            }
        }
    }
}

impl RouteTable {
    /// The table as a mathematical value.
    pub open spec fn view_spec(&self) -> Seq<(Method, Seq<char>, Route)> {
        self.entries@.map_values(|e: RouteEntry| e@)
    }

    /// No two entries carry the same (method, path) pair.
    pub open spec fn wf(&self) -> bool {
        forall|i: int, j: int|
            0 <= i < j < self.view_spec().len() ==> !(self.view_spec()[i].0
                == self.view_spec()[j].0 && self.view_spec()[i].1 == self.view_spec()[j].1)
    }

    /// An empty table, the startup seed.
    pub fn new() -> (t: RouteTable)
        ensures
            t.view_spec() =~= Seq::<(Method, Seq<char>, Route)>::empty(),
            t.wf(),
    {
        RouteTable { entries: Vec::new() }
    }

    /// Is some entry already on this (method, path) pair?
    fn contains_pair(&self, method: Method, path: &str) -> (r: bool)
        ensures
            r == has_route(self.view_spec(), method, path@),
    {
        let ghost t = self.view_spec();
        let mut i: usize = 0;
        while i < self.entries.len()
            invariant
                i <= self.entries@.len(),
                t == self.view_spec(),
                t.len() == self.entries@.len(),
                forall|j: int| 0 <= j < i ==> !(t[j].0 == method && t[j].1 == path@),
            decreases self.entries@.len() - i,
        {
            let e = &self.entries[i];
            if e.method == method && str_eq(e.path.as_str(), path) {
                proof {
                    assert(t[i as int].0 == method && t[i as int].1 == path@);
                }
                return true;
            }
            i += 1;
        }
        proof {
            if has_route(t, method, path@) {
                let j = choose|j: int| 0 <= j < t.len() && t[j].0 == method && t[j].1 == path@;
                assert(!(t[j].0 == method && t[j].1 == path@));
            }
        }
        false
    }

    /// Add one entry at build time; refused if the (method, path) pair is
    /// already routed.
    pub fn insert(&mut self, method: Method, path: &str, handler: Route) -> (r: Result<
        (),
        DuplicateRoute,
    >)
        ensures
            r is Ok <==> !has_route(old(self).view_spec(), method, path@),
            r is Ok ==> final(self).view_spec() =~= old(self).view_spec().push(
                (method, path@, handler),
            ),
            r is Err ==> final(self).view_spec() == old(self).view_spec(),
            old(self).wf() ==> final(self).wf(),
    {
        if self.contains_pair(method, path) {
            return Err(DuplicateRoute);
        }
        let e = RouteEntry { method, path: path.to_owned(), handler };
        self.entries.push(e);
        proof {
            let t = old(self).view_spec();
            let t2 = self.view_spec();
            assert(t2 =~= t.push((method, path@, handler)));
            if old(self).wf() {
                assert forall|i: int, j: int| 0 <= i < j < t2.len() implies !(t2[i].0 == t2[j].0
                    && t2[i].1 == t2[j].1) by {
                    if j == t2.len() - 1 {
                        assert(!(t[i].0 == method && t[i].1 == path@));
                    }
                }
            }
        }
        Ok(())
    }

    /// Resolve a request to a terminal handler, or to the routing error.
    pub fn dispatch(&self, method: Method, path: &str) -> (r: Result<Route, Error>)
        ensures
            r == spec_dispatch(self.view_spec(), method, path@),
    {
        let ghost t = self.view_spec();
        let mut path_seen = false;
        let mut i: usize = 0;
        proof {
            assert(t.subrange(0, t.len() as int) =~= t);
        }
        while i < self.entries.len()
            invariant
                i <= self.entries@.len(),
                t == self.view_spec(),
                t.len() == self.entries@.len(),
                first_route(t, method, path@) == first_route(
                    t.subrange(i as int, t.len() as int),
                    method,
                    path@,
                ),
                path_seen == exists|j: int| 0 <= j < i && t[j].1 == path@,
            decreases self.entries@.len() - i,
        {
            let ghost suffix = t.subrange(i as int, t.len() as int);
            let e = &self.entries[i];
            proof {
                assert(suffix[0] == t[i as int]);
                assert(suffix[0] == (e.method, e.path@, e.handler));
            }
            if str_eq(e.path.as_str(), path) {
                if e.method == method {
                    proof {
                        assert(first_route(suffix, method, path@) == Some(e.handler));
                    }
                    return Ok(e.handler);
                }
                path_seen = true;
            }
            proof {
                assert(suffix.drop_first() =~= t.subrange(i + 1 as int, t.len() as int));
                assert(first_route(suffix, method, path@) == first_route(
                    suffix.drop_first(),
                    method,
                    path@,
                ));
            }
            i += 1;
        }
        proof {
            assert(t.subrange(t.len() as int, t.len() as int) =~= Seq::<
                (Method, Seq<char>, Route),
            >::empty());
            assert(first_route(t, method, path@) is None);
            assert(path_seen == has_path(t, path@));
        }
        if path_seen {
            Err(Error::MethodNotAllowed)
        } else {
            Err(Error::RouteNotFound)
        }
    }
}

/// The fixed entries of the service's table: six paths, all under GET.
pub open spec fn default_entries() -> Seq<(Method, Seq<char>, Route)> {
    seq![
        (Method::Get, "/plaintext"@, Route::Plaintext),
        (Method::Get, "/json"@, Route::Json),
        (Method::Get, "/db"@, Route::Db),
        (Method::Get, "/fortunes"@, Route::Fortunes),
        (Method::Get, "/queries"@, Route::Queries),
        (Method::Get, "/updates"@, Route::Updates),
    ]
}

/// A path some default entry carries.
pub open spec fn defined_path(p: Seq<char>) -> bool {
    ||| p == "/plaintext"@
    ||| p == "/json"@
    ||| p == "/db"@
    ||| p == "/fortunes"@
    ||| p == "/queries"@
    ||| p == "/updates"@
}

/// The intended routing contract: each defined path resolves, under GET, to
/// its own handler; a defined path under any other method is refused with
/// `MethodNotAllowed`; an undefined path is refused with `RouteNotFound`.
pub open spec fn std_route(m: Method, p: Seq<char>) -> Result<Route, Error> {
    if !defined_path(p) {
        Err(Error::RouteNotFound)
    } else if m != Method::Get {
        Err(Error::MethodNotAllowed)
    } else if p == "/plaintext"@ {
        Ok(Route::Plaintext)
    } else if p == "/json"@ {
        Ok(Route::Json)
    } else if p == "/db"@ {
        Ok(Route::Db)
    } else if p == "/fortunes"@ {
        Ok(Route::Fortunes)
    } else if p == "/queries"@ {
        Ok(Route::Queries)
    } else {
        Ok(Route::Updates)
    }
}

/// Build the service's table, one insertion per route.
pub fn default_table() -> (t: RouteTable)
    ensures
        t.wf(),
        t.view_spec() =~= default_entries(),
{
    proof {
        reveal_strlit("/plaintext");
        reveal_strlit("/json");
        reveal_strlit("/db");
        reveal_strlit("/fortunes");
        reveal_strlit("/queries");
        reveal_strlit("/updates");
        lemma_default_paths_distinct();
    }
    let mut t = RouteTable::new();
    let _ = t.insert(Method::Get, "/plaintext", Route::Plaintext);
    let _ = t.insert(Method::Get, "/json", Route::Json);
    let _ = t.insert(Method::Get, "/db", Route::Db);
    let _ = t.insert(Method::Get, "/fortunes", Route::Fortunes);
    let _ = t.insert(Method::Get, "/queries", Route::Queries);
    let _ = t.insert(Method::Get, "/updates", Route::Updates);
    t
}

/// The six route paths are pairwise distinct character sequences.
pub proof fn lemma_default_paths_distinct()
    ensures
        "/plaintext"@ != "/json"@,
        "/plaintext"@ != "/db"@,
        "/plaintext"@ != "/fortunes"@,
        "/plaintext"@ != "/queries"@,
        "/plaintext"@ != "/updates"@,
        "/json"@ != "/db"@,
        "/json"@ != "/fortunes"@,
        "/json"@ != "/queries"@,
        "/json"@ != "/updates"@,
        "/db"@ != "/fortunes"@,
        "/db"@ != "/queries"@,
        "/db"@ != "/updates"@,
        "/fortunes"@ != "/queries"@,
        "/fortunes"@ != "/updates"@,
        "/queries"@ != "/updates"@,
{
    reveal_strlit("/plaintext");
    reveal_strlit("/json");
    reveal_strlit("/db");
    reveal_strlit("/fortunes");
    reveal_strlit("/queries");
    reveal_strlit("/updates");
    assert("/plaintext"@.len() == 10);
    assert("/json"@.len() == 5);
    assert("/db"@.len() == 3);
    assert("/fortunes"@.len() == 9);
    assert("/queries"@.len() == 8);
    assert("/updates"@.len() == 8);
    assert("/queries"@[1] == 'q');
    assert("/updates"@[1] == 'u');
}

/// The routing laws of the standard table: dispatch over its entries agrees
/// with the intended contract on every method and every path.
pub proof fn lemma_default_dispatch(m: Method, p: Seq<char>)
    ensures
        spec_dispatch(default_entries(), m, p) == std_route(m, p),
{
    reveal_strlit("/plaintext");
    reveal_strlit("/json");
    reveal_strlit("/db");
    reveal_strlit("/fortunes");
    reveal_strlit("/queries");
    reveal_strlit("/updates");
    lemma_default_paths_distinct();
    reveal_with_fuel(first_route, 8);
    let t = default_entries();
    let t1 = t.drop_first();
    let t2 = t1.drop_first();
    let t3 = t2.drop_first();
    let t4 = t3.drop_first();
    let t5 = t4.drop_first();
    let t6 = t5.drop_first();
    assert(t1 =~= t.subrange(1, 6));
    assert(t2 =~= t.subrange(2, 6));
    assert(t3 =~= t.subrange(3, 6));
    assert(t4 =~= t.subrange(4, 6));
    assert(t5 =~= t.subrange(5, 6));
    assert(t6 =~= Seq::<(Method, Seq<char>, Route)>::empty());
    assert(first_route(t6, m, p) is None);
    if !defined_path(p) {
        assert(first_route(t, m, p) is None);
        assert(!has_path(t, p));
    } else if m != Method::Get {
        assert(first_route(t, m, p) is None);
        assert(t[0].1 == "/plaintext"@);
        assert(has_path(t, p));
    } else {
        if p == "/plaintext"@ {
            assert(first_route(t, m, p) == Some(Route::Plaintext));
        } else if p == "/json"@ {
            assert(first_route(t, m, p) == Some(Route::Json));
        } else if p == "/db"@ {
            assert(first_route(t, m, p) == Some(Route::Db));
        } else if p == "/fortunes"@ {
            assert(first_route(t, m, p) == Some(Route::Fortunes));
        } else if p == "/queries"@ {
            assert(first_route(t, m, p) == Some(Route::Queries));
        } else {
            assert(first_route(t, m, p) == Some(Route::Updates));
        }
    }
}

} // verus!
