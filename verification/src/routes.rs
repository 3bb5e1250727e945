//! The table of registered routes.
//!
//! A route is keyed by the exact pair of path and method; registering a
//! key a second time replaces its handler, and lookup is exact string
//! match only — no wildcard, prefix, or trailing-slash normalization.
//! The handler type is a parameter: the table itself never calls one.

use vstd::prelude::*;

use crate::params::str_eq;

verus! {

/// One registered route: an exact path, an exact method, and its handler.
pub struct Route<H> {
    pub path: String,
    pub method: String,
    pub handler: H,
}

/// The key a route is matched under.
pub open spec fn route_key<H>(r: Route<H>) -> (Seq<char>, Seq<char>) {
    (r.path@, r.method@)
}

/// The mapping held by a list of routes, later routes overriding earlier ones.
spec fn routes_map<H>(s: Seq<Route<H>>) -> Map<(Seq<char>, Seq<char>), H>
    decreases s.len(),
{
    if s.len() == 0 {
        Map::empty()
    } else {
        map![route_key(s[0]) => s[0].handler].union_prefer_right(routes_map(s.drop_first()))
    }
}

/// `routes_map` binds exactly the keys that occur in the route list.
proof fn lemma_routes_map_dom<H>(s: Seq<Route<H>>, k: (Seq<char>, Seq<char>))
    ensures
        routes_map(s).contains_key(k) <==> exists|i: int| 0 <= i < s.len() && route_key(s[i]) == k,
    decreases s.len(),
{
    if s.len() > 0 {
        lemma_routes_map_dom(s.drop_first(), k);
        if route_key(s[0]) == k {
            assert(routes_map(s).contains_key(k));
        } else if exists|i: int| 0 <= i < s.len() && route_key(s[i]) == k {
            let i = choose|i: int| 0 <= i < s.len() && route_key(s[i]) == k;
            assert(route_key(s.drop_first()[i - 1]) == k);
        }
    }
}

/// When no later route shares the key of route `i`, `routes_map` binds
/// that key to that route's handler.
proof fn lemma_routes_map_at<H>(s: Seq<Route<H>>, i: int)
    requires
        0 <= i < s.len(),
        forall|j: int| i < j < s.len() ==> route_key(s[j]) != route_key(s[i]),
    ensures
        routes_map(s).contains_key(route_key(s[i])),
        routes_map(s)[route_key(s[i])] == s[i].handler,
    decreases s.len(),
{
    if i == 0 {
        lemma_routes_map_dom(s.drop_first(), route_key(s[0]));
        if routes_map(s.drop_first()).contains_key(route_key(s[0])) {
            let j = choose|j: int|
                0 <= j < s.drop_first().len() && route_key(s.drop_first()[j]) == route_key(s[0]);
            assert(route_key(s[j + 1]) == route_key(s[0]));
            assert(false);
        }
    } else {
        assert(forall|j: int| i - 1 < j < s.drop_first().len()
            ==> route_key(#[trigger] s.drop_first()[j]) != route_key(s.drop_first()[i - 1]));
        lemma_routes_map_at(s.drop_first(), i - 1);
    }
}

/// Appending a route updates the mapping at its key.
proof fn lemma_routes_map_push<H>(s: Seq<Route<H>>, r: Route<H>)
    ensures
        routes_map(s.push(r)) =~= routes_map(s).insert(route_key(r), r.handler),
    decreases s.len(),
{
    if s.len() == 0 {
        assert(s.push(r)[0] == r);
        assert(s.push(r).drop_first() =~= Seq::<Route<H>>::empty());
        assert(routes_map(Seq::<Route<H>>::empty()) == Map::<(Seq<char>, Seq<char>), H>::empty());
        assert(routes_map(s.push(r)) =~= routes_map(s).insert(route_key(r), r.handler));
    } else {
        lemma_routes_map_push(s.drop_first(), r);
        assert(s.push(r).drop_first() =~= s.drop_first().push(r));
        assert(s.push(r)[0] == s[0]);
        assert(routes_map(s.push(r)) == map![route_key(s[0]) => s[0].handler].union_prefer_right(
            routes_map(s.drop_first()).insert(route_key(r), r.handler),
        ));
        assert(routes_map(s) == map![route_key(s[0]) => s[0].handler].union_prefer_right(
            routes_map(s.drop_first()),
        ));
        assert(routes_map(s.push(r)) =~= routes_map(s).insert(route_key(r), r.handler));
    }
}

/// Replacing the handler of route `i` updates the mapping at its key,
/// provided no later route shares that key.
proof fn lemma_routes_map_update<H>(s: Seq<Route<H>>, i: int, h: H)
    requires
        0 <= i < s.len(),
        forall|j: int| i < j < s.len() ==> route_key(s[j]) != route_key(s[i]),
    ensures
        routes_map(s.update(i, Route { path: s[i].path, method: s[i].method, handler: h }))
            =~= routes_map(s).insert(route_key(s[i]), h),
    decreases s.len(),
{
    let t = s.update(i, Route { path: s[i].path, method: s[i].method, handler: h });
    if i == 0 {
        assert(t.drop_first() =~= s.drop_first());
        lemma_routes_map_dom(s.drop_first(), route_key(s[0]));
        if routes_map(s.drop_first()).contains_key(route_key(s[0])) {
            let j = choose|j: int|
                0 <= j < s.drop_first().len() && route_key(s.drop_first()[j]) == route_key(s[0]);
            assert(route_key(s[j + 1]) == route_key(s[0]));
            assert(false);
        }
        assert(route_key(t[0]) == route_key(s[0]));
        assert(routes_map(t) =~= routes_map(s).insert(route_key(s[0]), h));
    } else {
        assert(forall|j: int| i - 1 < j < s.drop_first().len()
            ==> route_key(#[trigger] s.drop_first()[j]) != route_key(s.drop_first()[i - 1]));
        lemma_routes_map_update(s.drop_first(), i - 1, h);
        assert(t.drop_first() =~= s.drop_first().update(
            i - 1,
            Route {
                path: s.drop_first()[i - 1].path,
                method: s.drop_first()[i - 1].method,
                handler: h,
            },
        ));
        assert(t[0] == s[0]);
        assert(routes_map(t) =~= routes_map(s).insert(route_key(s[i]), h));
    }
}

/// A concurrency-guarded mapping from (path, method) to handler; the
/// guard itself lives with the runtime, the mapping's behaviour here.
pub struct RouteTable<H> {
    routes: Vec<Route<H>>,
}

impl<H> View for RouteTable<H> {
    type V = Map<(Seq<char>, Seq<char>), H>;

    closed spec fn view(&self) -> Map<(Seq<char>, Seq<char>), H> {
        routes_map(self.routes@)
    }
}

impl<H> RouteTable<H> {
    /// Each key occurs in at most one route.
    pub closed spec fn wf(&self) -> bool {
        forall|i: int, j: int| 0 <= i < j < self.routes@.len()
            ==> route_key(#[trigger] self.routes@[i]) != route_key(#[trigger] self.routes@[j])
    }

    /// A table with no routes.
    pub fn new() -> (r: RouteTable<H>)
        ensures
            r.wf(),
            r@ == Map::<(Seq<char>, Seq<char>), H>::empty(),
    {
        let r = RouteTable { routes: Vec::new() };
        proof {
            assert(r@ =~= Map::<(Seq<char>, Seq<char>), H>::empty());
        }
        r
    }

    /// Registers `handler` under (`path`, `method`); a handler already
    /// registered under that key is replaced.
    pub fn register(&mut self, path: String, method: String, handler: H)
        requires
            old(self).wf(),
        ensures
            final(self).wf(),
            final(self)@ == old(self)@.insert((path@, method@), handler),
    {
        let n = self.routes.len();
        let mut i: usize = 0;
        while i < n
            invariant
                i <= n,
                n == self.routes@.len(),
                self.wf(),
                self == old(self),
                forall|j: int| 0 <= j < i ==> route_key(#[trigger] self.routes@[j]) != (path@, method@),
            decreases n - i,
        {
            if str_eq(self.routes[i].path.as_str(), path.as_str())
                && str_eq(self.routes[i].method.as_str(), method.as_str()) {
                proof {
                    lemma_routes_map_update(self.routes@, i as int, handler);
                }
                self.routes[i].handler = handler;
                proof {
                    assert(self.routes@ =~= old(self).routes@.update(
                        i as int,
                        Route {
                            path: old(self).routes@[i as int].path,
                            method: old(self).routes@[i as int].method,
                            handler: handler,
                        },
                    ));
                }
                return ;
            }
            i += 1;
        }
        proof {
            lemma_routes_map_push(self.routes@, Route { path: path, method: method, handler: handler });
        }
        self.routes.push(Route { path, method, handler });
    }

    /// Looks the pair (`path`, `method`) up, by exact match only.
    pub fn dispatch<'a>(&'a self, path: &str, method: &str) -> (r: Option<&'a H>)
        requires
            self.wf(),
        ensures
            match r {
                Some(h) => self@.contains_key((path@, method@)) && *h == self@[(path@, method@)],
                None => !self@.contains_key((path@, method@)),
            },
    {
        let n = self.routes.len();
        let mut i: usize = 0;
        while i < n
            invariant
                i <= n,
                n == self.routes@.len(),
                self.wf(),
                forall|j: int| 0 <= j < i ==> route_key(#[trigger] self.routes@[j]) != (path@, method@),
            decreases n - i,
        {
            if str_eq(self.routes[i].path.as_str(), path)
                && str_eq(self.routes[i].method.as_str(), method) {
                proof {
                    lemma_routes_map_at(self.routes@, i as int);
                }
                return Some(&self.routes[i].handler);
            }
            i += 1;
        }
        proof {
            lemma_routes_map_dom(self.routes@, (path@, method@));
        }
        None
    }
}

/// Law: after registering a handler, a request with exactly that path and
/// method is bound to that handler and no other, and every other key keeps
/// the handler it had; registering the same key again replaces the handler.
/// Stated over the table's mapping, which `register` updates by `insert`
/// and `dispatch` reads.
pub proof fn lemma_register_then_dispatch<H>(
    m: Map<(Seq<char>, Seq<char>), H>,
    path: Seq<char>,
    method: Seq<char>,
    handler: H,
)
    ensures
        m.insert((path, method), handler).contains_key((path, method)),
        m.insert((path, method), handler)[(path, method)] == handler,
        forall|k: (Seq<char>, Seq<char>)| k != (path, method)
            ==> m.insert((path, method), handler).contains_key(k) == m.contains_key(k),
        forall|k: (Seq<char>, Seq<char>)| k != (path, method) && m.contains_key(k)
            ==> m.insert((path, method), handler)[k] == m[k],
{
}

} // verus!
