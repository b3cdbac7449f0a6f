//! The table of routes and how a request finds its route.
use vstd::prelude::*;

use crate::frameworks_and_drivers::message::http_method::HttpMethod;
use crate::frameworks_and_drivers::message::route::{Route, RouteView};
use crate::text::{chars_of, find_char_in, lemma_find_char_bounds, str_eq};

verus! {

/// Whether a route pattern ends in the wildcard `*`.
pub open spec fn is_wildcard(pattern: Seq<char>) -> bool {
    pattern.len() > 0 && pattern.last() == '*'
}

/// Whether `path` fits `pattern`: a pattern without wildcard fits only itself;
/// one that ends in `*` fits its part before the `*` followed by one or more
/// characters none of which is `/`.
pub open spec fn path_matches(pattern: Seq<char>, path: Seq<char>) -> bool {
    if is_wildcard(pattern) {
        let prefix = pattern.drop_last();
        &&& path.len() > prefix.len()
        &&& path.take(prefix.len() as int) == prefix
        &&& !path.skip(prefix.len() as int).contains('/')
    } else {
        path == pattern
    }
}

/// What stands in a path in place of the pattern's `*` (empty for a pattern
/// without wildcard).
pub open spec fn route_parameter(pattern: Seq<char>, path: Seq<char>) -> Seq<char> {
    if is_wildcard(pattern) {
        path.skip(pattern.len() - 1)
    } else {
        Seq::empty()
    }
}

pub open spec fn route_matches(r: RouteView, method: HttpMethod, path: Seq<char>) -> bool {
    r.method == method && path_matches(r.path, path)
}

/// The position of the first route that a request fits, or the number of
/// routes when it fits none.
pub open spec fn match_index(routes: Seq<RouteView>, method: HttpMethod, path: Seq<char>) -> int
    decreases routes.len(),
{
    if routes.len() == 0 {
        0
    } else if route_matches(routes[0], method, path) {
        0
    } else {
        1 + match_index(routes.drop_first(), method, path)
    }
}

pub proof fn lemma_match_index(routes: Seq<RouteView>, method: HttpMethod, path: Seq<char>, i: int)
    requires
        0 <= i <= routes.len(),
        forall|j: int| 0 <= j < i ==> !route_matches(#[trigger] routes[j], method, path),
        i < routes.len() ==> route_matches(routes[i], method, path),
    ensures
        match_index(routes, method, path) == i,
    decreases i,
{
    if i > 0 {
        let t = routes.drop_first();
        assert forall|j: int| 0 <= j < i - 1 implies !route_matches(#[trigger] t[j], method, path) by {
            assert(t[j] == routes[j + 1]);
        }
        if i - 1 < t.len() {
            assert(t[i - 1] == routes[i]);
        }
        lemma_match_index(t, method, path, i - 1);
    }
}

pub proof fn lemma_match_index_fits(routes: Seq<RouteView>, method: HttpMethod, path: Seq<char>)
    ensures
        0 <= match_index(routes, method, path) <= routes.len(),
        match_index(routes, method, path) < routes.len() ==> route_matches(
            routes[match_index(routes, method, path)],
            method,
            path,
        ),
    decreases routes.len(),
{
    if routes.len() > 0 && !route_matches(routes[0], method, path) {
        let t = routes.drop_first();
        lemma_match_index_fits(t, method, path);
        if match_index(t, method, path) < t.len() {
            assert(t[match_index(t, method, path)] == routes[match_index(routes, method, path)]);
        }
    }
}

/// Whether `path` fits the route pattern `pattern`.
pub fn path_matches_pattern(pattern: &str, path: &str) -> (r: bool)
    ensures
        r == path_matches(pattern@, path@),
{
    let p = chars_of(pattern);
    let q = chars_of(path);
    let pl = p.len();
    if pl > 0 && p[pl - 1] == '*' {
        let k = pl - 1;
        if q.len() <= k {
            return false;
        }
        let mut i: usize = 0;
        while i < k
            invariant
                k == pl - 1,
                pl == p.len(),
                p@ == pattern@,
                q@ == path@,
                p@[k as int] == '*',
                k < q.len(),
                i <= k,
                forall|j: int| 0 <= j < i ==> p@[j] == q@[j],
            decreases k - i,
        {
            if p[i] != q[i] {
                assert(q@.take(k as int)[i as int] != p@.drop_last()[i as int]);
                assert(q@.take(k as int) != p@.drop_last());
                assert(is_wildcard(pattern@));
                return false;
            }
            i = i + 1;
        }
        assert(q@.take(k as int) =~= p@.drop_last());
        let slash = find_char_in(&q, k, q.len(), '/');
        proof {
            let rest = q@.subrange(k as int, q@.len() as int);
            assert(rest =~= q@.skip(k as int));
            lemma_find_char_bounds(rest, '/');
            if slash < q.len() {
                assert(rest[slash - k] == '/');
            } else {
                assert forall|j: int| 0 <= j < rest.len() implies rest[j] != '/' by {}
            }
        }
        slash == q.len()
    } else {
        str_eq(pattern, path)
    }
}

/// The routes of the dictionary, in the order the server adds them.
pub open spec fn dictionary_routes() -> Seq<RouteView> {
    seq![
        RouteView { method: HttpMethod::Delete, path: "/words/*"@, action: "delete_word"@ },
        RouteView { method: HttpMethod::Put, path: "/words"@, action: "update_word"@ },
        RouteView { method: HttpMethod::Post, path: "/words"@, action: "add_word"@ },
        RouteView { method: HttpMethod::Get, path: "/words"@, action: "view_all"@ },
        RouteView { method: HttpMethod::Get, path: "/words/*"@, action: "find_word"@ },
    ]
}

/// The routes in the order they were added.
pub struct Router {
    routes: Vec<Route>,
}

pub open spec fn view_routes(v: Seq<Route>) -> Seq<RouteView> {
    v.map_values(|r: Route| r@)
}

impl View for Router {
    type V = Seq<RouteView>;

    closed spec fn view(&self) -> Seq<RouteView> {
        view_routes(self.routes@)
    }
}

impl Router {
    pub fn new() -> (r: Router)
        ensures
            r@ == Seq::<RouteView>::empty(),
    {
        let r = Router { routes: Vec::new() };
        assert(view_routes(r.routes@) =~= Seq::<RouteView>::empty());
        r
    }

    /// The router of the dictionary: find a word, list all, add, update and
    /// delete one.
    pub fn dictionary() -> (r: Router)
        ensures
            r@ == dictionary_routes(),
    {
        let mut router = Router::new();
        router.add_route(Box::new(Route::new(HttpMethod::Delete, "/words/*", "delete_word")));
        router.add_route(Box::new(Route::new(HttpMethod::Put, "/words", "update_word")));
        router.add_route(Box::new(Route::new(HttpMethod::Post, "/words", "add_word")));
        router.add_route(Box::new(Route::new(HttpMethod::Get, "/words", "view_all")));
        router.add_route(Box::new(Route::new(HttpMethod::Get, "/words/*", "find_word")));
        assert(router@ =~= dictionary_routes());
        router
    }

    /// Adds a route after those already there.
    pub fn add_route(&mut self, route: Box<Route>)
        ensures
            final(self)@ == old(self)@.push(route@),
    {
        let ghost rv = route@;
        self.routes.push(*route);
        assert(view_routes(self.routes@) =~= view_routes(old(self).routes@).push(rv));
    }

    /// The first route that a request with this method and path fits.
    pub fn find_route(&self, method: HttpMethod, path: &str) -> (r: Option<&Route>)
        ensures
            match r {
                Some(route) => match_index(self@, method, path@) < self@.len()
                    && route@ == self@[match_index(self@, method, path@)],
                None => match_index(self@, method, path@) == self@.len(),
            },
    {
        let ghost rs = self@;
        let mut i: usize = 0;
        while i < self.routes.len()
            invariant
                i <= self.routes.len(),
                rs == view_routes(self.routes@),
                forall|j: int| 0 <= j < i ==> !route_matches(#[trigger] rs[j], method, path@),
            decreases self.routes.len() - i,
        {
            let route = &self.routes[i];
            if route.get_method() == method && path_matches_pattern(route.get_path(), path) {
                proof {
                    lemma_match_index(rs, method, path@, i as int);
                }
                return Some(route);
            }
            i = i + 1;
        }
        proof {
            lemma_match_index(rs, method, path@, i as int);
        }
        None
    }
}

} // verus!
