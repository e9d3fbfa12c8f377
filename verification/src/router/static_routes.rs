//! Routes whose path has no parameters, found by exact method and path.
use vstd::prelude::*;
use crate::router::router::{Method, RouteId};
use crate::text::str_eq;

verus! {

/// The route registered for `key` in `entries`: the last one registered under it.
pub open spec fn static_lookup(entries: Seq<(Seq<char>, Seq<char>, RouteId)>, method: Seq<char>, path: Seq<char>) -> Option<RouteId>
    decreases entries.len(),
{
    if entries.len() == 0 {
        None
    } else if entries.last().0 == method && entries.last().1 == path {
        Some(entries.last().2)
    } else {
        static_lookup(entries.drop_last(), method, path)
    }
}

/// The table of static routes: each a method, a path and the route registered for them.
/// Registering the same method and path again replaces the earlier route.
pub struct StaticRoutes {
    routes: Vec<(Method, String, RouteId)>,
}

impl View for StaticRoutes {
    type V = Seq<(Seq<char>, Seq<char>, RouteId)>;

    closed spec fn view(&self) -> Seq<(Seq<char>, Seq<char>, RouteId)> {
        self.routes@.map_values(|e: (Method, String, RouteId)| (e.0@, e.1@, e.2))
    }
}

impl StaticRoutes {
    /// An empty table.
    pub fn new() -> (r: Self)
        ensures
            r@ == Seq::<(Seq<char>, Seq<char>, RouteId)>::empty(),
    {
        let r = StaticRoutes { routes: Vec::new() };
        assert(r@ =~= Seq::<(Seq<char>, Seq<char>, RouteId)>::empty());
        r
    }

    /// Registers `route_id` for `method` and `path`.
    pub fn insert(&mut self, method: Method, path: &str, route_id: RouteId)
        ensures
            final(self)@ == old(self)@.push((method@, path@, route_id)),
    {
        let ghost entry = (method@, path@, route_id);
        self.routes.push((method, path.to_owned(), route_id));
        assert(self@ =~= old(self)@.push(entry));
    }

    /// The route registered for `method` and `path`, if any.
    pub fn get(&self, method: &Method, path: &str) -> (r: Option<RouteId>)
        ensures
            r == static_lookup(self@, method@, path@),
    {
        let mut i = self.routes.len();
        assert(self@.subrange(0, i as int) =~= self@);
        while i > 0
            invariant
                i <= self.routes.len(),
                static_lookup(self@, method@, path@) == static_lookup(self@.subrange(0, i as int), method@, path@),
            decreases i,
        {
            assert(self@.subrange(0, i as int).drop_last() =~= self@.subrange(0, i - 1));
            let entry = &self.routes[i - 1];
            if entry.0.same(method) && str_eq(entry.1.as_str(), path) {
                return Some(entry.2);
            }
            i = i - 1;
        }
        None
    }
}

/// After registering `id` for a method and path, looking them up gives `id`; looking up any
/// other method or path gives what it gave before.
pub proof fn lemma_static_lookup_after_insert(
    entries: Seq<(Seq<char>, Seq<char>, RouteId)>,
    method: Seq<char>,
    path: Seq<char>,
    id: RouteId,
    other_method: Seq<char>,
    other_path: Seq<char>,
)
    ensures
        static_lookup(entries.push((method, path, id)), method, path) == Some(id),
        (other_method != method || other_path != path) ==> static_lookup(
            entries.push((method, path, id)),
            other_method,
            other_path,
        ) == static_lookup(entries, other_method, other_path),
{
    assert(entries.push((method, path, id)).drop_last() =~= entries);
}

} // verus!
