//! Routes whose path has parameters, matched by matchit.
use vstd::prelude::*;

verus! {

/// matchit's router holding route ids, kept opaque to verification.
#[verifier::external_body]
pub struct MatchitTable {
    inner: matchit::Router<u64>,
}

/// Every insertion made into `r` so far, in order, each as its pattern and value, whether
/// matchit accepted it or refused it as invalid or conflicting. matchit's router is built
/// deterministically from this sequence.
pub uninterp spec fn inserted_routes(r: MatchitTable) -> Seq<(Seq<char>, u64)>;

/// What matchit's `at` finds for `path` in a router built by inserting `routes` in order:
/// the value of the matching route and the parameters it captured, or nothing.
pub uninterp spec fn matchit_at(routes: Seq<(Seq<char>, u64)>, path: Seq<char>) -> Option<(u64, Seq<(Seq<char>, Seq<char>)>)>;

/// How many route parameters matchit names in `pattern`, counted from above: each `{` that
/// is not half of a doubled `{{` escape and is not followed by `*` (which starts a catch-all).
/// `{{` and `}}` each stand for one brace, read from left to right.
pub open spec fn param_opens(pattern: Seq<char>) -> nat
    decreases pattern.len(),
{
    if pattern.len() == 0 {
        0
    } else if pattern.len() >= 2 && ((pattern[0] == '{' && pattern[1] == '{') || (pattern[0] == '}'
        && pattern[1] == '}')) {
        param_opens(pattern.skip(2))
    } else if pattern[0] == '{' && !(pattern.len() >= 2 && pattern[1] == '*') {
        1 + param_opens(pattern.skip(1))
    } else {
        param_opens(pattern.skip(1))
    }
}

/// The most route parameters matchit can name: it names them `a` to `z` and panics on
/// the next one.
pub open spec fn max_params() -> nat {
    25
}

/// Calls matchit's `Router::new`. The contract claims the router holds no route.
#[verifier::external_body]
fn matchit_new() -> (r: MatchitTable)
    ensures
        inserted_routes(r) == Seq::<(Seq<char>, u64)>::empty(),
{
    MatchitTable { inner: matchit::Router::new() }
}

/// Calls matchit's `Router::insert`, discarding whether matchit accepted the route. The
/// contract claims only that the insertion is recorded: what the router then matches is
/// what [`matchit_at`] gives for the whole sequence of insertions. matchit panics on a
/// pattern with more parameters than it can name, so such a pattern is left out.
#[verifier::external_body]
fn matchit_insert(r: &mut MatchitTable, pattern: &str, value: u64)
    requires
        param_opens(pattern@) <= max_params(),
    ensures
        inserted_routes(*final(r)) == inserted_routes(*old(r)).push((pattern@, value)),
{
    let _ = r.inner.insert(pattern, value);
}

/// Calls matchit's `Router::at` and copies out the value and the parameters.
#[verifier::external_body]
fn matchit_lookup(r: &MatchitTable, path: &str) -> (res: Option<(u64, Vec<(String, String)>)>)
    ensures
        match res {
            Some((v, params)) => matchit_at(inserted_routes(*r), path@) == Some(
                (v, params@.map_values(|p: (String, String)| (p.0@, p.1@))),
            ),
            None => matchit_at(inserted_routes(*r), path@) is None,
        },
{
    match r.inner.at(path) {
        Ok(m) => Some((*m.value, m.params.iter().map(|(k, v)| (k.to_string(), v.to_string())).collect())),
        Err(_) => None,
    }
}

/// The table of routes with parameters.
pub struct DynamicRoutes {
    router: MatchitTable,
}

/// A matched route: its id and the parameters the path supplied, by name.
pub struct DynamicMatch {
    route_id: crate::router::router::RouteId,
    params: Vec<(String, String)>,
}

impl DynamicMatch {
    /// The matched route.
    pub fn route_id(&self) -> (r: crate::router::router::RouteId)
        ensures
            r == self.route(),
    {
        self.route_id
    }

    /// The matched route.
    pub closed spec fn route(&self) -> crate::router::router::RouteId {
        self.route_id
    }

    /// The captured parameters, each as its name and value.
    pub closed spec fn params(&self) -> Seq<(Seq<char>, Seq<char>)> {
        self.params@.map_values(|p: (String, String)| (p.0@, p.1@))
    }

    /// The captured parameters, each as its name and value.
    pub fn param_list(&self) -> (r: &Vec<(String, String)>)
        ensures
            r@.map_values(|p: (String, String)| (p.0@, p.1@)) == self.params(),
    {
        &self.params
    }
}

impl View for DynamicRoutes {
    type V = Seq<(Seq<char>, u64)>;

    closed spec fn view(&self) -> Seq<(Seq<char>, u64)> {
        inserted_routes(self.router)
    }
}

impl DynamicRoutes {
    /// An empty table.
    pub fn new() -> (r: Self)
        ensures
            r@ == Seq::<(Seq<char>, u64)>::empty(),
    {
        DynamicRoutes { router: matchit_new() }
    }

    /// Inserts the route `pattern` for `route_id`. The pattern may have at most 25
    /// parameters other than a catch-all.
    pub fn insert(&mut self, pattern: &str, route_id: crate::router::router::RouteId)
        requires
            param_opens(pattern@) <= max_params(),
        ensures
            final(self)@ == old(self)@.push((pattern@, route_id.0)),
    {
        matchit_insert(&mut self.router, pattern, route_id.0);
    }

    /// The route that matches `path`, with the parameters it captured, if any.
    pub fn get(&self, path: &str) -> (r: Option<DynamicMatch>)
        ensures
            match matchit_at(self@, path@) {
                Some((v, params)) => r matches Some(m) && m.route() == crate::router::router::RouteId(v)
                    && m.params() == params,
                None => r is None,
            },
    {
        match matchit_lookup(&self.router, path) {
            Some((v, params)) => Some(DynamicMatch { route_id: crate::router::router::RouteId(v), params }),
            None => None,
        }
    }
}

} // verus!
