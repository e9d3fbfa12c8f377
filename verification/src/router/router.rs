//! The route table that pages, layouts and method routes are registered in.
use vstd::prelude::*;
use crate::router::path::PathBuf;
use crate::router::pattern::Pattern;
use crate::text::str_eq;

verus! {

/// An HTTP request method, held by its name (such as `GET`).
#[derive(Debug)]
pub struct Method {
    name: String,
}

impl View for Method {
    type V = Seq<char>;

    closed spec fn view(&self) -> Seq<char> {
        self.name@
    }
}

impl Method {
    /// The method named `name`.
    pub fn from_name(name: &str) -> (r: Self)
        ensures
            r@ == name@,
    {
        Method { name: name.to_owned() }
    }

    /// The `GET` method.
    pub fn get() -> (r: Self)
        ensures
            r@ == seq!['G', 'E', 'T'],
    {
        let r = Method::from_name("GET");
        proof {
            reveal_strlit("GET");
        }
        r
    }

    /// The method's name.
    pub fn as_str(&self) -> (r: &str)
        ensures
            r@ == self@,
    {
        self.name.as_str()
    }

    /// Returns whether `self` and `other` are the same method.
    pub fn same(&self, other: &Method) -> (r: bool)
        ensures
            r == (self@ == other@),
    {
        str_eq(self.name.as_str(), other.name.as_str())
    }

    /// A copy of this method.
    pub fn duplicate(&self) -> (r: Method)
        ensures
            r@ == self@,
    {
        Method { name: self.name.clone() }
    }
}

/// Identifies a handler that the application registered; the route table carries it through.
#[derive(Clone, Copy, Debug, PartialEq, Eq, Structural)]
pub struct HandlerId(pub u64);

/// Identifies a route in a route table.
#[derive(Clone, Copy, Debug, PartialEq, Eq, Structural)]
pub struct RouteId(pub u64);

/// A page defined in a source file, before its route path is known.
#[derive(Clone, Copy, Debug)]
pub struct FilePage {
    file: &'static str,
    handler: HandlerId,
}

/// A layout defined in a source file, before its route path is known.
#[derive(Clone, Copy, Debug)]
pub struct FileLayout {
    file: &'static str,
    handler: HandlerId,
}

/// A page together with the path it is served under.
pub struct Page {
    path: PathBuf,
    handler: HandlerId,
}

/// A layout together with the path whose pages it wraps.
pub struct Layout {
    path: PathBuf,
    handler: HandlerId,
}

impl FilePage {
    /// The page that `handler` renders, defined in `file`.
    pub fn new(file: &'static str, handler: HandlerId) -> (r: Self)
        ensures
            r.file() == file@,
            r.handler() == handler,
    {
        FilePage { file, handler }
    }

    /// The file the page is defined in.
    pub closed spec fn file(&self) -> Seq<char> {
        self.file@
    }

    /// The handler that renders the page.
    pub closed spec fn handler(&self) -> HandlerId {
        self.handler
    }

    /// The file the page is defined in.
    pub fn file_str(&self) -> (r: &'static str)
        ensures
            r@ == self.file(),
    {
        self.file
    }

    /// The page, served under `path`.
    pub fn into_page(self, path: PathBuf) -> (r: Page)
        ensures
            r.path() == path@,
            r.handler() == self.handler(),
    {
        Page { path, handler: self.handler }
    }
}

impl FileLayout {
    /// The layout that `handler` renders, defined in `file`.
    pub fn new(file: &'static str, handler: HandlerId) -> (r: Self)
        ensures
            r.file() == file@,
            r.handler() == handler,
    {
        FileLayout { file, handler }
    }

    /// The file the layout is defined in.
    pub closed spec fn file(&self) -> Seq<char> {
        self.file@
    }

    /// The handler that renders the layout.
    pub closed spec fn handler(&self) -> HandlerId {
        self.handler
    }

    /// The file the layout is defined in.
    pub fn file_str(&self) -> (r: &'static str)
        ensures
            r@ == self.file(),
    {
        self.file
    }

    /// The layout, wrapping the pages under `path`.
    pub fn into_layout(self, path: PathBuf) -> (r: Layout)
        ensures
            r.path() == path@,
            r.handler() == self.handler(),
    {
        Layout { path, handler: self.handler }
    }
}

impl Page {
    /// The path the page is served under.
    pub closed spec fn path(&self) -> Seq<char> {
        self.path@
    }

    /// The handler that renders the page.
    pub closed spec fn handler(&self) -> HandlerId {
        self.handler
    }

    /// The path the page is served under.
    pub fn path_str(&self) -> (r: &str)
        ensures
            r@ == self.path(),
    {
        self.path.as_str()
    }
}

impl Layout {
    /// The path whose pages the layout wraps.
    pub closed spec fn path(&self) -> Seq<char> {
        self.path@
    }

    /// The handler that renders the layout.
    pub closed spec fn handler(&self) -> HandlerId {
        self.handler
    }
}

/// A route registered for a request method and a pattern.
pub struct Route {
    method: Method,
    pattern: Pattern,
}

/// What a route table holds, as plain values: its pages and layouts (each a path and a
/// handler) and its method routes (each a method name and a pattern's text).
pub struct RouterSpec {
    pub pages: Seq<(Seq<char>, HandlerId)>,
    pub layouts: Seq<(Seq<char>, HandlerId)>,
    pub routes: Seq<(Seq<char>, Seq<char>)>,
}

impl RouterSpec {
    /// Nothing is registered.
    pub open spec fn is_empty(self) -> bool {
        self.pages.len() == 0 && self.layouts.len() == 0 && self.routes.len() == 0
    }
}

/// The route table.
pub struct Router {
    pages: Vec<Page>,
    layouts: Vec<Layout>,
    routes: Vec<Route>,
}

impl View for Router {
    type V = RouterSpec;

    closed spec fn view(&self) -> RouterSpec {
        RouterSpec {
            pages: self.pages@.map_values(|p: Page| (p.path(), p.handler())),
            layouts: self.layouts@.map_values(|l: Layout| (l.path(), l.handler())),
            routes: self.routes@.map_values(|r: Route| (r.method@, r.pattern@.string)),
        }
    }
}

impl Router {
    /// An empty route table.
    pub fn new() -> (r: Self)
        ensures
            r@.pages == Seq::<(Seq<char>, HandlerId)>::empty(),
            r@.layouts == Seq::<(Seq<char>, HandlerId)>::empty(),
            r@.routes == Seq::<(Seq<char>, Seq<char>)>::empty(),
    {
        let r = Router { pages: Vec::new(), layouts: Vec::new(), routes: Vec::new() };
        assert(r@.pages =~= Seq::<(Seq<char>, HandlerId)>::empty());
        assert(r@.layouts =~= Seq::<(Seq<char>, HandlerId)>::empty());
        assert(r@.routes =~= Seq::<(Seq<char>, Seq<char>)>::empty());
        r
    }

    /// Returns whether nothing is registered yet.
    pub fn is_empty(&self) -> (r: bool)
        ensures
            r == self@.is_empty(),
    {
        self.pages.len() == 0 && self.layouts.len() == 0 && self.routes.len() == 0
    }

    /// Registers `page`.
    pub fn page(self, page: Page) -> (r: Self)
        ensures
            r@.pages == self@.pages.push((page.path(), page.handler())),
            r@.layouts == self@.layouts,
            r@.routes == self@.routes,
    {
        let mut r = self;
        r.pages.push(page);
        assert(r@.pages =~= self@.pages.push((page.path(), page.handler())));
        assert(r@.layouts =~= self@.layouts);
        assert(r@.routes =~= self@.routes);
        r
    }

    /// Registers `layout`.
    pub fn layout(self, layout: Layout) -> (r: Self)
        ensures
            r@.layouts == self@.layouts.push((layout.path(), layout.handler())),
            r@.pages == self@.pages,
            r@.routes == self@.routes,
    {
        let mut r = self;
        r.layouts.push(layout);
        assert(r@.layouts =~= self@.layouts.push((layout.path(), layout.handler())));
        assert(r@.pages =~= self@.pages);
        assert(r@.routes =~= self@.routes);
        r
    }

    /// Registers a `GET` route for `pattern`.
    pub fn get(&mut self, pattern: Pattern)
        ensures
            final(self)@.routes == old(self)@.routes.push((seq!['G', 'E', 'T'], pattern@.string)),
            final(self)@.pages == old(self)@.pages,
            final(self)@.layouts == old(self)@.layouts,
    {
        self.route(Method::get(), pattern)
    }

    /// Registers a route for `method` and `pattern`.
    fn route(&mut self, method: Method, pattern: Pattern)
        ensures
            final(self)@.routes == old(self)@.routes.push((method@, pattern@.string)),
            final(self)@.pages == old(self)@.pages,
            final(self)@.layouts == old(self)@.layouts,
    {
        let ghost entry = (method@, pattern@.string);
        self.routes.push(Route { method, pattern });
        assert(self@.routes =~= old(self)@.routes.push(entry));
        assert(self@.pages =~= old(self)@.pages);
        assert(self@.layouts =~= old(self)@.layouts);
    }
}

} // verus!
