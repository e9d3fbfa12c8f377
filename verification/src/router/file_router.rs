//! Routes derived from the module tree: each module below the file root becomes a path segment.
use vstd::prelude::*;
use crate::router::path::{PathBuf, PathSegment};
use crate::router::router::{FileLayout, FilePage, Router, RouterSpec};
use crate::router::segment::{Segment, SegmentKind, SegmentSpec, Segments};
use crate::text::{str_starts_with, strip_prefix_known, strip_suffix_or_keep};

verus! {

/// The kebab-case form of `s`, as heck's `to_kebab_case` computes it.
pub uninterp spec fn kebab_case(s: Seq<char>) -> Seq<char>;

/// Calls heck's `ToKebabCase::to_kebab_case` on `s`. The contract claims only that the
/// result is the kebab-case form of `s`, which depends on `s` alone.
#[verifier::external_body]
fn to_kebab_case(s: &str) -> (r: String)
    ensures
        r@ == kebab_case(s@),
{
    heck::ToKebabCase::to_kebab_case(s)
}

/// `c` separates modules in a source path (`/`, or `\` on Windows).
pub open spec fn is_sep(c: char) -> bool {
    c == '/' || c == '\\'
}

/// The separator test, as a function value.
pub open spec fn sep_pred() -> spec_fn(char) -> bool {
    |c: char| is_sep(c)
}

/// `s` with a trailing `.rs`, then a trailing `/mod`, then a trailing `\mod` removed,
/// each only where present.
pub open spec fn module_stripped(s: Seq<char>) -> Seq<char> {
    crate::text::strip_or_keep(
        crate::text::strip_or_keep(
            crate::text::strip_or_keep(s, seq!['.', 'r', 's']),
            seq!['/', 'm', 'o', 'd'],
        ),
        seq!['\\', 'm', 'o', 'd'],
    )
}

/// The canonical module path of `file` below `root`: the rest of `file` after `root`,
/// module suffixes removed.
pub open spec fn canonical_path(root: Seq<char>, file: Seq<char>) -> Seq<char> {
    module_stripped(file.subrange(root.len() as int, file.len() as int))
}

/// The number of bytes of `s` in UTF-8.
pub open spec fn byte_len(s: Seq<char>) -> int {
    vstd::utf8::encode_utf8(s).len() as int
}

/// The index of the first separator in `m`, or its length where it has none.
pub open spec fn first_sep(m: Seq<char>) -> int
    decreases m.len(),
{
    if m.len() == 0 {
        0
    } else if is_sep(m[0]) {
        0
    } else {
        1 + first_sep(m.drop_first())
    }
}

/// The number of bytes before the first separator of `m`.
pub open spec fn leading_bytes(m: Seq<char>) -> int {
    byte_len(m.subrange(0, first_sep(m)))
}

/// The override key the router looks up for the module of `m` whose name ends at `q`: the
/// start of `m` whose byte length is that of `m[..q]` less `shift`. The router counts the
/// bytes of the names after the first separator only, so for a module path that starts with
/// a separator (`shift` is 0) the key is `m[..q]` itself.
pub open spec fn lookup_key(m: Seq<char>, q: int, shift: int) -> Seq<char> {
    vstd::utf8::decode_utf8(vstd::utf8::encode_utf8(m).subrange(0, byte_len(m.subrange(0, q)) - shift))
}

/// `q` ends a module name that gets a segment: it lies after the first separator of `m`
/// and is the end of `m` or the index of a separator.
pub open spec fn component_end(m: Seq<char>, q: int) -> bool {
    first_sep(m) < q <= m.len() && (q == m.len() || is_sep(m[q]))
}

/// Every override key the router computes for `m` ends on a character boundary; where one
/// does not, the router panics when it cuts the key out.
pub open spec fn keys_on_boundaries(m: Seq<char>) -> bool {
    forall|q: int| #[trigger] component_end(m, q) ==> vstd::utf8::is_char_boundary(
        vstd::utf8::encode_utf8(m),
        byte_len(m.subrange(0, q)) - leading_bytes(m),
    )
}

/// The router can give `file` a route path: `file` starts with `root`, and the override keys
/// of its module path end on character boundaries. Every file in the root directory, and
/// the root module's own file, qualifies.
pub open spec fn routable(root: Seq<char>, file: Seq<char>) -> bool {
    &&& crate::text::starts_with(file, root)
    &&& keys_on_boundaries(canonical_path(root, file))
}

/// The kind a module named `comp` has when no override says otherwise: a group where the
/// name starts with `_`, else static.
pub open spec fn default_kind(comp: Seq<char>) -> SegmentKind {
    if comp.len() > 0 && comp[0] == '_' {
        SegmentKind::Group
    } else {
        SegmentKind::Static
    }
}

/// The text of a segment of kind `kind` named `name`.
pub open spec fn kind_text(kind: SegmentKind, name: Seq<char>) -> Seq<char> {
    match kind {
        SegmentKind::Static => name,
        SegmentKind::Group => seq!['('] + name + seq![')'],
        SegmentKind::Param => seq!['{'] + name + seq!['}'],
        SegmentKind::CatchAll => seq!['{', '*'] + name + seq!['}'],
    }
}

/// The kind of the module at canonical path `key` named `comp`, given the overrides `segs`.
pub open spec fn component_kind(segs: Seq<(Seq<char>, SegmentSpec)>, key: Seq<char>, comp: Seq<char>) -> SegmentKind {
    match crate::router::segment::lookup_segment(segs, key) {
        Some(o) => match o.kind {
            Some(k) => k,
            None => default_kind(comp),
        },
        None => default_kind(comp),
    }
}

/// The name of the module at canonical path `key` named `comp`: the override's rename, or
/// else the kebab-case form for a static segment and `comp` itself for any other.
pub open spec fn component_name(segs: Seq<(Seq<char>, SegmentSpec)>, key: Seq<char>, comp: Seq<char>) -> Seq<char> {
    let kind = component_kind(segs, key, comp);
    let derived = if kind == SegmentKind::Static { kebab_case(comp) } else { comp };
    match crate::router::segment::lookup_segment(segs, key) {
        Some(o) => match o.rename {
            Some(r) => r,
            None => derived,
        },
        None => derived,
    }
}

/// The route path of the prefix `m` of the module path `full`: the route path of `m` up to
/// its last separator, then `/` and the segment of the name after it. The name's override
/// is looked up under [`lookup_key`] of `full`.
pub open spec fn route_text(segs: Seq<(Seq<char>, SegmentSpec)>, m: Seq<char>, full: Seq<char>, shift: int) -> Seq<char>
    decreases m.len(),
{
    if m.len() == 0 {
        Seq::empty()
    } else {
        let j = crate::text::last_matching(m, sep_pred());
        if j < 0 {
            Seq::empty()
        } else {
            proof {
                crate::text::lemma_last_matching_bounds(m, sep_pred());
            }
            let comp = m.subrange(j + 1, m.len() as int);
            let key = lookup_key(full, m.len() as int, shift);
            route_text(segs, m.subrange(0, j), full, shift) + seq!['/'] + kind_text(
                component_kind(segs, key, comp),
                component_name(segs, key, comp),
            )
        }
    }
}

/// The route path of the module path `m`: `/` and a segment for each name after a separator.
pub open spec fn module_route(segs: Seq<(Seq<char>, SegmentSpec)>, m: Seq<char>) -> Seq<char> {
    route_text(segs, m, m, leading_bytes(m))
}

/// UTF-8 encoding distributes over concatenation.
proof fn lemma_encode_concat(a: Seq<char>, b: Seq<char>)
    ensures
        vstd::utf8::encode_utf8(a + b) == vstd::utf8::encode_utf8(a) + vstd::utf8::encode_utf8(b),
    decreases a.len(),
{
    if a.len() == 0 {
        assert(a + b =~= b);
        assert(vstd::utf8::encode_utf8(a) =~= Seq::<u8>::empty());
        assert(vstd::utf8::encode_utf8(a) + vstd::utf8::encode_utf8(b) =~= vstd::utf8::encode_utf8(b));
    } else {
        assert((a + b)[0] == a[0]);
        assert((a + b).drop_first() =~= a.drop_first() + b);
        lemma_encode_concat(a.drop_first(), b);
        assert(vstd::utf8::encode_utf8(a + b) =~= vstd::utf8::encode_utf8(a) + vstd::utf8::encode_utf8(b));
    }
}

/// A longer start of `m` has at least as many bytes.
proof fn lemma_byte_len_prefix(m: Seq<char>, p: int, q: int)
    requires
        0 <= p <= q <= m.len(),
    ensures
        byte_len(m.subrange(0, p)) <= byte_len(m.subrange(0, q)),
        byte_len(m.subrange(0, q)) <= byte_len(m),
{
    lemma_encode_concat(m.subrange(0, p), m.subrange(p, q));
    assert(m.subrange(0, p) + m.subrange(p, q) =~= m.subrange(0, q));
    lemma_encode_concat(m.subrange(0, q), m.subrange(q, m.len() as int));
    assert(m.subrange(0, q) + m.subrange(q, m.len() as int) =~= m);
}

/// The bytes of a start of `m` end on a character boundary of `m`'s bytes.
proof fn lemma_prefix_boundary(m: Seq<char>, q: int)
    requires
        0 <= q <= m.len(),
    ensures
        vstd::utf8::is_char_boundary(vstd::utf8::encode_utf8(m), byte_len(m.subrange(0, q))),
    decreases m.len(),
{
    broadcast use vstd::utf8::encode_utf8_valid_utf8;

    let bytes = vstd::utf8::encode_utf8(m);
    if q == 0 {
        assert(m.subrange(0, 0) =~= Seq::<char>::empty());
        assert(byte_len(m.subrange(0, 0)) == 0);
    } else {
        let t = m.drop_first();
        vstd::utf8::encode_utf8_first_scalar(m);
        let first = vstd::utf8::encode_scalar(m[0] as u32);
        assert(bytes == first + vstd::utf8::encode_utf8(t));
        assert(m.subrange(0, q)[0] == m[0]);
        assert(m.subrange(0, q).drop_first() =~= t.subrange(0, q - 1));
        assert(vstd::utf8::encode_utf8(m.subrange(0, q)) == first + vstd::utf8::encode_utf8(t.subrange(0, q - 1)));
        lemma_byte_len_prefix(t, q - 1, q - 1);
        assert(vstd::utf8::pop_first_scalar(bytes) =~= vstd::utf8::encode_utf8(t));
        lemma_prefix_boundary(t, q - 1);
    }
}

/// The first separator of `m` lies within it, no separator comes before it, and it is a
/// separator unless `m` has none.
proof fn lemma_first_sep(m: Seq<char>)
    ensures
        0 <= first_sep(m) <= m.len(),
        forall|k: int| 0 <= k < first_sep(m) ==> !is_sep(#[trigger] m[k]),
        first_sep(m) < m.len() ==> is_sep(m[first_sep(m)]),
    decreases m.len(),
{
    if m.len() > 0 && !is_sep(m[0]) {
        lemma_first_sep(m.drop_first());
        assert forall|k: int| 0 <= k < first_sep(m) implies !is_sep(#[trigger] m[k]) by {
            if k > 0 {
                assert(m[k] == m.drop_first()[k - 1]);
            }
        }
    }
}

/// An index with no separator before it that is the end of `m` or a separator is the
/// first separator.
proof fn lemma_first_sep_at(m: Seq<char>, p: int)
    requires
        0 <= p <= m.len(),
        forall|k: int| 0 <= k < p ==> !is_sep(#[trigger] m[k]),
        p == m.len() || is_sep(m[p]),
    ensures
        first_sep(m) == p,
{
    lemma_first_sep(m);
    if first_sep(m) < p {
        assert(!is_sep(m[first_sep(m)]));
    } else if first_sep(m) > p {
        assert(!is_sep(m[p]));
    }
}

/// Routes derived from the module tree below a file root.
pub struct FileRouter {
    inner: Router,
    file_root: &'static str,
    segments: Segments,
}

/// What a file router holds, as plain values.
pub struct FileRouterSpec {
    pub router: RouterSpec,
    pub file_root: Seq<char>,
    pub segments: Seq<(Seq<char>, SegmentSpec)>,
}

impl View for FileRouter {
    type V = FileRouterSpec;

    closed spec fn view(&self) -> FileRouterSpec {
        FileRouterSpec { router: self.inner@, file_root: self.file_root@, segments: self.segments@ }
    }
}

impl FileRouter {
    /// A file router whose root is the module defined in `file_root`.
    pub fn new(file_root: &'static str) -> (r: Self)
        ensures
            r@.file_root == module_stripped(file_root@),
            r@.router.is_empty(),
            r@.segments == Seq::<(Seq<char>, SegmentSpec)>::empty(),
    {
        FileRouter {
            file_root: Self::strip_module_suffix(file_root),
            inner: Router::new(),
            segments: Segments::new(),
        }
    }

    /// `file` with a trailing `.rs`, then `/mod`, then `\mod` removed where present.
    pub fn strip_module_suffix(file: &'static str) -> (r: &'static str)
        ensures
            r@ == module_stripped(file@),
    {
        let path = strip_suffix_or_keep(file, ".rs");
        let path = strip_suffix_or_keep(path, "/mod");
        let r = strip_suffix_or_keep(path, "\\mod");
        proof {
            reveal_strlit(".rs");
            reveal_strlit("/mod");
            reveal_strlit("\\mod");
            assert(".rs"@ =~= seq!['.', 'r', 's']);
            assert("/mod"@ =~= seq!['/', 'm', 'o', 'd']);
            assert("\\mod"@ =~= seq!['\\', 'm', 'o', 'd']);
        }
        r
    }

    /// The canonical module path of `file`, which must start with the file root.
    pub fn canonical_module_path(&self, file: &'static str) -> (r: &'static str)
        requires
            crate::text::starts_with(file@, self@.file_root),
        ensures
            r@ == canonical_path(self@.file_root, file@),
    {
        let path = strip_prefix_known(file, self.file_root);
        Self::strip_module_suffix(path)
    }

    /// Registers an override for the module defined in `segment`'s file. Overrides must
    /// come before any page or layout, and the file must start with the file root.
    pub fn segment(self, segment: Segment) -> (r: Self)
        requires
            self@.router.is_empty(),
            crate::text::starts_with(segment@.file, self@.file_root),
        ensures
            r@ == (FileRouterSpec {
                segments: self@.segments.push((canonical_path(self@.file_root, segment@.file), segment@)),
                ..self@
            }),
    {
        let mut r = self;
        let path = r.canonical_module_path(segment.file());
        r.segments.register(path, segment);
        r
    }

    /// The index of the first separator in `m`, or its length where it has none.
    fn find_first_sep(m: &str) -> (r: usize)
        ensures
            r == first_sep(m@),
    {
        let n = m.unicode_len();
        let mut p: usize = 0;
        loop
            invariant
                n == m@.len(),
                p <= n,
                forall|k: int| 0 <= k < p ==> !is_sep(#[trigger] m@[k]),
            ensures
                p <= n,
                forall|k: int| 0 <= k < p ==> !is_sep(#[trigger] m@[k]),
                p == n || is_sep(m@[p as int]),
            decreases n - p,
        {
            if p == n {
                break;
            }
            let c = m.get_char(p);
            if c == '/' || c == '\\' {
                break;
            }
            p = p + 1;
        }
        proof {
            lemma_first_sep_at(m@, p as int);
        }
        p
    }

    /// The route path of the module defined in `file`, which must start with the file root
    /// and whose override keys must end on character boundaries.
    pub fn file_to_path(&self, file: &'static str) -> (r: PathBuf)
        requires
            routable(self@.file_root, file@),
        ensures
            r@ == module_route(self@.segments, canonical_path(self@.file_root, file@)),
    {
        let m = self.canonical_module_path(file);
        let ghost segs = self@.segments;
        let ghost mm = m@;
        let n = m.unicode_len();
        let p0 = Self::find_first_sep(m);
        proof {
            lemma_first_sep(mm);
            assert forall|k: int| 0 <= k < mm.subrange(0, p0 as int).len() implies !sep_pred()(
                #[trigger] mm.subrange(0, p0 as int)[k],
            ) by {
                assert(mm.subrange(0, p0 as int)[k] == mm[k]);
            }
            crate::text::lemma_last_matching_none(mm.subrange(0, p0 as int), sep_pred());
        }
        let mut buf = PathBuf::new();
        if p0 == n {
            assert(mm.subrange(0, n as int) =~= mm);
            return buf;
        }
        let shift = m.substring_char(0, p0).as_bytes().len();
        let mut p: usize = p0;
        let mut i: usize = p0 + 1;
        while i < n
            invariant
                segs == self@.segments,
                mm == m@,
                n == mm.len(),
                p0 == first_sep(mm),
                shift == leading_bytes(mm),
                keys_on_boundaries(mm),
                p0 <= p < i <= n,
                is_sep(mm[p as int]),
                forall|k: int| p < k < i ==> !is_sep(#[trigger] mm[k]),
                buf@ == route_text(segs, mm.subrange(0, p as int), mm, shift as int),
            decreases n - i,
        {
            let c = m.get_char(i);
            if c == '/' || c == '\\' {
                proof {
                    self.lemma_route_step(mm, p as int, i as int, shift as int);
                }
                self.push_component(&mut buf, m, p, i, shift);
                p = i;
            }
            i = i + 1;
        }
        proof {
            self.lemma_route_step(mm, p as int, n as int, shift as int);
            assert(mm.subrange(0, n as int) =~= mm);
        }
        self.push_component(&mut buf, m, p, n, shift);
        buf
    }

    /// Extending a module path by one name extends its route path by one segment.
    proof fn lemma_route_step(&self, m: Seq<char>, p: int, q: int, shift: int)
        requires
            0 <= p < q <= m.len(),
            is_sep(m[p]),
            forall|k: int| p < k < q ==> !is_sep(#[trigger] m[k]),
        ensures
            route_text(self@.segments, m.subrange(0, q), m, shift) == route_text(self@.segments, m.subrange(0, p), m, shift)
                + seq!['/'] + kind_text(
                component_kind(self@.segments, lookup_key(m, q, shift), m.subrange(p + 1, q)),
                component_name(self@.segments, lookup_key(m, q, shift), m.subrange(p + 1, q)),
            ),
    {
        assert forall|k: int| p < k < q implies !sep_pred()(#[trigger] m[k]) by {}
        crate::text::lemma_last_matching_take(m, sep_pred(), p, q);
        let t = m.subrange(0, q);
        assert(t.subrange(0, p) =~= m.subrange(0, p));
        assert(t.subrange(p + 1, t.len() as int) =~= m.subrange(p + 1, q));
    }

    /// Appends the segment for the name `m[p + 1..q]`, whose override key is
    /// [`lookup_key`]`(m, q, shift)`.
    fn push_component(&self, buf: &mut PathBuf, m: &str, p: usize, q: usize, shift: usize)
        requires
            p < q <= m@.len(),
            component_end(m@, q as int),
            keys_on_boundaries(m@),
            shift == leading_bytes(m@),
        ensures
            final(buf)@ == old(buf)@ + seq!['/'] + kind_text(
                component_kind(self@.segments, lookup_key(m@, q as int, shift as int), m@.subrange(p + 1, q as int)),
                component_name(self@.segments, lookup_key(m@, q as int, shift as int), m@.subrange(p + 1, q as int)),
            ),
    {
        broadcast use vstd::utf8::encode_utf8_valid_utf8;

        let upto = m.substring_char(0, q);
        let qb = upto.as_bytes().len();
        proof {
            lemma_first_sep(m@);
            lemma_byte_len_prefix(m@, first_sep(m@), q as int);
        }
        let (key, _) = m.split_at(qb - shift);
        proof {
            vstd::utf8::encode_utf8_decode_utf8(key@);
            assert(key@ == lookup_key(m@, q as int, shift as int));
        }
        let component = m.substring_char(p + 1, q);
        let segment = self.segments.get(key);
        let overridden = match segment {
            Some(s) => s.kind(),
            None => None,
        };
        let kind = match overridden {
            Some(k) => k,
            None => {
                if component.unicode_len() > 0 && component.get_char(0) == '_' {
                    SegmentKind::Group
                } else {
                    SegmentKind::Static
                }
            },
        };
        let rename = match segment {
            Some(s) => s.rename(),
            None => None,
        };
        let kebab;
        let name: &str = match rename {
            Some(r) => r,
            None => {
                if kind == SegmentKind::Static {
                    kebab = to_kebab_case(component);
                    kebab.as_str()
                } else {
                    component
                }
            },
        };
        let path_segment = match kind {
            SegmentKind::Static => PathSegment::Static(name),
            SegmentKind::Group => PathSegment::Group(name),
            SegmentKind::Param => PathSegment::Param(name),
            SegmentKind::CatchAll => PathSegment::CatchAll(name),
        };
        buf.push(path_segment);
    }

    /// Registers the page defined in `page`'s file, under the route path of its module.
    /// The file must start with the root, and its override keys must end on character
    /// boundaries (see [`routable`]).
    pub fn page(self, page: FilePage) -> (r: Self)
        requires
            routable(self@.file_root, page.file()),
        ensures
            r@.router.pages == self@.router.pages.push(
                (module_route(self@.segments, canonical_path(self@.file_root, page.file())), page.handler()),
            ),
            r@.router.layouts == self@.router.layouts,
            r@.router.routes == self@.router.routes,
            r@.file_root == self@.file_root,
            r@.segments == self@.segments,
    {
        let file = page.file_str();
        let path = self.file_to_path(file);
        let page = page.into_page(path);
        let mut r = self;
        r.inner = r.inner.page(page);
        r
    }

    /// Registers the layout defined in `layout`'s file, under the route path of its module.
    /// The file must start with the root, and its override keys must end on character
    /// boundaries (see [`routable`]).
    pub fn layout(self, layout: FileLayout) -> (r: Self)
        requires
            routable(self@.file_root, layout.file()),
        ensures
            r@.router.layouts == self@.router.layouts.push(
                (module_route(self@.segments, canonical_path(self@.file_root, layout.file())), layout.handler()),
            ),
            r@.router.pages == self@.router.pages,
            r@.router.routes == self@.router.routes,
            r@.file_root == self@.file_root,
            r@.segments == self@.segments,
    {
        let file = layout.file_str();
        let path = self.file_to_path(file);
        let layout = layout.into_layout(path);
        let mut r = self;
        r.inner = r.inner.layout(layout);
        r
    }

    /// Whether `file` starts with the router's root, as the file of every registered module
    /// must.
    pub fn covers(&self, file: &str) -> (r: bool)
        ensures
            r == crate::text::starts_with(file@, self@.file_root),
    {
        crate::text::str_starts_with(file, self.file_root)
    }

    /// Whether the router can give `file` a route path (see [`routable`]), as a page's or a
    /// layout's file must.
    pub fn can_route(&self, file: &'static str) -> (r: bool)
        ensures
            r == routable(self@.file_root, file@),
    {
        broadcast use vstd::utf8::encode_utf8_valid_utf8;

        if !crate::text::str_starts_with(file, self.file_root) {
            return false;
        }
        let m = self.canonical_module_path(file);
        let ghost mm = m@;
        let n = m.unicode_len();
        let p0 = Self::find_first_sep(m);
        proof {
            lemma_first_sep(mm);
        }
        if p0 == n {
            assert forall|q: int| #[trigger] component_end(mm, q) implies vstd::utf8::is_char_boundary(
                vstd::utf8::encode_utf8(mm),
                byte_len(mm.subrange(0, q)) - leading_bytes(mm),
            ) by {}
            return true;
        }
        let shift = m.substring_char(0, p0).as_bytes().len();
        let mut i: usize = p0 + 1;
        while i < n
            invariant
                mm == m@,
                mm == canonical_path(self@.file_root, file@),
                n == mm.len(),
                p0 == first_sep(mm),
                p0 < n,
                shift == leading_bytes(mm),
                p0 < i <= n,
                forall|q: int| #[trigger] component_end(mm, q) && q < i ==> vstd::utf8::is_char_boundary(
                    vstd::utf8::encode_utf8(mm),
                    byte_len(mm.subrange(0, q)) - leading_bytes(mm),
                ),
            decreases n - i,
        {
            let c = m.get_char(i);
            if c == '/' || c == '\\' {
                if !Self::key_fits(m, i, shift) {
                    assert(component_end(mm, i as int));
                    return false;
                }
            }
            i = i + 1;
        }
        if !Self::key_fits(m, n, shift) {
            assert(component_end(mm, n as int));
            return false;
        }
        assert forall|q: int| #[trigger] component_end(mm, q) implies vstd::utf8::is_char_boundary(
            vstd::utf8::encode_utf8(mm),
            byte_len(mm.subrange(0, q)) - leading_bytes(mm),
        ) by {
            if q < n {
            }
        }
        true
    }

    /// Whether the override key for the name of `m` that ends at `q` ends on a character
    /// boundary.
    fn key_fits(m: &str, q: usize, shift: usize) -> (r: bool)
        requires
            first_sep(m@) < q <= m@.len(),
            shift == leading_bytes(m@),
        ensures
            r == vstd::utf8::is_char_boundary(
                vstd::utf8::encode_utf8(m@),
                byte_len(m@.subrange(0, q as int)) - leading_bytes(m@),
            ),
    {
        broadcast use vstd::utf8::encode_utf8_valid_utf8;

        let qb = m.substring_char(0, q).as_bytes().len();
        proof {
            lemma_first_sep(m@);
            lemma_byte_len_prefix(m@, first_sep(m@), q as int);
        }
        m.is_char_boundary(qb - shift)
    }

    /// Whether overrides may still be registered: no page or layout has been yet.
    pub fn accepts_segments(&self) -> (r: bool)
        ensures
            r == self@.router.is_empty(),
    {
        self.inner.is_empty()
    }

    /// The route table built so far.
    pub fn into_router(self) -> (r: Router)
        ensures
            r@ == self@.router,
    {
        self.inner
    }
}

/// The module path spelled by separators `seps` and module names `comps`: each separator
/// followed by its module's name, in order.
pub open spec fn joined(seps: Seq<char>, comps: Seq<Seq<char>>) -> Seq<char>
    decreases comps.len(),
{
    if comps.len() == 0 {
        Seq::empty()
    } else {
        joined(seps.drop_last(), comps.drop_last()) + seq![seps.last()] + comps.last()
    }
}

/// A module name as it appears in a path: not empty, and free of separators.
pub open spec fn plain_component(c: Seq<char>) -> bool {
    c.len() > 0 && forall|k: int| 0 <= k < c.len() ==> !is_sep(#[trigger] c[k])
}

/// The segment a module named `c` gets when nothing overrides it: `(c)` where `c` starts
/// with `_`, else the kebab-case form of `c`.
pub open spec fn default_segment(c: Seq<char>) -> Seq<char> {
    if c.len() > 0 && c[0] == '_' {
        seq!['('] + c + seq![')']
    } else {
        kebab_case(c)
    }
}

/// The route path of the modules named `comps`, in order, when nothing overrides them:
/// `/` and the default segment of each.
pub open spec fn default_route(comps: Seq<Seq<char>>) -> Seq<char>
    decreases comps.len(),
{
    if comps.len() == 0 {
        Seq::empty()
    } else {
        default_route(comps.drop_last()) + seq!['/'] + default_segment(comps.last())
    }
}

/// A path spelled by `seps` and `comps` starts with the first separator and is longer
/// than the number of its modules.
proof fn lemma_joined_shape(seps: Seq<char>, comps: Seq<Seq<char>>)
    requires
        comps.len() >= 1,
        seps.len() == comps.len(),
    ensures
        joined(seps, comps).len() >= comps.len(),
        joined(seps, comps)[0] == seps[0],
    decreases comps.len(),
{
    let pre = joined(seps.drop_last(), comps.drop_last());
    let m = joined(seps, comps);
    assert(m == pre + seq![seps.last()] + comps.last());
    if comps.len() > 1 {
        lemma_joined_shape(seps.drop_last(), comps.drop_last());
        assert(m[0] == pre[0]);
    } else {
        assert(pre =~= Seq::<char>::empty());
        assert(m[0] == seps.last());
    }
}

/// With no overrides, the route path of a module path spelled by `seps` and `comps` is the
/// default route of `comps`.
proof fn lemma_route_text_joined(seps: Seq<char>, comps: Seq<Seq<char>>, full: Seq<char>, shift: int)
    requires
        seps.len() == comps.len(),
        forall|i: int| 0 <= i < seps.len() ==> is_sep(#[trigger] seps[i]),
        forall|i: int| 0 <= i < comps.len() ==> plain_component(#[trigger] comps[i]),
    ensures
        route_text(Seq::empty(), joined(seps, comps), full, shift) == default_route(comps),
    decreases comps.len(),
{
    if comps.len() > 0 {
        let m = joined(seps, comps);
        let pre = joined(seps.drop_last(), comps.drop_last());
        let c = comps.last();
        let p = pre.len() as int;
        assert(plain_component(comps[comps.len() - 1]));
        assert(is_sep(seps[seps.len() - 1]));
        assert(m[p] == seps.last());
        assert forall|k: int| p < k < m.len() implies !sep_pred()(#[trigger] m[k]) by {
            assert(m[k] == c[k - p - 1]);
        }
        crate::text::lemma_last_matching_take(m, sep_pred(), p, m.len() as int);
        assert(m.subrange(0, m.len() as int) =~= m);
        assert(m.subrange(0, p) =~= pre);
        assert(m.subrange(p + 1, m.len() as int) =~= c);
        assert forall|i: int| 0 <= i < seps.drop_last().len() implies is_sep(#[trigger] seps.drop_last()[i]) by {
            assert(is_sep(seps[i]));
        }
        assert forall|i: int| 0 <= i < comps.drop_last().len() implies plain_component(#[trigger] comps.drop_last()[i]) by {
            assert(plain_component(comps[i]));
        }
        lemma_route_text_joined(seps.drop_last(), comps.drop_last(), full, shift);
        let segs = Seq::<(Seq<char>, SegmentSpec)>::empty();
        let key = lookup_key(full, m.len() as int, shift);
        assert(crate::router::segment::lookup_segment(segs, key) is None);
        assert(kind_text(component_kind(segs, key, c), component_name(segs, key, c)) =~= default_segment(c));
        assert(last_matching_sep(m) == p);
        assert(route_text(segs, m, full, shift) == route_text(segs, pre, full, shift) + seq!['/'] + default_segment(c));
        assert(default_route(comps) == default_route(comps.drop_last()) + seq!['/'] + default_segment(c));
        assert(route_text(segs, m, full, shift) == default_route(comps));
    } else {
        assert(joined(seps, comps) =~= Seq::<char>::empty());
        assert(route_text(Seq::<(Seq<char>, SegmentSpec)>::empty(), Seq::<char>::empty(), full, shift) =~= Seq::<char>::empty());
    }
}

spec fn last_matching_sep(m: Seq<char>) -> int {
    crate::text::last_matching(m, sep_pred())
}

/// A module path spelled by `seps` and `comps` whose last module is not named `mod` does not
/// end in a separator followed by `mod`.
proof fn lemma_joined_not_mod(seps: Seq<char>, comps: Seq<Seq<char>>, x: char)
    requires
        comps.len() >= 1,
        seps.len() == comps.len(),
        forall|i: int| 0 <= i < seps.len() ==> is_sep(#[trigger] seps[i]),
        forall|i: int| 0 <= i < comps.len() ==> plain_component(#[trigger] comps[i]),
        comps.last() != seq!['m', 'o', 'd'],
        is_sep(x),
    ensures
        !crate::text::ends_with(joined(seps, comps), seq![x, 'm', 'o', 'd']),
{
    let m = joined(seps, comps);
    let pre = joined(seps.drop_last(), comps.drop_last());
    let c = comps.last();
    let p = pre.len() as int;
    let n = m.len() as int;
    assert(plain_component(comps[comps.len() - 1]));
    assert(is_sep(seps[seps.len() - 1]));
    assert(m == pre + seq![seps.last()] + c);
    if crate::text::ends_with(m, seq![x, 'm', 'o', 'd']) {
        let t = m.subrange(n - 4, n);
        assert(t[0] == x && t[1] == 'm' && t[2] == 'o' && t[3] == 'd');
        assert(m[n - 4] == x && m[n - 3] == 'm' && m[n - 2] == 'o' && m[n - 1] == 'd');
        if c.len() > 3 {
            assert(m[n - 4] == c[c.len() - 4]);
            assert(!is_sep(c[c.len() - 4]));
        } else if c.len() == 3 {
            assert(c[0] == m[n - 3] && c[1] == m[n - 2] && c[2] == m[n - 1]);
            assert(c =~= seq!['m', 'o', 'd']);
        } else {
            assert(m[p] == seps.last());
        }
    }
}

/// A module path that starts with a separator has no bytes before its first separator, and
/// every override key of it ends on a character boundary.
proof fn lemma_aligned_keys(m: Seq<char>)
    requires
        m.len() > 0,
        is_sep(m[0]),
    ensures
        leading_bytes(m) == 0,
        keys_on_boundaries(m),
{
    lemma_first_sep_at(m, 0);
    assert(m.subrange(0, 0) =~= Seq::<char>::empty());
    assert(vstd::utf8::encode_utf8(Seq::<char>::empty()) =~= Seq::<u8>::empty());
    assert forall|q: int| #[trigger] component_end(m, q) implies vstd::utf8::is_char_boundary(
        vstd::utf8::encode_utf8(m),
        byte_len(m.subrange(0, q)) - leading_bytes(m),
    ) by {
        lemma_prefix_boundary(m, q);
    }
}

/// Without overrides, a module's route path is `/` and the default segment of each module
/// below the root, in order: for the file `dir` + the module path + `.rs`, and for the file
/// `dir` + the module path + a separator + `mod.rs`. The router can route both files.
/// `dir` is the router's root as [`FileRouter::new`] keeps it.
pub proof fn lemma_file_route_without_overrides(
    router: FileRouter,
    seps: Seq<char>,
    comps: Seq<Seq<char>>,
    s: char,
)
    requires
        router@.segments.len() == 0,
        comps.len() >= 1,
        seps.len() == comps.len(),
        forall|i: int| 0 <= i < seps.len() ==> is_sep(#[trigger] seps[i]),
        forall|i: int| 0 <= i < comps.len() ==> plain_component(#[trigger] comps[i]),
        comps.last() != seq!['m', 'o', 'd'],
        is_sep(s),
    ensures
        ({
            let dir = router@.file_root;
            let file = dir + joined(seps, comps) + seq!['.', 'r', 's'];
            &&& routable(dir, file)
            &&& module_route(router@.segments, canonical_path(dir, file)) == default_route(comps)
        }),
        ({
            let dir = router@.file_root;
            let file = dir + joined(seps, comps) + seq![s, 'm', 'o', 'd', '.', 'r', 's'];
            &&& routable(dir, file)
            &&& module_route(router@.segments, canonical_path(dir, file)) == default_route(comps)
        }),
{
    let dir = router@.file_root;
    let j = joined(seps, comps);
    assert(router@.segments =~= Seq::<(Seq<char>, SegmentSpec)>::empty());
    lemma_joined_shape(seps, comps);
    assert(is_sep(seps[0]));
    lemma_route_text_joined(seps, comps, j, leading_bytes(j));
    lemma_aligned_keys(j);
    lemma_canonical_rs(dir, seps, comps);
    lemma_canonical_mod(dir, seps, comps, s);
}

/// The module path of `dir` + the module path spelled by `seps` and `comps` + `.rs` is that
/// module path, and the file starts with `dir`.
proof fn lemma_canonical_rs(dir: Seq<char>, seps: Seq<char>, comps: Seq<Seq<char>>)
    requires
        comps.len() >= 1,
        seps.len() == comps.len(),
        forall|i: int| 0 <= i < seps.len() ==> is_sep(#[trigger] seps[i]),
        forall|i: int| 0 <= i < comps.len() ==> plain_component(#[trigger] comps[i]),
        comps.last() != seq!['m', 'o', 'd'],
    ensures
        crate::text::starts_with(dir + joined(seps, comps) + seq!['.', 'r', 's'], dir),
        canonical_path(dir, dir + joined(seps, comps) + seq!['.', 'r', 's']) == joined(seps, comps),
{
    let j = joined(seps, comps);
    lemma_joined_not_mod(seps, comps, '/');
    lemma_joined_not_mod(seps, comps, '\\');
    let rs = seq!['.', 'r', 's'];
    let slash_mod = seq!['/', 'm', 'o', 'd'];
    let back_mod = seq!['\\', 'm', 'o', 'd'];
    let f1 = dir + j + rs;
    assert(f1.subrange(0, dir.len() as int) =~= dir);
    let r1 = f1.subrange(dir.len() as int, f1.len() as int);
    assert(r1 =~= j + rs);
    assert((j + rs).subrange((j + rs).len() - 3, (j + rs).len() as int) =~= rs);
    assert((j + rs).subrange(0, (j + rs).len() - 3) =~= j);
    assert(crate::text::strip_or_keep(r1, rs) == j);
    assert(crate::text::strip_or_keep(j, slash_mod) == j);
    assert(crate::text::strip_or_keep(j, back_mod) == j);
}

/// The module path of `dir` + the module path spelled by `seps` and `comps` + a separator +
/// `mod.rs` is that module path, and the file starts with `dir`.
proof fn lemma_canonical_mod(dir: Seq<char>, seps: Seq<char>, comps: Seq<Seq<char>>, s: char)
    requires
        comps.len() >= 1,
        seps.len() == comps.len(),
        forall|i: int| 0 <= i < seps.len() ==> is_sep(#[trigger] seps[i]),
        forall|i: int| 0 <= i < comps.len() ==> plain_component(#[trigger] comps[i]),
        comps.last() != seq!['m', 'o', 'd'],
        is_sep(s),
    ensures
        crate::text::starts_with(dir + joined(seps, comps) + seq![s, 'm', 'o', 'd', '.', 'r', 's'], dir),
        canonical_path(dir, dir + joined(seps, comps) + seq![s, 'm', 'o', 'd', '.', 'r', 's']) == joined(seps, comps),
{
    let j = joined(seps, comps);
    lemma_joined_not_mod(seps, comps, '\\');
    let rs = seq!['.', 'r', 's'];
    let slash_mod = seq!['/', 'm', 'o', 'd'];
    let back_mod = seq!['\\', 'm', 'o', 'd'];
    let tail = seq![s, 'm', 'o', 'd', '.', 'r', 's'];
    let f2 = dir + j + tail;
    assert(f2.subrange(0, dir.len() as int) =~= dir);
    let r2 = f2.subrange(dir.len() as int, f2.len() as int);
    assert(r2 =~= j + tail);
    let jm = j + seq![s, 'm', 'o', 'd'];
    assert((j + tail).subrange((j + tail).len() - 3, (j + tail).len() as int) =~= rs);
    assert((j + tail).subrange(0, (j + tail).len() - 3) =~= jm);
    assert(crate::text::strip_or_keep(r2, rs) == jm);
    assert(jm.subrange(jm.len() - 4, jm.len() as int) =~= seq![s, 'm', 'o', 'd']);
    assert(jm.subrange(0, jm.len() - 4) =~= j);
    if s == '/' {
        assert(crate::text::strip_or_keep(jm, slash_mod) == j);
        assert(crate::text::strip_or_keep(j, back_mod) == j);
    } else {
        assert(!crate::text::ends_with(jm, slash_mod)) by {
            assert(jm.subrange(jm.len() - 4, jm.len() as int)[0] != slash_mod[0]);
        }
        assert(crate::text::strip_or_keep(jm, slash_mod) == jm);
        assert(crate::text::strip_or_keep(jm, back_mod) == j);
    }
}

/// An override that renames a module gives its segment that name as written, whatever the
/// segment's kind: a static segment's rename is not put in kebab case. The kind is the
/// override's kind where it gives one, else the kind the name implies.
pub proof fn lemma_rename_is_verbatim(segs: Seq<(Seq<char>, SegmentSpec)>, key: Seq<char>, comp: Seq<char>, r: Seq<char>)
    requires
        crate::router::segment::lookup_segment(segs, key) matches Some(o) && o.rename == Some(r),
    ensures
        component_name(segs, key, comp) == r,
        component_kind(segs, key, comp) == match crate::router::segment::lookup_segment(segs, key)->Some_0.kind {
            Some(k) => k,
            None => default_kind(comp),
        },
{
}

/// A module whose override renames it to `r` ends its route path with `/` and the segment
/// of its kind named `r`, after the route path of its parent module.
pub proof fn lemma_renamed_module_route(segs: Seq<(Seq<char>, SegmentSpec)>, m: Seq<char>, p: int, r: Seq<char>)
    requires
        0 <= p < m.len(),
        is_sep(m[p]),
        forall|k: int| p < k < m.len() ==> !is_sep(#[trigger] m[k]),
        crate::router::segment::lookup_segment(segs, lookup_key(m, m.len() as int, leading_bytes(m))) matches Some(o)
            && o.rename == Some(r),
    ensures
        module_route(segs, m) == route_text(segs, m.subrange(0, p), m, leading_bytes(m)) + seq!['/'] + kind_text(
            match crate::router::segment::lookup_segment(segs, lookup_key(m, m.len() as int, leading_bytes(m)))->Some_0.kind {
                Some(k) => k,
                None => default_kind(m.subrange(p + 1, m.len() as int)),
            },
            r,
        ),
{
    let shift = leading_bytes(m);
    let key = lookup_key(m, m.len() as int, shift);
    let comp = m.subrange(p + 1, m.len() as int);
    assert forall|k: int| p < k < m.len() implies !sep_pred()(#[trigger] m[k]) by {}
    crate::text::lemma_last_matching_take(m, sep_pred(), p, m.len() as int);
    assert(m.subrange(0, m.len() as int) =~= m);
    lemma_rename_is_verbatim(segs, key, comp, r);
}

} // verus!
