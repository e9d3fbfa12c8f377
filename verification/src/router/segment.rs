//! Per-module segment overrides and the table that holds them.
use vstd::prelude::*;
use crate::text::str_eq;

verus! {

/// How a module directory or file contributes to a route path.
#[derive(Clone, Copy, Debug, PartialEq, Eq, Structural)]
pub enum SegmentKind {
    /// A literal path segment, such as `about` in `/about`.
    Static,
    /// A grouping module that is shown in parentheses, such as `(_auth)`.
    Group,
    /// A named path parameter, such as `{id}`.
    Param,
    /// A parameter that captures the rest of the path, such as `{*rest}`.
    CatchAll,
}

/// A user override of how the module defined in `file` becomes a path segment.
#[derive(Clone, Copy, Debug)]
pub struct Segment {
    file: &'static str,
    kind: Option<SegmentKind>,
    rename: Option<&'static str>,
}

/// The text of an optional string.
pub open spec fn opt_str_view(s: Option<&str>) -> Option<Seq<char>> {
    match s {
        Some(r) => Some(r@),
        None => None,
    }
}

/// What a segment override holds, as plain values.
pub struct SegmentSpec {
    pub file: Seq<char>,
    pub kind: Option<SegmentKind>,
    pub rename: Option<Seq<char>>,
}

impl View for Segment {
    type V = SegmentSpec;

    closed spec fn view(&self) -> SegmentSpec {
        SegmentSpec {
            file: self.file@,
            kind: self.kind,
            rename: opt_str_view(self.rename),
        }
    }
}

impl Segment {
    /// Creates an override for the module defined in `file`.
    pub fn new(file: &'static str, kind: Option<SegmentKind>, rename: Option<&'static str>) -> (r: Self)
        ensures
            r@ == (SegmentSpec { file: file@, kind, rename: opt_str_view(rename) }),
    {
        Segment { file, kind, rename }
    }

    /// The source file of the module that this override applies to.
    pub fn file(&self) -> (r: &'static str)
        ensures
            r@ == self@.file,
    {
        self.file
    }

    /// The kind that replaces the one derived from the module's name, if any.
    pub fn kind(&self) -> (r: Option<SegmentKind>)
        ensures
            r == self@.kind,
    {
        self.kind
    }

    /// The name that replaces the one derived from the module's name, if any.
    pub fn rename(&self) -> (r: Option<&'static str>)
        ensures
            opt_str_view(r) == self@.rename,
    {
        self.rename
    }
}

/// The overrides registered so far, each under the canonical module path it applies to.
/// A later registration under the same path replaces an earlier one.
pub struct Segments {
    entries: Vec<(String, Segment)>,
}

/// The override that `entries` holds for `key`: the last one registered under it.
pub open spec fn lookup_segment(entries: Seq<(Seq<char>, SegmentSpec)>, key: Seq<char>) -> Option<SegmentSpec>
    decreases entries.len(),
{
    if entries.len() == 0 {
        None
    } else if entries.last().0 == key {
        Some(entries.last().1)
    } else {
        lookup_segment(entries.drop_last(), key)
    }
}

impl View for Segments {
    type V = Seq<(Seq<char>, SegmentSpec)>;

    closed spec fn view(&self) -> Seq<(Seq<char>, SegmentSpec)> {
        self.entries@.map_values(|e: (String, Segment)| (e.0@, e.1@))
    }
}

impl Segments {
    /// An empty table.
    pub fn new() -> (r: Self)
        ensures
            r@ == Seq::<(Seq<char>, SegmentSpec)>::empty(),
    {
        let r = Segments { entries: Vec::new() };
        assert(r@ =~= Seq::<(Seq<char>, SegmentSpec)>::empty());
        r
    }

    /// Registers `segment` for the module whose canonical path is `path`.
    pub fn register(&mut self, path: &str, segment: Segment)
        ensures
            final(self)@ == old(self)@.push((path@, segment@)),
    {
        let key = path.to_owned();
        self.entries.push((key, segment));
        assert(self@ =~= old(self)@.push((path@, segment@)));
    }

    /// The override registered for `path`, if any.
    pub fn get(&self, path: &str) -> (r: Option<&Segment>)
        ensures
            match r {
                Some(s) => lookup_segment(self@, path@) == Some(s@),
                None => lookup_segment(self@, path@) is None,
            },
    {
        let mut i = self.entries.len();
        assert(self@.subrange(0, i as int) =~= self@);
        while i > 0
            invariant
                i <= self.entries.len(),
                lookup_segment(self@, path@) == lookup_segment(self@.subrange(0, i as int), path@),
            decreases i,
        {
            let ghost prefix = self@.subrange(0, i as int);
            assert(prefix.drop_last() =~= self@.subrange(0, i - 1));
            if str_eq(self.entries[i - 1].0.as_str(), path) {
                return Some(&self.entries[i - 1].1);
            }
            i = i - 1;
        }
        None
    }
}

} // verus!
