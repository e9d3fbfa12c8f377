//! URL paths: the borrowed [`Path`], the owned [`PathBuf`] and the [`PathSegment`]s it is built from.
use vstd::prelude::*;
use crate::text::push_char;

verus! {

/// A route path segment together with how it is written.
#[derive(Clone, Copy, Debug)]
pub enum PathSegment<'a> {
    /// Written as the name itself.
    Static(&'a str),
    /// Written as the name in parentheses.
    Group(&'a str),
    /// Written as the name in braces.
    Param(&'a str),
    /// Written as the name in braces after a `*`.
    CatchAll(&'a str),
}

/// The text of a segment of the given shape with the given name.
pub open spec fn segment_text(seg: PathSegment<'_>) -> Seq<char> {
    match seg {
        PathSegment::Static(n) => n@,
        PathSegment::Group(n) => seq!['('] + n@ + seq![')'],
        PathSegment::Param(n) => seq!['{'] + n@ + seq!['}'],
        PathSegment::CatchAll(n) => seq!['{', '*'] + n@ + seq!['}'],
    }
}

/// The text that a path of the given segments reads: each segment after a `/`.
pub open spec fn segments_text(segs: Seq<PathSegment<'_>>) -> Seq<char>
    decreases segs.len(),
{
    if segs.len() == 0 {
        Seq::empty()
    } else {
        segments_text(segs.drop_last()) + seq!['/'] + segment_text(segs.last())
    }
}

/// An owned route path, built one segment at a time.
pub struct PathBuf {
    inner: String,
}

impl View for PathBuf {
    type V = Seq<char>;

    closed spec fn view(&self) -> Seq<char> {
        self.inner@
    }
}

impl PathBuf {
    /// The empty path.
    pub fn new() -> (r: Self)
        ensures
            r@ == Seq::<char>::empty(),
    {
        PathBuf { inner: String::new() }
    }

    /// Appends `/` and the text of `seg`.
    pub fn push(&mut self, seg: PathSegment<'_>)
        ensures
            final(self)@ == old(self)@ + seq!['/'] + segment_text(seg),
    {
        push_char(&mut self.inner, '/');
        match seg {
            PathSegment::Static(n) => {
                self.inner.append(n);
            },
            PathSegment::Group(n) => {
                push_char(&mut self.inner, '(');
                self.inner.append(n);
                push_char(&mut self.inner, ')');
            },
            PathSegment::Param(n) => {
                push_char(&mut self.inner, '{');
                self.inner.append(n);
                push_char(&mut self.inner, '}');
            },
            PathSegment::CatchAll(n) => {
                push_char(&mut self.inner, '{');
                push_char(&mut self.inner, '*');
                self.inner.append(n);
                push_char(&mut self.inner, '}');
            },
        }
        assert(self@ =~= old(self)@ + seq!['/'] + segment_text(seg));
    }

    /// The path made of `segs`, in order.
    pub fn from_segments(segs: &Vec<PathSegment<'_>>) -> (r: Self)
        ensures
            r@ == segments_text(segs@),
    {
        let mut buf = PathBuf::new();
        let mut i: usize = 0;
        while i < segs.len()
            invariant
                i <= segs@.len(),
                buf@ == segments_text(segs@.subrange(0, i as int)),
            decreases segs@.len() - i,
        {
            assert(segs@.subrange(0, i + 1).drop_last() =~= segs@.subrange(0, i as int));
            buf.push(segs[i]);
            i = i + 1;
        }
        assert(segs@.subrange(0, i as int) =~= segs@);
        buf
    }

    /// The path's text.
    pub fn as_str(&self) -> (r: &str)
        ensures
            r@ == self@,
    {
        self.inner.as_str()
    }

    /// The path's text, as an owned string.
    pub fn to_string(&self) -> (r: String)
        ensures
            r@ == self@,
    {
        self.inner.clone()
    }
}


/// The test for the character `/`, as a function value.
pub open spec fn slash_char_pred() -> spec_fn(char) -> bool {
    |c: char| c == '/'
}

/// A borrowed URL path, which always starts with `/`.
#[derive(Clone, Copy, Debug)]
pub struct Path<'a> {
    inner: &'a str,
}

impl<'a> View for Path<'a> {
    type V = Seq<char>;

    closed spec fn view(&self) -> Seq<char> {
        self.inner@
    }
}

impl<'a> Path<'a> {
    /// The path `s`, which must start with `/`.
    pub fn new(s: &'a str) -> (r: Self)
        requires
            s@.len() > 0 && s@[0] == '/',
        ensures
            r@ == s@,
    {
        Path { inner: s }
    }

    /// The path's segments: the pieces between and after its slashes.
    pub fn segments(&self) -> (r: Vec<&'a str>)
        ensures
            r@.map_values(|x: &'a str| x@) == crate::text::pieces_after(self@, slash_char_pred()),
    {
        let s = self.inner;
        let n = s.unicode_len();
        let mut out: Vec<&'a str> = Vec::new();
        let mut found = false;
        let mut p: usize = 0;
        let mut i: usize = 0;
        while i < n
            invariant
                n == s@.len(),
                s@ == self@,
                i <= n,
                !found ==> forall|k: int| 0 <= k < i ==> !slash_char_pred()(#[trigger] s@[k]),
                !found ==> out@.len() == 0,
                found ==> p < i && s@[p as int] == '/',
                found ==> forall|k: int| p < k < i ==> !slash_char_pred()(#[trigger] s@[k]),
                found ==> out@.map_values(|x: &'a str| x@) == crate::text::pieces_after(s@.subrange(0, p as int), slash_char_pred()),
            decreases n - i,
        {
            if s.get_char(i) == '/' {
                if found {
                    proof {
                        crate::text::lemma_pieces_after_step(s@, slash_char_pred(), p as int, i as int);
                    }
                    let piece = s.substring_char(p + 1, i);
                    let ghost before = out@;
                    out.push(piece);
                    assert(out@.map_values(|x: &'a str| x@) =~= before.map_values(|x: &'a str| x@).push(piece@));
                } else {
                    proof {
                        crate::text::lemma_pieces_after_none(s@.subrange(0, i as int), slash_char_pred());
                    }
                    assert(out@.map_values(|x: &'a str| x@) =~= Seq::<Seq<char>>::empty());
                }
                found = true;
                p = i;
            }
            i = i + 1;
        }
        if found {
            proof {
                crate::text::lemma_pieces_after_step(s@, slash_char_pred(), p as int, n as int);
            }
            let piece = s.substring_char(p + 1, n);
            let ghost before = out@;
            out.push(piece);
            assert(out@.map_values(|x: &'a str| x@) =~= before.map_values(|x: &'a str| x@).push(piece@));
        } else {
            proof {
                crate::text::lemma_pieces_after_none(s@.subrange(0, n as int), slash_char_pred());
            }
            assert(out@.map_values(|x: &'a str| x@) =~= Seq::<Seq<char>>::empty());
        }
        assert(s@.subrange(0, n as int) =~= s@);
        out
    }

    /// The path's text.
    pub fn as_str(&self) -> (r: &'a str)
        ensures
            r@ == self@,
    {
        self.inner
    }
}

impl PathBuf {
    /// The path as a borrowed [`Path`]. A non-empty path built from segments starts with `/`.
    pub fn as_path(&self) -> (r: Path<'_>)
        ensures
            r@ == self@,
    {
        Path { inner: self.inner.as_str() }
    }
}

} // verus!
