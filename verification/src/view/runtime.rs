//! Views at run time: rendered HTML, and the formatter it is written into.
use vstd::prelude::*;
use crate::view::escape::push_escaped;
use vstd::view::View as ViewTrait;

verus! {

/// The request context a view is rendered in.
pub struct Cx {
    id: u64,
}

impl Cx {
    /// The context of the request numbered `id`.
    pub fn new(id: u64) -> (r: Self)
        ensures
            r.id() == id,
    {
        Cx { id }
    }

    /// The request's number.
    pub closed spec fn id(&self) -> u64 {
        self.id
    }
}

/// Collects rendered output: text written through it is escaped, unless written unescaped.
pub struct Formatter {
    buf: String,
}

impl vstd::view::View for Formatter {
    type V = Seq<char>;

    closed spec fn view(&self) -> Seq<char> {
        self.buf@
    }
}

impl Formatter {
    /// A formatter that has collected nothing.
    pub fn new() -> (r: Self)
        ensures
            r@ == Seq::<char>::empty(),
    {
        Formatter { buf: String::new() }
    }

    /// Writes `s`, HTML-escaped.
    pub fn write_str(&mut self, s: &str)
        ensures
            final(self)@ == old(self)@ + crate::view::escape::escape_html(s@),
    {
        push_escaped(&mut self.buf, s);
    }

    /// Writes `c`, HTML-escaped.
    pub fn write_char(&mut self, c: char)
        ensures
            final(self)@ == old(self)@ + crate::view::escape::escape_char(c),
    {
        crate::view::escape::push_escaped_char(&mut self.buf, c);
    }

    /// Writes `s` as it is.
    pub fn write_str_unescaped(&mut self, s: &str)
        ensures
            final(self)@ == old(self)@ + s@,
    {
        self.buf.append(s);
    }

    /// What has been written.
    pub fn into_string(self) -> (r: String)
        ensures
            r@ == self@,
    {
        self.buf
    }
}

/// Rendered HTML.
pub struct View {
    buf: String,
}

impl vstd::view::View for View {
    type V = Seq<char>;

    closed spec fn view(&self) -> Seq<char> {
        self.buf@
    }
}

impl View {
    /// The view whose HTML is `buf`.
    pub fn new(buf: String) -> (r: Self)
        ensures
            r@ == buf@,
    {
        View { buf }
    }

    /// The view's HTML.
    pub fn as_str(&self) -> (r: &str)
        ensures
            r@ == self@,
    {
        self.buf.as_str()
    }

    /// Writes the view's HTML, which is already escaped, as it is.
    pub fn fmt(&self, _cx: &Cx, f: &mut Formatter)
        ensures
            final(f)@ == old(f)@ + self@,
    {
        f.write_str_unescaped(self.buf.as_str());
    }
}

/// Renders `view` in the context `cx`, giving its HTML.
pub fn render(cx: &Cx, view: View) -> (r: String)
    ensures
        r@ == view@,
{
    let mut f = Formatter::new();
    view.fmt(cx, &mut f);
    assert(f@ =~= view@);
    f.into_string()
}

} // verus!
