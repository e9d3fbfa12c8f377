//! The code a view compiles to: statements that write static text and expressions into a
//! formatter, collected by a [`ViewWriter`] that merges adjacent static text.
use vstd::prelude::*;
use vstd::view::View as ViewTrait;
use crate::view::tokens::TokenTree;

verus! {

/// An expression whose value the generated code writes.
pub enum ExprSrc {
    /// The contents of a parenthesized group.
    Group(TokenTree),
    /// A path.
    Path(Vec<TokenTree>),
    /// `path(args)`: the path and the argument group.
    Call(Vec<TokenTree>, TokenTree),
    /// `path!(..)`: the path and the delimited body.
    Macro(Vec<TokenTree>, TokenTree),
    /// `View::as_str(&expr)`, for the contents of the parenthesized group.
    ViewOf(TokenTree),
    /// The element name bound at this depth (see [`Emit::Bind`]).
    Name(u64),
}

/// An expression, with sequences for its paths.
pub enum ExprSrcV {
    Group(TokenTree),
    Path(Seq<TokenTree>),
    Call(Seq<TokenTree>, TokenTree),
    Macro(Seq<TokenTree>, TokenTree),
    ViewOf(TokenTree),
    Name(u64),
}

impl ViewTrait for ExprSrc {
    type V = ExprSrcV;

    open spec fn view(&self) -> ExprSrcV {
        match self {
            ExprSrc::Group(t) => ExprSrcV::Group(*t),
            ExprSrc::Path(p) => ExprSrcV::Path(p@),
            ExprSrc::Call(p, a) => ExprSrcV::Call(p@, *a),
            ExprSrc::Macro(p, b) => ExprSrcV::Macro(p@, *b),
            ExprSrc::ViewOf(t) => ExprSrcV::ViewOf(*t),
            ExprSrc::Name(d) => ExprSrcV::Name(*d),
        }
    }
}

/// One statement of the generated code.
pub enum Emit {
    /// `Fragment::fmt_unescaped("text", &mut __f);`
    Static(String),
    /// `Fragment::fmt(&expr, &mut __f);` when `escaped`, else `Fragment::fmt_unescaped`.
    Expr { src: ExprSrc, escaped: bool },
    /// `let __element_name_<depth> = &expr;` for the contents of the group.
    Bind { depth: u64, expr: TokenTree },
    /// The tokens followed by `;`.
    Stmt(Vec<TokenTree>),
    /// Tokens, as they are.
    Raw(Vec<TokenTree>),
    /// `if cond { body }`.
    If { cond: Vec<TokenTree>, body: Vec<Emit> },
    /// `else { body }`.
    Else { body: Vec<Emit> },
    /// `for pat in iter { body }`.
    For { pat: Vec<TokenTree>, iter: Vec<TokenTree>, body: Vec<Emit> },
}

/// What the generated code does, one step at a time: a character of static text, an
/// expression written, or a statement.
pub enum Piece {
    /// A character of static text, by its code point.
    Text(u32),
    Expr(ExprSrcV, bool),
    Bind(u64, TokenTree),
    Stmt(Seq<TokenTree>),
    Raw(Seq<TokenTree>),
    If(Seq<TokenTree>, Seq<Piece>),
    Else(Seq<Piece>),
    For(Seq<TokenTree>, Seq<TokenTree>, Seq<Piece>),
}

/// The static text `s`, character by character.
pub open spec fn static_text(s: Seq<char>) -> Seq<Piece>
    decreases s.len(),
{
    if s.len() == 0 {
        Seq::empty()
    } else {
        static_text(s.drop_last()).push(Piece::Text(s.last() as u32))
    }
}

/// Static text of a concatenation is the concatenation of static texts.
pub proof fn lemma_text_concat(a: Seq<char>, b: Seq<char>)
    ensures
        static_text(a + b) == static_text(a) + static_text(b),
    decreases b.len(),
{
    if b.len() == 0 {
        assert(a + b =~= a);
        assert(static_text(a) + static_text(b) =~= static_text(a));
    } else {
        lemma_text_concat(a, b.drop_last());
        assert((a + b).drop_last() =~= a + b.drop_last());
        assert((a + b).last() == b.last());
        assert(static_text(b) == static_text(b.drop_last()).push(Piece::Text(b.last() as u32)));
        assert(static_text(a + b) == static_text(a + b.drop_last()).push(Piece::Text(b.last() as u32)));
        assert(static_text(a) + static_text(b) =~= (static_text(a) + static_text(b.drop_last())).push(Piece::Text(b.last() as u32)));
    }
}

/// What a statement does.
pub open spec fn emit_pieces(e: Emit) -> Seq<Piece>
    decreases e,
{
    match e {
        Emit::Static(s) => static_text(s@),
        Emit::Expr { src, escaped } => seq![Piece::Expr(src@, escaped)],
        Emit::Bind { depth, expr } => seq![Piece::Bind(depth, expr)],
        Emit::Stmt(t) => seq![Piece::Stmt(t@)],
        Emit::Raw(t) => seq![Piece::Raw(t@)],
        Emit::If { cond, body } => {
            proof {
                vstd::std_specs::vec::axiom_vec_decreases_to_view(body);
            }
            seq![Piece::If(cond@, flatten(body@))]
        },
        Emit::Else { body } => {
            proof {
                vstd::std_specs::vec::axiom_vec_decreases_to_view(body);
            }
            seq![Piece::Else(flatten(body@))]
        },
        Emit::For { pat, iter, body } => {
            proof {
                vstd::std_specs::vec::axiom_vec_decreases_to_view(body);
            }
            seq![Piece::For(pat@, iter@, flatten(body@))]
        },
    }
}

/// What a list of statements does.
pub open spec fn flatten(es: Seq<Emit>) -> Seq<Piece>
    decreases es,
{
    if es.len() == 0 {
        Seq::empty()
    } else {
        flatten(es.drop_last()) + emit_pieces(es.last())
    }
}

/// What a list with one more statement does.
pub proof fn lemma_flatten_push(es: Seq<Emit>, e: Emit)
    ensures
        flatten(es.push(e)) == flatten(es) + emit_pieces(e),
{
    assert(es.push(e).drop_last() =~= es);
}

/// The length in bytes of the UTF-8 encoding of `s`, as `str::len` gives it.
pub open spec fn byte_len(s: Seq<char>) -> int {
    (vstd::utf8::encode_utf8(s).len() as usize) as int
}

/// `a` saturated at `usize::MAX`.
pub open spec fn sat(a: int) -> int {
    if a > usize::MAX { usize::MAX as int } else { a }
}

/// Emits the static text `pending` into `tokens` where there is any; gives the capacity that
/// results from adding its bytes to `capacity`.
fn flush_into(tokens: &mut Vec<Emit>, pending: String, capacity: usize) -> (r: usize)
    ensures
        flatten(final(tokens)@) == flatten(old(tokens)@) + static_text(pending@),
        r == sat(capacity + byte_len(pending@)),
        final(tokens)@.len() > 0 ==> old(tokens)@.len() > 0 || pending@.len() > 0,
        has_dynamic(old(tokens)@) ==> has_dynamic(final(tokens)@),
{
    if !pending.as_str().is_empty() {
        let len = pending.as_str().len();
        proof {
            lemma_flatten_push(tokens@, Emit::Static(pending));
        }
        let ghost before = tokens@;
        tokens.push(Emit::Static(pending));
        proof {
            if has_dynamic(before) {
                let i = choose|i: int| 0 <= i < before.len() && !(before[i] is Static);
                assert(tokens@[i] == before[i]);
            }
        }
        capacity.saturating_add(len)
    } else {
        assert(vstd::utf8::encode_utf8(pending@) =~= Seq::<u8>::empty());
        assert(static_text(pending@) =~= Seq::<Piece>::empty());
        assert(flatten(tokens@) + static_text(pending@) =~= flatten(tokens@));
        capacity
    }
}

/// Whether a list of statements writes something other than static text.
pub open spec fn has_dynamic(es: Seq<Emit>) -> bool {
    exists|i: int| 0 <= i < es.len() && !(es[i] is Static)
}

/// Whether every step is static text.
pub open spec fn all_text(p: Seq<Piece>) -> bool {
    forall|i: int| 0 <= i < p.len() ==> p[i] is Text
}

/// Static text is all text.
pub proof fn lemma_static_text_all_text(s: Seq<char>)
    ensures
        all_text(static_text(s)),
    decreases s.len(),
{
    if s.len() > 0 {
        lemma_static_text_all_text(s.drop_last());
        let t = static_text(s);
        assert(t == static_text(s.drop_last()).push(Piece::Text(s.last() as u32)));
    }
}

/// Statements with something other than static text do more than write static text.
proof fn lemma_dynamic_not_text(es: Seq<Emit>)
    requires
        has_dynamic(es),
    ensures
        !all_text(flatten(es)),
    decreases es.len(),
{
    let l = es.last();
    let rest = es.drop_last();
    assert(flatten(es) == flatten(rest) + emit_pieces(l));
    if !(l is Static) {
        let k = flatten(rest).len() as int;
        assert(emit_pieces(l).len() == 1);
        assert(!(emit_pieces(l)[0] is Text));
        assert(flatten(es)[k] == emit_pieces(l)[0]);
    } else {
        let i = choose|i: int| 0 <= i < es.len() && !(es[i] is Static);
        assert(i < es.len() - 1);
        assert(rest[i] == es[i]);
        lemma_dynamic_not_text(rest);
        let j = choose|j: int| 0 <= j < flatten(rest).len() && !(flatten(rest)[j] is Text);
        assert(flatten(es)[j] == flatten(rest)[j]);
    }
}

/// Collects the statements of a view. Static text is held back and merged until something
/// else is written; `capacity` counts the bytes of static text already emitted.
pub struct ViewWriter {
    tokens: Vec<Emit>,
    static_segment: String,
    capacity: usize,
}

impl ViewWriter {
    /// Statements are emitted only together with something other than static text.
    #[verifier::type_invariant]
    spec fn inv(self) -> bool {
        self.tokens@.len() == 0 || has_dynamic(self.tokens@)
    }

    /// What the code collected so far does, held-back text included.
    pub closed spec fn stream(&self) -> Seq<Piece> {
        flatten(self.tokens@) + static_text(self.static_segment@)
    }

    /// The bytes of static text emitted so far (saturated), as a hint for the buffer size.
    pub closed spec fn capacity(&self) -> int {
        self.capacity as int
    }

    /// The static text held back.
    pub closed spec fn pending(&self) -> Seq<char> {
        self.static_segment@
    }

    /// A writer with nothing written.
    pub fn new() -> (r: Self)
        ensures
            r.stream() == Seq::<Piece>::empty(),
            r.capacity() == 0,
            r.pending() == Seq::<char>::empty(),
    {
        let r = ViewWriter { tokens: Vec::new(), static_segment: String::new(), capacity: 0 };
        assert(r.stream() =~= Seq::<Piece>::empty());
        r
    }

    /// Writes static text as it is.
    pub fn write_str_unescaped(&mut self, s: &str)
        ensures
            final(self).stream() == old(self).stream() + static_text(s@),
            final(self).capacity() == old(self).capacity(),
    {
        proof {
            use_type_invariant(&*self);
        }
        let mut seg = String::new();
        std::mem::swap(&mut seg, &mut self.static_segment);
        seg.append(s);
        self.static_segment = seg;
        proof {
            lemma_text_concat(old(self).static_segment@, s@);
        }
        assert(self.stream() =~= old(self).stream() + static_text(s@));
    }

    /// Writes static text, HTML-escaped.
    pub fn write_str(&mut self, s: &str)
        ensures
            final(self).stream() == old(self).stream() + static_text(crate::view::escape::escape_html(s@)),
            final(self).capacity() == old(self).capacity(),
    {
        proof {
            use_type_invariant(&*self);
        }
        let mut seg = String::new();
        std::mem::swap(&mut seg, &mut self.static_segment);
        crate::view::escape::push_escaped(&mut seg, s);
        self.static_segment = seg;
        proof {
            lemma_text_concat(old(self).static_segment@, crate::view::escape::escape_html(s@));
        }
        assert(self.stream() =~= old(self).stream() + static_text(crate::view::escape::escape_html(s@)));
    }

    /// Writes one character of static text as it is.
    pub fn push(&mut self, c: char)
        ensures
            final(self).stream() == old(self).stream() + static_text(seq![c]),
            final(self).capacity() == old(self).capacity(),
    {
        proof {
            use_type_invariant(&*self);
        }
        let mut seg = String::new();
        std::mem::swap(&mut seg, &mut self.static_segment);
        crate::text::push_char(&mut seg, c);
        self.static_segment = seg;
        proof {
            lemma_text_concat(old(self).static_segment@, seq![c]);
            assert(self.static_segment@ =~= old(self).static_segment@ + seq![c]);
        }
        assert(self.stream() =~= old(self).stream() + static_text(seq![c]));
    }

    /// Writes static text as it is.
    pub fn push_str(&mut self, s: &str)
        ensures
            final(self).stream() == old(self).stream() + static_text(s@),
            final(self).capacity() == old(self).capacity(),
    {
        self.write_str_unescaped(s);
    }

    /// Writes static text, HTML-escaped.
    pub fn push_escaped(&mut self, s: &str)
        ensures
            final(self).stream() == old(self).stream() + static_text(crate::view::escape::escape_html(s@)),
            final(self).capacity() == old(self).capacity(),
    {
        self.write_str(s);
    }

    /// Emits a statement after the static text held back.
    fn emit(&mut self, e: Emit)
        requires
            !(e is Static),
        ensures
            final(self).stream() == old(self).stream() + emit_pieces(e),
            final(self).pending() == Seq::<char>::empty(),
            final(self).capacity() == sat(old(self).capacity() + byte_len(old(self).pending())),
    {
        let mut tokens: Vec<Emit> = Vec::new();
        std::mem::swap(&mut tokens, &mut self.tokens);
        let mut pending = String::new();
        std::mem::swap(&mut pending, &mut self.static_segment);
        let cap = flush_into(&mut tokens, pending, self.capacity);
        let ghost mid = tokens@;
        proof {
            lemma_flatten_push(mid, e);
        }
        tokens.push(e);
        assert(!(tokens@[mid.len() as int] is Static));
        self.capacity = cap;
        self.tokens = tokens;
        assert(self.stream() =~= old(self).stream() + emit_pieces(e));
    }

    /// The statements with the held-back text emitted, and the capacity that gives.
    fn into_parts(self) -> (r: (Vec<Emit>, usize))
        ensures
            flatten(r.0@) == self.stream(),
            r.1 == sat(self.capacity() + byte_len(self.pending())),
    {
        let ViewWriter { tokens, static_segment, capacity } = self;
        let mut tokens = tokens;
        let cap = flush_into(&mut tokens, static_segment, capacity);
        (tokens, cap)
    }

    /// Writes the value of an expression, HTML-escaped.
    pub fn write_expr(&mut self, src: ExprSrc)
        ensures
            final(self).stream() == old(self).stream() + seq![Piece::Expr(src@, true)],
    {
        self.emit(Emit::Expr { src, escaped: true });
    }

    /// Writes the value of an expression as it is.
    pub fn write_expr_unescaped(&mut self, src: ExprSrc)
        ensures
            final(self).stream() == old(self).stream() + seq![Piece::Expr(src@, false)],
    {
        self.emit(Emit::Expr { src, escaped: false });
    }

    /// Writes the value of an expression as it is.
    pub fn push_expr(&mut self, src: ExprSrc)
        ensures
            final(self).stream() == old(self).stream() + seq![Piece::Expr(src@, false)],
    {
        self.write_expr_unescaped(src);
    }

    /// Emits tokens as they are, after the static text written before them.
    pub fn write_raw(&mut self, tokens: Vec<TokenTree>)
        ensures
            final(self).stream() == old(self).stream() + seq![Piece::Raw(tokens@)],
    {
        self.emit(Emit::Raw(tokens));
    }

    /// Emits the statement `tokens;`.
    pub fn write_stmt(&mut self, tokens: Vec<TokenTree>)
        ensures
            final(self).stream() == old(self).stream() + seq![Piece::Stmt(tokens@)],
    {
        self.emit(Emit::Stmt(tokens));
    }

    /// Binds the element name computed by the group's expression at `depth`.
    pub fn bind_name(&mut self, depth: u64, expr: TokenTree)
        ensures
            final(self).stream() == old(self).stream() + seq![Piece::Bind(depth, expr)],
    {
        self.emit(Emit::Bind { depth, expr });
    }

    /// Starts `if cond { .. }`: what is written to the returned writer goes into the body.
    pub fn begin_if(&mut self, cond: Vec<TokenTree>) -> (r: ViewWriterIf)
        ensures
            r.cond@ == cond@,
            r.writer.stream() == Seq::<Piece>::empty(),
            r.writer.capacity() == 0,
            *final(self) == *old(self),
    {
        ViewWriterIf { cond, writer: ViewWriter::new() }
    }

    /// Starts `for pat in expr { .. }`: what is written to the returned writer goes into the
    /// body, which is emitted after the static text written before it.
    pub fn begin_for_loop(&mut self, pat: Vec<TokenTree>, expr: Vec<TokenTree>) -> (r: ViewWriterForLoop)
        ensures
            r.pat@ == pat@,
            r.expr@ == expr@,
            r.writer.stream() == Seq::<Piece>::empty(),
            r.writer.capacity() == 0,
            *final(self) == *old(self),
    {
        ViewWriterForLoop { pat, expr, writer: ViewWriter::new() }
    }

    /// The finished view: a constant when nothing but static text was written; otherwise
    /// the statements, the last static text included, with the bytes of all static text as
    /// the buffer's capacity.
    pub fn to_tokens(self) -> (r: ViewOutput)
        ensures
            self.stream() == match r {
                ViewOutput::Constant(s) => static_text(s@),
                ViewOutput::Built { body, .. } => flatten(body@),
            },
            r matches ViewOutput::Built { capacity, .. } ==> capacity == sat(
                self.capacity() + byte_len(self.pending()),
            ),
            (r is Constant) == all_text(self.stream()),
    {
        proof {
            use_type_invariant(&self);
        }
        let ghost st = self.stream();
        if self.tokens.len() == 0 {
            assert(flatten(self.tokens@) =~= Seq::<Piece>::empty());
            assert(self.stream() =~= static_text(self.static_segment@));
            proof {
                lemma_static_text_all_text(self.static_segment@);
            }
            let ViewWriter { static_segment, .. } = self;
            return ViewOutput::Constant(static_segment);
        }
        proof {
            lemma_dynamic_not_text(self.tokens@);
            let j = choose|j: int| 0 <= j < flatten(self.tokens@).len() && !(flatten(self.tokens@)[j] is Text);
            assert(st[j] == flatten(self.tokens@)[j]);
        }
        let (body, capacity) = self.into_parts();
        ViewOutput::Built { capacity, body }
    }
}

/// A finished view.
pub enum ViewOutput {
    /// `View::new("text")`.
    Constant(String),
    /// A block that makes a buffer of `capacity` bytes, runs `body` into it and wraps it.
    Built { capacity: usize, body: Vec<Emit> },
}

/// The body of an `if` being written.
pub struct ViewWriterIf {
    pub cond: Vec<TokenTree>,
    pub writer: ViewWriter,
}

impl ViewWriterIf {
    /// Ends the `if` without an `else`: the parent's held-back text is emitted, then
    /// `if cond { body }`.
    pub fn detach(self, parent: &mut ViewWriter)
        ensures
            final(parent).stream() == old(parent).stream() + seq![Piece::If(self.cond@, self.writer.stream())],
    {
        let ViewWriterIf { cond, writer } = self;
        let (tokens, _capacity) = writer.into_parts();
        proof {
            vstd::std_specs::vec::axiom_vec_decreases_to_view(tokens);
        }
        let ghost e = Emit::If { cond, body: tokens };
        assert(emit_pieces(e) == seq![Piece::If(cond@, flatten(tokens@))]);
        parent.emit(Emit::If { cond, body: tokens });
    }

    /// Ends the `if` and starts its `else`; the `if` branch's static bytes are kept to
    /// weigh against the `else` branch's.
    pub fn begin_else(self, parent: &mut ViewWriter) -> (r: ViewWriterElse)
        ensures
            final(parent).stream() == old(parent).stream() + seq![Piece::If(self.cond@, self.writer.stream())],
            r.writer.stream() == Seq::<Piece>::empty(),
            r.writer.capacity() == 0,
            r.if_capacity == sat(self.writer.capacity() + byte_len(self.writer.pending())),
    {
        let ViewWriterIf { cond, writer } = self;
        let (tokens, cap) = writer.into_parts();
        proof {
            vstd::std_specs::vec::axiom_vec_decreases_to_view(tokens);
        }
        let ghost e = Emit::If { cond, body: tokens };
        assert(emit_pieces(e) == seq![Piece::If(cond@, flatten(tokens@))]);
        parent.emit(Emit::If { cond, body: tokens });
        ViewWriterElse { writer: ViewWriter::new(), if_capacity: cap }
    }
}

/// The body of an `else` being written.
pub struct ViewWriterElse {
    pub writer: ViewWriter,
    pub if_capacity: usize,
}

impl ViewWriterElse {
    /// Ends the `else`: `else { body }` is emitted, and the parent's capacity grows by the
    /// smaller of the two branches' static bytes.
    pub fn detach(self, parent: &mut ViewWriter)
        ensures
            final(parent).stream() == old(parent).stream() + seq![Piece::Else(self.writer.stream())],
            final(parent).capacity() == sat(
                sat(old(parent).capacity() + byte_len(old(parent).pending()))
                    + vstd::math::min(self.if_capacity as int, sat(self.writer.capacity() + byte_len(self.writer.pending()))),
            ),
    {
        let ViewWriterElse { writer, if_capacity } = self;
        let (tokens, else_capacity) = writer.into_parts();
        proof {
            vstd::std_specs::vec::axiom_vec_decreases_to_view(tokens);
        }
        let ghost e = Emit::Else { body: tokens };
        assert(emit_pieces(e) == seq![Piece::Else(flatten(tokens@))]);
        parent.emit(Emit::Else { body: tokens });
        let least = if if_capacity < else_capacity { if_capacity } else { else_capacity };
        proof {
            use_type_invariant(&*parent);
        }
        parent.capacity = parent.capacity.saturating_add(least);
    }
}

/// The body of a `for` loop being written.
pub struct ViewWriterForLoop {
    pub pat: Vec<TokenTree>,
    pub expr: Vec<TokenTree>,
    pub writer: ViewWriter,
}

impl ViewWriterForLoop {
    /// Ends the loop: `for pat in expr { body }` is emitted after the parent's held-back text.
    pub fn detach(self, parent: &mut ViewWriter)
        ensures
            final(parent).stream() == old(parent).stream() + seq![Piece::For(self.pat@, self.expr@, self.writer.stream())],
    {
        let ViewWriterForLoop { pat, expr, writer } = self;
        let (tokens, _capacity) = writer.into_parts();
        proof {
            vstd::std_specs::vec::axiom_vec_decreases_to_view(tokens);
        }
        let ghost e = Emit::For { pat, iter: expr, body: tokens };
        assert(emit_pieces(e) == seq![Piece::For(pat@, expr@, flatten(tokens@))]);
        parent.emit(Emit::For { pat, iter: expr, body: tokens });
    }
}

} // verus!
