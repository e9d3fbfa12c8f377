//! What a parsed view compiles to: each node writes its static text and expressions, in
//! order, into a [`ViewWriter`].
use vstd::prelude::*;
use vstd::view::View as ViewTrait;
use crate::view::ast::{
    Attribute, AttributeV, AttributeValue, AttributeValueV, Attributes, Element, ElementName,
    ElementV, Node, NodeBlock, NodeExpr, NodeIf, NodeLet, NodeV, OpeningTag, View,
};
use crate::view::output::{ExprSrc, ExprSrcV, Piece, ViewOutput, ViewWriter};
use crate::view::tokens::{LitKind, TokenTree};

verus! {

/// The text a literal token writes: a string's value, a number's digits, or the word of
/// `true` and `false`.
pub open spec fn lit_value(t: TokenTree) -> Seq<char> {
    match t {
        TokenTree::Literal { kind: LitKind::Str(v), .. } => v@,
        TokenTree::Literal { kind: LitKind::Int(v), .. } => v@,
        TokenTree::Literal { kind: LitKind::Float(v), .. } => v@,
        TokenTree::Ident(n) => n@,
        _ => Seq::empty(),
    }
}

/// The text of an identifier token.
pub open spec fn ident_text(t: TokenTree) -> Seq<char> {
    match t {
        TokenTree::Ident(n) => n@,
        _ => Seq::empty(),
    }
}

/// What an attribute value writes: an expression's value escaped, or a literal's text
/// escaped.
pub open spec fn value_pieces(v: AttributeValueV) -> Seq<Piece> {
    match v {
        AttributeValueV::Expr(g) => seq![Piece::Expr(ExprSrcV::Group(g), true)],
        AttributeValueV::LitStr(t) => crate::view::output::static_text(crate::view::escape::escape_html(lit_value(t))),
        AttributeValueV::LitInt(t) => crate::view::output::static_text(crate::view::escape::escape_html(lit_value(t))),
        AttributeValueV::LitFloat(t) => crate::view::output::static_text(crate::view::escape::escape_html(lit_value(t))),
        AttributeValueV::LitBool(t) => crate::view::output::static_text(crate::view::escape::escape_html(lit_value(t))),
        AttributeValueV::Path(p) => seq![Piece::Expr(ExprSrcV::Path(p), true)],
        AttributeValueV::Call(p, a) => seq![Piece::Expr(ExprSrcV::Call(p, a), true)],
        AttributeValueV::Macro(p, b) => seq![Piece::Expr(ExprSrcV::Macro(p, b), true)],
    }
}

/// What an attribute writes: `name="value"`.
pub open spec fn attr_pieces(a: AttributeV) -> Seq<Piece> {
    crate::view::output::static_text(ident_text(a.name) + "=\""@) + value_pieces(a.value)
        + crate::view::output::static_text("\""@)
}

/// What a list of attributes writes: each attribute after a space.
pub open spec fn attrs_pieces(s: Seq<AttributeV>) -> Seq<Piece>
    decreases s.len(),
{
    if s.len() == 0 {
        Seq::empty()
    } else {
        attrs_pieces(s.drop_last()) + crate::view::output::static_text(" "@) + attr_pieces(s.last())
    }
}

/// What an element name writes: its text as it is, or its expression's value unescaped.
pub open spec fn name_pieces(n: ElementName) -> Seq<Piece> {
    match crate::view::ast::name_text(n) {
        Some(t) => crate::view::output::static_text(t),
        None => match n {
            ElementName::Expr(g) => seq![Piece::Expr(ExprSrcV::Group(g), false)],
            _ => Seq::empty(),
        },
    }
}

/// The depth of the children of an element at `d`.
pub open spec fn child_depth(d: u64) -> u64 {
    if d == u64::MAX { d } else { (d + 1) as u64 }
}

/// What an element at nesting depth `depth` writes. `<name attributes>`, the children, then
/// `</name>`; a name given by an expression is computed once, bound at the element's depth,
/// and written from the binding in both tags. A void element writes its opening tag only.
pub open spec fn element_pieces(e: ElementV, depth: u64) -> Seq<Piece>
    decreases e,
{
    match e {
        ElementV::Void { tag } => crate::view::output::static_text("<"@) + name_pieces(tag.name)
            + attrs_pieces(tag.attributes) + crate::view::output::static_text(">"@),
        ElementV::Normal { opening, children, .. } => match opening.name {
            ElementName::Expr(g) => crate::view::output::static_text("<"@)
                + seq![Piece::Bind(depth, g), Piece::Expr(ExprSrcV::Name(depth), false)]
                + attrs_pieces(opening.attributes) + crate::view::output::static_text(">"@)
                + nodes_pieces(children, child_depth(depth)) + crate::view::output::static_text("</"@)
                + seq![Piece::Expr(ExprSrcV::Name(depth), false)] + crate::view::output::static_text(">"@),
            _ => crate::view::output::static_text("<"@) + name_pieces(opening.name)
                + attrs_pieces(opening.attributes) + crate::view::output::static_text(">"@)
                + nodes_pieces(children, child_depth(depth)) + crate::view::output::static_text("</"@)
                + name_pieces(opening.name) + crate::view::output::static_text(">"@),
        },
    }
}

/// What a node writes. Text is escaped; an expression node writes its view's text as it is;
/// a `let` is a statement; an `if` writes nothing.
pub open spec fn node_pieces(n: NodeV, depth: u64) -> Seq<Piece>
    decreases n,
{
    match n {
        NodeV::Element(e) => element_pieces(e, depth),
        NodeV::Text(t) => crate::view::output::static_text(crate::view::escape::escape_html(lit_value(t))),
        NodeV::Expr(g) => seq![Piece::Expr(ExprSrcV::ViewOf(g), false)],
        NodeV::Block(ns) => nodes_pieces(ns, depth),
        NodeV::Let(toks) => seq![Piece::Stmt(toks)],
        NodeV::If(_) => Seq::empty(),
    }
}

/// What a list of nodes writes, in order.
pub open spec fn nodes_pieces(ns: Seq<NodeV>, depth: u64) -> Seq<Piece>
    decreases ns,
{
    if ns.len() == 0 {
        Seq::empty()
    } else {
        nodes_pieces(ns.drop_last(), depth) + node_pieces(ns.last(), depth)
    }
}

/// Writes a token's text as static text.
fn write_literal(t: TokenTree, w: &mut ViewWriter)
    ensures
        final(w).stream() == old(w).stream() + crate::view::output::static_text(
            crate::view::escape::escape_html(lit_value(t)),
        ),
{
    match t {
        TokenTree::Literal { kind: LitKind::Str(v), .. } => w.write_str(v.as_str()),
        TokenTree::Literal { kind: LitKind::Int(v), .. } => w.write_str(v.as_str()),
        TokenTree::Literal { kind: LitKind::Float(v), .. } => w.write_str(v.as_str()),
        TokenTree::Ident(n) => w.write_str(n.as_str()),
        _ => {
            w.write_str("");
            proof {
                reveal_strlit("");
                assert(crate::view::escape::escape_html(Seq::<char>::empty()) =~= Seq::<char>::empty());
            }
        },
    }
}

impl AttributeValue {
    /// Writes the value: an expression's value or a literal's text, escaped.
    pub fn write(self, w: &mut ViewWriter)
        ensures
            final(w).stream() == old(w).stream() + value_pieces(self@),
    {
        match self {
            AttributeValue::Expr(g) => w.write_expr(ExprSrc::Group(g)),
            AttributeValue::LitStr(t) => write_literal(t, w),
            AttributeValue::LitInt(t) => write_literal(t, w),
            AttributeValue::LitFloat(t) => write_literal(t, w),
            AttributeValue::LitBool(t) => write_literal(t, w),
            AttributeValue::Path(p) => w.write_expr(ExprSrc::Path(p)),
            AttributeValue::Call { func, args } => w.write_expr(ExprSrc::Call(func, args)),
            AttributeValue::Macro { path, body } => w.write_expr(ExprSrc::Macro(path, body)),
        }
    }
}

/// Writes an identifier token's text as it is.
fn write_ident(t: &TokenTree, w: &mut ViewWriter)
    ensures
        final(w).stream() == old(w).stream() + crate::view::output::static_text(ident_text(*t)),
{
    match t {
        TokenTree::Ident(n) => w.write_str_unescaped(n.as_str()),
        _ => {
            w.write_str_unescaped("");
            proof {
                reveal_strlit("");
            }
        },
    }
}

impl Attribute {
    /// Writes `name="value"`.
    pub fn write(self, w: &mut ViewWriter)
        ensures
            final(w).stream() == old(w).stream() + attr_pieces(self@),
    {
        let ghost v = self@;
        let Attribute { name, value } = self;
        write_ident(&name, w);
        w.write_str_unescaped("=\"");
        value.write(w);
        w.write_str_unescaped("\"");
        proof {
            crate::view::output::lemma_text_concat(ident_text(name), "=\""@);
        }
        assert(final(w).stream() =~= old(w).stream() + attr_pieces(v));
    }
}

impl Attributes {
    /// Writes each attribute after a space.
    pub fn write(self, w: &mut ViewWriter)
        ensures
            final(w).stream() == old(w).stream() + attrs_pieces(crate::view::ast::attrs_view(self.items@)),
    {
        let ghost all = crate::view::ast::attrs_view(self.items@);
        let ghost items = self.items@;
        let mut rest = self.items;
        let total = rest.len();
        let mut rev: Vec<Attribute> = Vec::new();
        while rest.len() > 0
            invariant
                rest@.len() + rev@.len() == items.len(),
                rest@ == items.take(rest@.len() as int),
                forall|k: int| 0 <= k < rev@.len() ==> rev@[k] == items[items.len() - 1 - k],
            decreases rest@.len(),
        {
            let a = rest.pop().unwrap();
            rev.push(a);
            assert(rest@ =~= items.take(rest@.len() as int));
        }
        let ghost start = w.stream();
        let mut done: usize = 0;
        assert(crate::view::ast::attrs_view(items.take(0)) =~= Seq::<AttributeV>::empty());
        while rev.len() > 0
            invariant
                rev@.len() + done == items.len(),
                items.len() == total,
                forall|k: int| 0 <= k < rev@.len() ==> rev@[k] == items[items.len() - 1 - k],
                w.stream() == start + attrs_pieces(crate::view::ast::attrs_view(items.take(done as int))),
            decreases rev@.len(),
        {
            let a = rev.pop().unwrap();
            assert(a == items[done as int]);
            w.write_str_unescaped(" ");
            a.write(w);
            proof {
                let pre = crate::view::ast::attrs_view(items.take(done as int));
                let post = crate::view::ast::attrs_view(items.take(done + 1));
                assert(post.drop_last() =~= pre);
                assert(post.last() == items[done as int]@);
            }
            done = done + 1;
            assert(w.stream() =~= start + attrs_pieces(crate::view::ast::attrs_view(items.take(done as int))));
        }
        assert(items.take(items.len() as int) =~= items);
    }
}

impl ElementName {
    /// Writes the name: its text as it is, or its expression's value unescaped.
    pub fn write(self, w: &mut ViewWriter)
        ensures
            final(w).stream() == old(w).stream() + name_pieces(self),
    {
        match self {
            ElementName::Ident(TokenTree::Ident(n)) => w.push_str(n.as_str()),
            ElementName::LitStr(TokenTree::Literal { kind: LitKind::Str(v), .. }) => w.push_str(v.as_str()),
            ElementName::Expr(g) => w.push_expr(ExprSrc::Group(g)),
            _ => {
                assert(old(w).stream() + Seq::<Piece>::empty() =~= old(w).stream());
            },
        }
    }
}

/// Writes a void element: its opening tag.
fn write_void(tag: OpeningTag, w: &mut ViewWriter)
    ensures
        final(w).stream() == old(w).stream() + (crate::view::output::static_text("<"@) + name_pieces(tag.name)
            + attrs_pieces(crate::view::ast::attrs_view(tag.attributes.items@)) + crate::view::output::static_text(">"@)),
{
    let ghost s0 = w.stream();
    let OpeningTag { name, attributes } = tag;
    w.push_str("<");
    name.write(w);
    attributes.write(w);
    w.push_str(">");
    assert(w.stream() =~= s0 + (crate::view::output::static_text("<"@) + name_pieces(name)
        + attrs_pieces(crate::view::ast::attrs_view(attributes.items@)) + crate::view::output::static_text(">"@)));
}

/// Writes an element whose name is an expression: the name is bound at `depth` and written
/// from the binding in both tags.
fn write_bound(g: TokenTree, attributes: Attributes, children: Vec<Node>, w: &mut ViewWriter, depth: u64)
    ensures
        final(w).stream() == old(w).stream() + (crate::view::output::static_text("<"@)
            + seq![Piece::Bind(depth, g), Piece::Expr(ExprSrcV::Name(depth), false)]
            + attrs_pieces(crate::view::ast::attrs_view(attributes.items@)) + crate::view::output::static_text(">"@)
            + nodes_pieces(crate::view::ast::nodes_view(children@), child_depth(depth))
            + crate::view::output::static_text("</"@)
            + seq![Piece::Expr(ExprSrcV::Name(depth), false)] + crate::view::output::static_text(">"@)),
    decreases children, 4int,
{
    let ghost s0 = w.stream();
    let ghost av = crate::view::ast::attrs_view(attributes.items@);
    let ghost cv = crate::view::ast::nodes_view(children@);
    let next = if depth == u64::MAX { depth } else { depth + 1 };
    w.push_str("<");
    w.bind_name(depth, g);
    w.push_expr(ExprSrc::Name(depth));
    attributes.write(w);
    w.push_str(">");
    let ghost s1 = w.stream();
    assert(s1 =~= s0 + (crate::view::output::static_text("<"@)
        + seq![Piece::Bind(depth, g), Piece::Expr(ExprSrcV::Name(depth), false)]
        + attrs_pieces(av) + crate::view::output::static_text(">"@)));
    write_nodes(children, w, next);
    w.push_str("</");
    w.push_expr(ExprSrc::Name(depth));
    w.push_str(">");
    assert(w.stream() =~= s1 + (nodes_pieces(cv, next) + crate::view::output::static_text("</"@)
        + seq![Piece::Expr(ExprSrcV::Name(depth), false)] + crate::view::output::static_text(">"@)));
}

/// Writes the text of a name known at compile time, as the closing tag does.
fn push_known_name(text: Option<String>, w: &mut ViewWriter, Ghost(n): Ghost<ElementName>)
    requires
        !(n is Expr),
        match crate::view::ast::name_text(n) {
            Some(t) => text matches Some(s) && s@ == t,
            None => text is None,
        },
    ensures
        final(w).stream() == old(w).stream() + name_pieces(n),
{
    match text {
        Some(s) => w.push_str(s.as_str()),
        None => {
            assert(old(w).stream() + Seq::<Piece>::empty() =~= old(w).stream());
        },
    }
}

/// Writes an element whose name is known at compile time.
fn write_named(name: ElementName, attributes: Attributes, children: Vec<Node>, w: &mut ViewWriter, depth: u64)
    requires
        !(name is Expr),
    ensures
        final(w).stream() == old(w).stream() + (crate::view::output::static_text("<"@) + name_pieces(name)
            + attrs_pieces(crate::view::ast::attrs_view(attributes.items@)) + crate::view::output::static_text(">"@)
            + nodes_pieces(crate::view::ast::nodes_view(children@), child_depth(depth))
            + crate::view::output::static_text("</"@) + name_pieces(name) + crate::view::output::static_text(">"@)),
    decreases children, 4int,
{
    let ghost s0 = w.stream();
    let ghost av = crate::view::ast::attrs_view(attributes.items@);
    let ghost cv = crate::view::ast::nodes_view(children@);
    let ghost n = name;
    let next = if depth == u64::MAX { depth } else { depth + 1 };
    let closing_name = name.string_name();
    w.push_str("<");
    name.write(w);
    attributes.write(w);
    w.push_str(">");
    let ghost s1 = w.stream();
    assert(s1 =~= s0 + (crate::view::output::static_text("<"@) + name_pieces(n) + attrs_pieces(av)
        + crate::view::output::static_text(">"@)));
    write_nodes(children, w, next);
    w.push_str("</");
    push_known_name(closing_name, w, Ghost(n));
    w.push_str(">");
    assert(w.stream() =~= s1 + (nodes_pieces(cv, next) + crate::view::output::static_text("</"@)
        + name_pieces(n) + crate::view::output::static_text(">"@)));
}

impl Element {
    /// Writes the element at nesting depth `depth`.
    pub fn write(self, w: &mut ViewWriter, depth: u64)
        ensures
            final(w).stream() == old(w).stream() + element_pieces(crate::view::ast::element_view(self), depth),
        decreases self, 1int,
    {
        match self {
            Element::Void { tag } => write_void(tag, w),
            Element::Normal { opening_tag, children, closing_tag } => {
                let OpeningTag { name, attributes } = opening_tag;
                proof {
                    vstd::std_specs::vec::axiom_vec_decreases_to_view(children);
                }
                match name {
                    ElementName::Expr(g) => write_bound(g, attributes, children, w, depth),
                    other => write_named(other, attributes, children, w, depth),
                }
            },
        }
    }
}

/// Writes the nodes in order, at nesting depth `depth`.
pub fn write_nodes(nodes: Vec<Node>, w: &mut ViewWriter, depth: u64)
    ensures
        final(w).stream() == old(w).stream() + nodes_pieces(crate::view::ast::nodes_view(nodes@), depth),
    decreases nodes, 3int,
{
    let ghost items = nodes@;
    let ghost orig = nodes;
    let mut rest = nodes;
    let total = rest.len();
    let mut rev: Vec<Node> = Vec::new();
    while rest.len() > 0
        invariant
            rest@.len() + rev@.len() == items.len(),
            rest@ == items.take(rest@.len() as int),
            forall|k: int| 0 <= k < rev@.len() ==> rev@[k] == items[items.len() - 1 - k],
        decreases rest@.len(),
    {
        let a = rest.pop().unwrap();
        rev.push(a);
        assert(rest@ =~= items.take(rest@.len() as int));
    }
    let ghost start = w.stream();
    let mut done: usize = 0;
    assert(crate::view::ast::nodes_view(items.take(0)) =~= Seq::<NodeV>::empty());
    while rev.len() > 0
        invariant
            rev@.len() + done == items.len(),
            items.len() == total,
            items == orig@,
            orig == nodes,
            forall|k: int| 0 <= k < rev@.len() ==> rev@[k] == items[items.len() - 1 - k],
            w.stream() == start + nodes_pieces(crate::view::ast::nodes_view(items.take(done as int)), depth),
        decreases rev@.len(),
    {
        let a = rev.pop().unwrap();
        assert(a == items[done as int]);
        proof {
            vstd::std_specs::vec::axiom_vec_index_decreases(orig, done as int);
        }
        a.write(w, depth);
        proof {
            let pre = items.take(done as int);
            let post = items.take(done + 1);
            assert(post.drop_last() =~= pre);
            assert(post.last() == items[done as int]);
            let vpost = crate::view::ast::nodes_view(post);
            assert(vpost == crate::view::ast::nodes_view(pre).push(crate::view::ast::node_view(a)));
            assert(vpost.drop_last() =~= crate::view::ast::nodes_view(pre));
            assert(vpost.last() == crate::view::ast::node_view(a));
            assert(nodes_pieces(vpost, depth) == nodes_pieces(crate::view::ast::nodes_view(pre), depth)
                + node_pieces(crate::view::ast::node_view(a), depth));
        }
        done = done + 1;
        assert(w.stream() =~= start + nodes_pieces(crate::view::ast::nodes_view(items.take(done as int)), depth));
    }
    assert(items.take(items.len() as int) =~= items);
}

impl Node {
    /// Writes the node at nesting depth `depth`.
    pub fn write(self, w: &mut ViewWriter, depth: u64)
        ensures
            final(w).stream() == old(w).stream() + node_pieces(crate::view::ast::node_view(self), depth),
        decreases self, 2int,
    {
        match self {
            Node::Element(e) => {
                let e = *e;
                e.write(w, depth);
            },
            Node::Text(t) => write_literal(t, w),
            Node::Expr(x) => x.write(w),
            Node::Block(b) => {
                proof {
                    vstd::std_specs::vec::axiom_vec_decreases_to_view(b.children);
                }
                b.write(w, depth)
            },
            Node::Let(l) => l.write(w),
            Node::If(i) => {
                let i = *i;
                i.write(w);
                assert(old(w).stream() + Seq::<Piece>::empty() =~= old(w).stream());
            },
        }
    }
}

impl NodeExpr {
    /// Writes the text of the view the expression computes, as it is.
    pub fn write(self, w: &mut ViewWriter)
        ensures
            final(w).stream() == old(w).stream() + seq![Piece::Expr(ExprSrcV::ViewOf(self.expr), false)],
    {
        w.push_expr(ExprSrc::ViewOf(self.expr));
    }
}

impl NodeBlock {
    /// Writes the block's nodes in order.
    pub fn write(self, w: &mut ViewWriter, depth: u64)
        ensures
            final(w).stream() == old(w).stream() + nodes_pieces(crate::view::ast::nodes_view(self.children@), depth),
        decreases self, 1int,
    {
        write_nodes(self.children, w, depth);
    }
}

impl NodeLet {
    /// Writes the `let` statement.
    pub fn write(self, w: &mut ViewWriter)
        ensures
            final(w).stream() == old(w).stream() + seq![Piece::Stmt(self.tokens@)],
    {
        w.write_stmt(self.tokens);
    }
}

impl NodeIf {
    /// An `if` node writes nothing.
    pub fn write(self, w: &mut ViewWriter)
        ensures
            final(w).stream() == old(w).stream(),
    {
    }
}

impl View {
    /// The code the view compiles to: its nodes written in order, from the top level. A view
    /// that writes nothing but static text compiles to a constant string.
    pub fn to_tokens(self) -> (r: ViewOutput)
        ensures
            nodes_pieces(crate::view::ast::nodes_view(self.nodes@), 0) == match r {
                ViewOutput::Constant(s) => crate::view::output::static_text(s@),
                ViewOutput::Built { body, .. } => crate::view::output::flatten(body@),
            },
            (r is Constant) == crate::view::output::all_text(nodes_pieces(crate::view::ast::nodes_view(self.nodes@), 0)),
    {
        let mut w = ViewWriter::new();
        write_nodes(self.nodes, &mut w, 0);
        assert(w.stream() =~= nodes_pieces(crate::view::ast::nodes_view(self.nodes@), 0));
        w.to_tokens()
    }
}

/// The tokens an attribute value stands for when passed on as an expression: an expression
/// in braces (`{ expr }`), or the value's own tokens.
pub open spec fn value_tokens(v: AttributeValueV) -> Seq<TokenTree> {
    match v {
        AttributeValueV::Expr(g) => match g {
            TokenTree::Group { stream, parses_as_expr, .. } => seq![TokenTree::Group {
                delimiter: crate::view::tokens::Delimiter::Brace,
                stream,
                parses_as_expr,
                parses_as_args: parses_as_expr,
            }],
            _ => seq![g],
        },
        AttributeValueV::LitStr(t) => seq![t],
        AttributeValueV::LitInt(t) => seq![t],
        AttributeValueV::LitFloat(t) => seq![t],
        AttributeValueV::LitBool(t) => seq![t],
        AttributeValueV::Path(p) => p,
        AttributeValueV::Call(p, a) => p.push(a),
        AttributeValueV::Macro(p, b) => p.push(TokenTree::Punct('!', crate::view::tokens::Spacing::Alone)).push(b),
    }
}

impl AttributeValue {
    /// The value as an expression's tokens: a parenthesized expression becomes a block
    /// `{ expr }`, anything else stays as written.
    pub fn into_tokens(self) -> (r: Vec<TokenTree>)
        ensures
            r@ == value_tokens(self@),
    {
        match self {
            AttributeValue::Expr(g) => {
                let t = match g {
                    TokenTree::Group { stream, parses_as_expr, .. } => TokenTree::Group {
                        delimiter: crate::view::tokens::Delimiter::Brace,
                        stream,
                        parses_as_expr,
                        parses_as_args: parses_as_expr,
                    },
                    other => other,
                };
                let mut v = Vec::new();
                v.push(t);
                v
            },
            AttributeValue::LitStr(t) | AttributeValue::LitInt(t) | AttributeValue::LitFloat(t) | AttributeValue::LitBool(t) => {
                let mut v = Vec::new();
                v.push(t);
                assert(v@ =~= seq![t]);
                v
            },
            AttributeValue::Path(p) => p,
            AttributeValue::Call { func, args } => {
                let mut v = func;
                v.push(args);
                v
            },
            AttributeValue::Macro { path, body } => {
                let mut v = path;
                v.push(TokenTree::Punct('!', crate::view::tokens::Spacing::Alone));
                v.push(body);
                v
            },
        }
    }
}

/// How an element name reads in messages: its text, or `<expr>` for an expression.
pub open spec fn display_name(n: ElementName) -> Seq<char> {
    match crate::view::ast::name_text(n) {
        Some(t) => t,
        None => "<expr>"@,
    }
}

impl ElementName {
    /// The name as messages show it: its text, or `<expr>` for an expression.
    pub fn to_display_string(&self) -> (r: String)
        ensures
            r@ == display_name(*self),
    {
        match self.string_name() {
            Some(s) => s,
            None => String::from_str("<expr>"),
        }
    }
}

/// A string-literal attribute value is written as text, HTML-escaped: the attribute writes
/// only static text, `name="`, the escaped value of the literal, then `"`. The text between
/// the quotes holds none of `<`, `>`, `"` and `'`, so a value can neither end the attribute
/// early nor open a tag.
pub proof fn lemma_literal_attribute_is_escaped(a: AttributeV)
    requires
        a.value matches AttributeValueV::LitStr(TokenTree::Literal { kind: LitKind::Str(_), .. }),
    ensures
        match a.value {
            AttributeValueV::LitStr(TokenTree::Literal { kind: LitKind::Str(v), .. }) => {
                let between = crate::view::escape::escape_html(v@);
                &&& attr_pieces(a) == crate::view::output::static_text(
                    ident_text(a.name) + seq!['=', '"'] + between + seq!['"'],
                )
                &&& forall|i: int| 0 <= i < between.len() ==> !crate::view::escape::markup_char(
                    #[trigger] between[i],
                )
            },
            _ => true,
        },
{
    match a.value {
        AttributeValueV::LitStr(TokenTree::Literal { kind: LitKind::Str(v), .. }) => {
            let between = crate::view::escape::escape_html(v@);
            reveal_strlit("=\"");
            reveal_strlit("\"");
            assert("=\""@ =~= seq!['=', '"']);
            assert("\""@ =~= seq!['"']);
            let head = ident_text(a.name) + seq!['=', '"'];
            crate::view::output::lemma_text_concat(head, between);
            crate::view::output::lemma_text_concat(head + between, seq!['"']);
            crate::view::escape::lemma_escape_no_markup(v@);
        },
        _ => {},
    }
}

} // verus!
