//! Expressions shared between server rendering and the browser: a value paired with the
//! JavaScript that computes it there.
use vstd::prelude::*;
use crate::view::runtime::Formatter;

verus! {

/// A value together with the JavaScript that computes it in the browser.
#[derive(Debug, Clone)]
pub struct Expr<T> {
    value: T,
    js: String,
}

impl<T> Expr<T> {
    /// The expression computed by `js` whose server-side value is `value`.
    pub fn new(js: String, value: T) -> (r: Self)
        ensures
            r.js_text() == js@,
            r.value_spec() == value,
    {
        Expr { value, js }
    }

    /// The expression's JavaScript.
    pub closed spec fn js_text(&self) -> Seq<char> {
        self.js@
    }

    /// The expression's server-side value.
    pub closed spec fn value_spec(&self) -> T {
        self.value
    }

    /// The expression's JavaScript.
    pub fn js(&self) -> (r: &str)
        ensures
            r@ == self.js_text(),
    {
        self.js.as_str()
    }

    /// The expression's server-side value.
    pub fn value(&self) -> (r: &T)
        ensures
            *r == self.value_spec(),
    {
        &self.value
    }

    /// The expression's server-side value, taken out of it.
    pub fn into_value(self) -> (r: T)
        ensures
            r == self.value_spec(),
    {
        self.value
    }
}

/// An expression node whose value has a type.
pub trait Eval {
    /// The type of the node's value.
    type Output;
}

/// An expression node that writes itself as JavaScript into a formatter, escaped.
pub trait FmtJs {
    /// The node's JavaScript.
    spec fn js_text(&self) -> Seq<char>;

    /// Writes the node's JavaScript, escaped.
    fn fmt_js(&self, f: &mut Formatter)
        ensures
            final(f)@ == old(f)@ + crate::view::escape::escape_html(self.js_text()),
    ;
}

/// A value known only by its type.
pub struct ExprValue<T> {
    inner: core::marker::PhantomData<T>,
}

impl<T> ExprValue<T> {
    /// The node for a value of type `T`.
    pub fn new(inner: core::marker::PhantomData<T>) -> (r: Self) {
        ExprValue { inner }
    }
}

impl<T> Eval for ExprValue<T> {
    type Output = T;
}

/// Turns a value into an expression node.
pub trait ToExpr {
    /// The node the value becomes.
    type Expr;

    /// The node that stands for `value`.
    fn to_expr(value: &Self) -> Self::Expr;
}

impl ToExpr for &'static str {
    type Expr = ExprValue<&'static str>;

    fn to_expr(value: &Self) -> ExprValue<&'static str> {
        ExprValue::new(core::marker::PhantomData)
    }
}

/// A `receiver.field` access.
pub struct ExprField<R, T> {
    receiver: R,
    name: &'static str,
    _phantom: core::marker::PhantomData<T>,
}

impl<R, T> ExprField<R, T> where R: Eval {
    /// Accesses the field `name` of `receiver`. The accessor only lets the compiler infer
    /// the field's type; it is never called.
    pub fn new<F>(receiver: R, name: &'static str, _accessor: F) -> (r: Self) where F: FnOnce(R::Output) -> T
        ensures
            r.receiver() == receiver,
            r.name() == name@,
    {
        ExprField { receiver, name, _phantom: core::marker::PhantomData }
    }
}

impl<R, T> ExprField<R, T> {
    /// The node whose field is read.
    pub closed spec fn receiver(&self) -> R {
        self.receiver
    }

    /// The field's name.
    pub closed spec fn name(&self) -> Seq<char> {
        self.name@
    }
}

impl<R, T> Eval for ExprField<R, T> where R: Eval {
    type Output = T;
}

impl<R, T> FmtJs for ExprField<R, T> where R: FmtJs {
    open spec fn js_text(&self) -> Seq<char> {
        seq!['('] + self.receiver().js_text() + seq![')', '.'] + self.name()
    }

    fn fmt_js(&self, f: &mut Formatter) {
        f.write_char('(');
        self.receiver.fmt_js(f);
        f.write_str(").");
        f.write_str(self.name);
        proof {
            reveal_strlit(").");
            let open = seq!['('];
            let close = seq![')', '.'];
            crate::view::escape::lemma_escape_single('(');
            crate::view::escape::lemma_escape_plain(close);
            crate::view::escape::lemma_escape_concat(open, self.receiver().js_text());
            crate::view::escape::lemma_escape_concat(open + self.receiver().js_text(), close);
            crate::view::escape::lemma_escape_concat(open + self.receiver().js_text() + close, self.name());
            assert(")."@ =~= close);
        }
        assert(f@ =~= old(f)@ + crate::view::escape::escape_html(self.js_text()));
    }
}

} // verus!
