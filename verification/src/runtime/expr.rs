//! Expression nodes. Each can write itself as a JavaScript fragment; read-position nodes can
//! also be evaluated on the server.
use vstd::prelude::*;
use crate::text::push_char;

verus! {

/// The state that server-side evaluation runs in.
pub struct Interpreter {
    _priv: (),
}

impl Interpreter {
    /// A fresh interpreter.
    pub fn new() -> Self {
        Interpreter { _priv: () }
    }
}

/// A reactive expression. `eval` runs server-side for read-position nodes; `to_js` emits a
/// JavaScript fragment that the browser compiles.
pub trait Expr: Sized {
    /// The type of the expression's value.
    type Output;

    /// The JavaScript fragment of the expression.
    spec fn js(&self) -> Seq<char>;

    /// The expression can be evaluated on the server: handler bodies cannot.
    spec fn evaluable(&self) -> bool;

    /// The expression's value, where it can be evaluated on the server.
    spec fn value(&self) -> Self::Output;

    /// Evaluates the expression on the server.
    fn eval(self, interp: &mut Interpreter) -> (r: Self::Output)
        requires
            self.evaluable(),
        ensures
            r == self.value(),
    ;

    /// Appends the expression's JavaScript fragment to `out`.
    fn to_js(&self, out: &mut String)
        ensures
            final(out)@ == old(out)@ + self.js(),
    ;
}

/// Turns a value into an expression.
pub trait IntoExpr {
    /// The expression the value becomes.
    type Expr;

    /// The expression that stands for `self`.
    fn into_expr(self) -> Self::Expr;
}

/// Reading through a dereferenced place (such as a signal) on the server.
pub trait ExprDerefTarget {
    /// The type read.
    type Target;

    /// The value read from `self`.
    spec fn deref_value(&self) -> Self::Target;

    /// Reads through `self`.
    fn expr_deref(self) -> (r: Self::Target)
        ensures
            r == self.deref_value(),
    ;
}

/// Counterpart to [`ExprDerefTarget`] for write positions. Assignment only happens in the
/// browser, from inside an event handler.
pub trait ExprDerefAssignTarget {
    /// The type written.
    type Value;
}

/// The text `(`, the inner fragment, then `)()`: in JavaScript, signal handles are
/// callable, and reading is a call.
pub struct ExprDeref<E> {
    inner: E,
}

impl<E> ExprDeref<E> {
    /// Reads through `inner`.
    pub fn new(inner: E) -> (r: Self)
        ensures
            r.inner() == inner,
    {
        ExprDeref { inner }
    }

    /// The expression read through.
    pub closed spec fn inner(&self) -> E {
        self.inner
    }
}

impl<E> Expr for ExprDeref<E> where E: Expr, E::Output: ExprDerefTarget {
    type Output = <E::Output as ExprDerefTarget>::Target;

    open spec fn js(&self) -> Seq<char> {
        seq!['('] + self.inner().js() + seq![')', '(', ')']
    }

    open spec fn evaluable(&self) -> bool {
        self.inner().evaluable()
    }

    open spec fn value(&self) -> Self::Output {
        self.inner().value().deref_value()
    }

    fn eval(self, interp: &mut Interpreter) -> (r: Self::Output) {
        self.inner.eval(interp).expr_deref()
    }

    fn to_js(&self, out: &mut String) {
        push_char(out, '(');
        self.inner.to_js(out);
        out.append(")()");
        proof {
            reveal_strlit(")()");
        }
        assert(out@ =~= old(out)@ + self.js());
    }
}

/// Assignment through a dereferenced place: `*place = value`. In JavaScript, signal handles
/// have `.set(value)` for writes. It only runs in the browser.
pub struct ExprAssignDeref<P, V> {
    place: P,
    value: V,
}

impl<P, V> ExprAssignDeref<P, V> {
    /// Assigns `value` through `place`.
    pub fn new(place: P, value: V) -> (r: Self)
        ensures
            r.place() == place,
            r.assigned() == value,
    {
        ExprAssignDeref { place, value }
    }

    /// The place assigned through.
    pub closed spec fn place(&self) -> P {
        self.place
    }

    /// The value assigned.
    pub closed spec fn assigned(&self) -> V {
        self.value
    }
}

impl<P, V> Expr for ExprAssignDeref<P, V> where
    P: Expr,
    P::Output: ExprDerefAssignTarget,
    V: Expr<Output = <P::Output as ExprDerefAssignTarget>::Value>,
 {
    type Output = ();

    open spec fn js(&self) -> Seq<char> {
        seq!['('] + self.place().js() + seq![')', '.', 's', 'e', 't', '('] + self.assigned().js() + seq![')']
    }

    open spec fn evaluable(&self) -> bool {
        false
    }

    open spec fn value(&self) -> () {
        ()
    }

    fn eval(self, _interp: &mut Interpreter) -> (r: ()) {
    }

    fn to_js(&self, out: &mut String) {
        push_char(out, '(');
        self.place.to_js(out);
        out.append(").set(");
        proof {
            reveal_strlit(").set(");
        }
        self.value.to_js(out);
        push_char(out, ')');
        assert(out@ =~= old(out)@ + self.js());
    }
}

/// The JavaScript of `*place = value` calls `.set` on the place's own fragment, with the
/// value's fragment as its argument: `(`, the place, `).set(`, the value, `)`.
pub proof fn lemma_assign_js<P, V>(place: P, value: V, e: ExprAssignDeref<P, V>)
    where
        P: Expr,
        P::Output: ExprDerefAssignTarget,
        V: Expr<Output = <P::Output as ExprDerefAssignTarget>::Value>,
    requires
        e.place() == place,
        e.assigned() == value,
    ensures
        e.js().len() == place.js().len() + value.js().len() + 8,
        e.js().subrange(0, place.js().len() + 1int) == seq!['('] + place.js(),
        e.js().subrange(place.js().len() + 1int, place.js().len() + 7int) == seq![')', '.', 's', 'e', 't', '('],
        e.js().subrange(place.js().len() + 7int, e.js().len() - 1int) == value.js(),
        e.js().last() == ')',
{
    let j = e.js();
    let a: int = place.js().len() as int;
    assert(j.subrange(0, a + 1) =~= seq!['('] + place.js());
    assert(j.subrange(a + 1, a + 7) =~= seq![')', '.', 's', 'e', 't', '(']);
    assert(j.subrange(a + 7, j.len() - 1) =~= value.js());
}

/// A `receiver.field` access on a handler-internal value. It only runs in the browser.
pub struct ExprField<R, T> {
    receiver: R,
    name: &'static str,
    _phantom: core::marker::PhantomData<T>,
}

impl<R, T> ExprField<R, T> where R: Expr {
    /// Accesses the field `name` of `receiver`. The accessor only lets the compiler infer
    /// the field's type; it is never called.
    pub fn new<F>(receiver: R, name: &'static str, _accessor: F) -> (r: Self) where F: FnOnce(R::Output) -> T
        ensures
            r.receiver() == receiver,
            r.name() == name@,
    {
        ExprField { receiver, name, _phantom: core::marker::PhantomData }
    }

    /// The expression whose field is read.
    pub closed spec fn receiver(&self) -> R {
        self.receiver
    }

    /// The field's name.
    pub closed spec fn name(&self) -> Seq<char> {
        self.name@
    }
}

impl<R, T> Expr for ExprField<R, T> where R: Expr {
    type Output = T;

    open spec fn js(&self) -> Seq<char> {
        seq!['('] + self.receiver().js() + seq![')', '.'] + self.name()
    }

    open spec fn evaluable(&self) -> bool {
        false
    }

    open spec fn value(&self) -> T {
        vstd::pervasive::arbitrary()
    }

    fn eval(self, _interp: &mut Interpreter) -> (r: T) {
        vstd::pervasive::unreached()
    }

    fn to_js(&self, out: &mut String) {
        push_char(out, '(');
        self.receiver.to_js(out);
        push_char(out, ')');
        push_char(out, '.');
        out.append(self.name);
        assert(out@ =~= old(out)@ + self.js());
    }
}


/// References a closure parameter by name. It only runs in the browser.
pub struct ExprParam<T> {
    name: &'static str,
    _phantom: core::marker::PhantomData<T>,
}

impl<T> ExprParam<T> {
    /// The parameter named `name`.
    pub fn new(name: &'static str) -> (r: Self)
        ensures
            r.name() == name@,
    {
        ExprParam { name, _phantom: core::marker::PhantomData }
    }

    /// The parameter's name.
    pub closed spec fn name(&self) -> Seq<char> {
        self.name@
    }
}

impl<T> Expr for ExprParam<T> {
    type Output = T;

    open spec fn js(&self) -> Seq<char> {
        self.name()
    }

    open spec fn evaluable(&self) -> bool {
        false
    }

    open spec fn value(&self) -> T {
        vstd::pervasive::arbitrary()
    }

    fn eval(self, _interp: &mut Interpreter) -> (r: T) {
        vstd::pervasive::unreached()
    }

    fn to_js(&self, out: &mut String) {
        out.append(self.name);
    }
}

/// The names in `names`, joined with `, `.
pub open spec fn join_params(names: Seq<Seq<char>>) -> Seq<char>
    decreases names.len(),
{
    if names.len() == 0 {
        Seq::empty()
    } else if names.len() == 1 {
        names[0]
    } else {
        join_params(names.drop_last()) + seq![',', ' '] + names.last()
    }
}

/// A handler closure `|p1, p2, ...| body`, whose body is a statement. It only runs in the
/// browser.
pub struct ExprClosure<Body> {
    params: &'static [&'static str],
    body: Body,
}

impl<Body> ExprClosure<Body> {
    /// The closure with parameters `params` and body `body`.
    pub fn new(params: &'static [&'static str], body: Body) -> (r: Self)
        ensures
            r.params() == params@.map_values(|p: &'static str| p@),
            r.body() == body,
    {
        ExprClosure { params, body }
    }

    /// The parameters' names.
    pub closed spec fn params(&self) -> Seq<Seq<char>> {
        self.params@.map_values(|p: &'static str| p@)
    }

    /// The closure's body.
    pub closed spec fn body(&self) -> Body {
        self.body
    }
}

impl<Body> Expr for ExprClosure<Body> where Body: Expr<Output = ()> {
    type Output = ();

    open spec fn js(&self) -> Seq<char> {
        seq!['(', '('] + join_params(self.params()) + seq![')', ' ', '=', '>', ' ', '{', ' '] + self.body().js()
            + seq![';', ' ', '}', ')']
    }

    open spec fn evaluable(&self) -> bool {
        false
    }

    open spec fn value(&self) -> () {
        ()
    }

    fn eval(self, _interp: &mut Interpreter) -> (r: ()) {
    }

    fn to_js(&self, out: &mut String) {
        let ghost start = out@;
        out.append("((");
        proof {
            reveal_strlit("((");
        }
        let ghost names = self.params();
        let mut i: usize = 0;
        while i < self.params.len()
            invariant
                i <= self.params@.len(),
                names == self.params@.map_values(|p: &'static str| p@),
                out@ == start + seq!['(', '('] + join_params(names.subrange(0, i as int)),
            decreases self.params@.len() - i,
        {
            let ghost before = out@;
            if i > 0 {
                out.append(", ");
                proof {
                    reveal_strlit(", ");
                }
            }
            out.append(self.params[i]);
            proof {
                let sub = names.subrange(0, i + 1);
                assert(sub.drop_last() =~= names.subrange(0, i as int));
                if i == 0 {
                    assert(join_params(sub) == names[0]);
                }
            }
            assert(out@ =~= start + seq!['(', '('] + join_params(names.subrange(0, i + 1)));
            i = i + 1;
        }
        assert(names.subrange(0, i as int) =~= names);
        out.append(") => { ");
        proof {
            reveal_strlit(") => { ");
        }
        self.body.to_js(out);
        out.append("; })");
        proof {
            reveal_strlit("; })");
        }
        assert(out@ =~= start + self.js());
    }
}

/// A literal value; its JavaScript fragment is its JSON text.
pub struct ExprLit<T> {
    value: T,
}

impl<T> ExprLit<T> {
    /// The literal `value`.
    pub fn new(value: T) -> (r: Self)
        ensures
            r.literal() == value,
    {
        ExprLit { value }
    }

    /// The literal's value.
    pub closed spec fn literal(&self) -> T {
        self.value
    }
}

/// The lowercase hexadecimal digit of `n`, for `0 <= n < 16`.
pub open spec fn hex_digit(n: int) -> char {
    if n < 10 {
        (48 + n) as char
    } else {
        (87 + n) as char
    }
}

/// How serde_json writes the character `c` inside a JSON string: `"` and `\` after a
/// backslash; backspace, tab, line feed, form feed and carriage return as `\b`, `\t`, `\n`,
/// `\f`, `\r`; any other character below U+0020 as `\u00` and two lowercase hex digits;
/// every other character as it is.
pub open spec fn json_escape_char(c: char) -> Seq<char> {
    if c == '"' {
        seq!['\\', '"']
    } else if c == '\\' {
        seq!['\\', '\\']
    } else if c == '\u{8}' {
        seq!['\\', 'b']
    } else if c == '\t' {
        seq!['\\', 't']
    } else if c == '\n' {
        seq!['\\', 'n']
    } else if c == '\u{c}' {
        seq!['\\', 'f']
    } else if c == '\r' {
        seq!['\\', 'r']
    } else if (c as int) < 0x20 {
        seq!['\\', 'u', '0', '0', hex_digit(c as int / 16), hex_digit(c as int % 16)]
    } else {
        seq![c]
    }
}

/// The characters of `s`, each written as [`json_escape_char`] gives.
pub open spec fn json_escaped(s: Seq<char>) -> Seq<char>
    decreases s.len(),
{
    if s.len() == 0 {
        Seq::empty()
    } else {
        json_escaped(s.drop_last()) + json_escape_char(s.last())
    }
}

/// The JSON text of the string `s`, as serde_json writes it: `s` escaped, in double quotes.
pub open spec fn json_string(s: Seq<char>) -> Seq<char> {
    seq!['"'] + json_escaped(s) + seq!['"']
}

/// Calls `serde_json::to_string` on a string. The contract claims what serde_json's string
/// serializer does: the string in double quotes, with quotes, backslashes and control
/// characters escaped as [`json_escape_char`] says. Serializing a string cannot fail.
#[verifier::external_body]
fn to_json_string(s: &str) -> (r: String)
    ensures
        r@ == json_string(s@),
{
    match serde_json::to_string(s) {
        Ok(j) => j,
        Err(_) => String::new(),
    }
}

/// The JSON text of a boolean.
pub open spec fn json_bool(b: bool) -> Seq<char> {
    if b {
        seq!['t', 'r', 'u', 'e']
    } else {
        seq!['f', 'a', 'l', 's', 'e']
    }
}

impl Expr for ExprLit<bool> {
    type Output = bool;

    open spec fn js(&self) -> Seq<char> {
        json_bool(self.literal())
    }

    open spec fn evaluable(&self) -> bool {
        true
    }

    open spec fn value(&self) -> bool {
        self.literal()
    }

    fn eval(self, _interp: &mut Interpreter) -> (r: bool) {
        self.value
    }

    fn to_js(&self, out: &mut String) {
        if self.value {
            out.append("true");
            proof {
                reveal_strlit("true");
            }
        } else {
            out.append("false");
            proof {
                reveal_strlit("false");
            }
        }
    }
}

impl Expr for ExprLit<&'static str> {
    type Output = &'static str;

    open spec fn js(&self) -> Seq<char> {
        json_string(self.literal()@)
    }

    open spec fn evaluable(&self) -> bool {
        true
    }

    open spec fn value(&self) -> &'static str {
        self.literal()
    }

    fn eval(self, _interp: &mut Interpreter) -> (r: &'static str) {
        self.value
    }

    fn to_js(&self, out: &mut String) {
        let json = to_json_string(self.value);
        out.append(json.as_str());
    }
}

impl IntoExpr for bool {
    type Expr = ExprLit<bool>;

    fn into_expr(self) -> (r: ExprLit<bool>)
        ensures
            r.literal() == self,
    {
        ExprLit::new(self)
    }
}

impl IntoExpr for &'static str {
    type Expr = ExprLit<&'static str>;

    fn into_expr(self) -> (r: ExprLit<&'static str>)
        ensures
            r.literal() == self,
    {
        ExprLit::new(self)
    }
}

} // verus!
