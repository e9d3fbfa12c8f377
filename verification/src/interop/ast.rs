//! The `expr! { ... }` syntax and its lowering to runtime expression nodes.
//!
//! A source expression is held as the shapes the lowering reads; only a whitelist of
//! shapes is supported, and everything else is refused with an error.
use vstd::prelude::*;

verus! {

/// A closure parameter as the user wrote it.
pub enum ClosureInput {
    /// A bare name: `|e|`.
    Ident(String),
    /// A pattern with a type: `|e: Event|`. `name` is the pattern's name where the pattern
    /// is a bare name; `ty` is the type as written.
    Typed { name: Option<String>, ty: String },
    /// Any other pattern, such as a tuple or a wildcard.
    Other,
}

/// A source expression, by the shapes that the lowering reads.
pub enum SourceExpr {
    /// `left = right`.
    Assign { left: Box<SourceExpr>, right: Box<SourceExpr> },
    /// `|inputs| body`.
    Closure { inputs: Vec<ClosureInput>, body: Box<SourceExpr> },
    /// `base.member`; `member` is `None` for a tuple index such as `base.0`.
    Field { base: Box<SourceExpr>, member: Option<String> },
    /// A literal, as written.
    Lit(String),
    /// `receiver.method::<..>(args)`: whether a turbofish was written and how many
    /// arguments were passed.
    MethodCall { receiver: Box<SourceExpr>, method: String, turbofish: bool, args: usize },
    /// `(inner)`.
    Paren(Box<SourceExpr>),
    /// A path; `Some(name)` where the path is a single identifier.
    Path(Option<String>),
    /// A unary operation; `deref` tells `*inner` from `!inner` and `-inner`.
    Unary { deref: bool, inner: Box<SourceExpr> },
    /// Any other expression.
    Other,
}

/// A parameter bound by a lowered closure: its name and the type the user annotated.
pub struct BoundParam {
    pub name: String,
    pub ty: Option<String>,
}

/// A lowered expression: the runtime node each supported shape becomes.
pub enum Lowered {
    /// `IntoExpr::into_expr(name)`.
    Ident(String),
    /// `ExprValue::new(literal)`.
    Value(String),
    /// `ExprField::new(receiver, "name", |r| r.name)`.
    Field { receiver: Box<Lowered>, name: String },
    /// `ExprMethodCall::new(receiver, "method", |r| r.method())`.
    MethodCall { receiver: Box<Lowered>, method: String },
    /// `ExprDeref::new(inner)`.
    Deref(Box<Lowered>),
    /// `ExprAssignDeref::new(place, value)`.
    AssignDeref { place: Box<Lowered>, value: Box<Lowered> },
    /// `ExprClosure::new((&p1, ..), body)` after one `ExprParam` binding per parameter.
    Closure { params: Vec<BoundParam>, body: Box<Lowered> },
}

/// Why an expression could not be lowered.
#[derive(Clone, Copy, Debug, PartialEq, Eq, Structural)]
pub enum LowerError {
    /// A shape outside the whitelist.
    Unsupported,
    /// A closure parameter that is not a bare name (optionally typed).
    NotBareParam,
    /// A method call with a turbofish.
    Turbofish,
    /// A method call with arguments.
    MethodArgs,
    /// A tuple field access.
    TupleField,
    /// An assignment whose left side is not `*place`.
    AssignTarget,
    /// A unary operator other than `*`.
    UnaryOp,
    /// A path that is not a single identifier.
    NotIdent,
}

impl LowerError {
    /// The message the macro reports.
    pub fn message(&self) -> (r: &'static str)
        ensures
            r@ == match self {
                LowerError::Unsupported => "unsupported expression"@,
                LowerError::NotBareParam => "expected a bare parameter name"@,
                LowerError::Turbofish => "turbofish on method calls is not supported"@,
                LowerError::MethodArgs => "method arguments are not supported"@,
                LowerError::TupleField => "tuple field access is not supported"@,
                LowerError::AssignTarget => "only `*place = value` assignments are supported"@,
                LowerError::UnaryOp => "unsupported unary operator"@,
                LowerError::NotIdent => "expected a bare identifier"@,
            },
    {
        match self {
            LowerError::Unsupported => "unsupported expression",
            LowerError::NotBareParam => "expected a bare parameter name",
            LowerError::Turbofish => "turbofish on method calls is not supported",
            LowerError::MethodArgs => "method arguments are not supported",
            LowerError::TupleField => "tuple field access is not supported",
            LowerError::AssignTarget => "only `*place = value` assignments are supported",
            LowerError::UnaryOp => "unsupported unary operator",
            LowerError::NotIdent => "expected a bare identifier",
        }
    }
}

/// The parameter a closure input binds, or `None` where it is not a bare name.
pub open spec fn input_name(input: ClosureInput) -> Option<Seq<char>> {
    match input {
        ClosureInput::Ident(name) => Some(name@),
        ClosureInput::Typed { name: Some(name), .. } => Some(name@),
        _ => None,
    }
}

/// The bound parameter a closure input lowers to.
pub open spec fn binds(input: ClosureInput, p: BoundParam) -> bool {
    match input {
        ClosureInput::Ident(name) => p.name@ == name@ && p.ty is None,
        ClosureInput::Typed { name: Some(name), ty } =>
            p.name@ == name@ && (p.ty matches Some(t) && t@ == ty@),
        _ => false,
    }
}

/// The first error that lowering `e` meets, in the order the lowering checks; `None` when
/// `e` is made of supported shapes only.
pub open spec fn lower_error(e: SourceExpr) -> Option<LowerError>
    decreases e,
{
    match e {
        SourceExpr::Assign { left, right } => match *left {
            SourceExpr::Unary { deref: true, inner } => {
                if lower_error(*inner) is Some {
                    lower_error(*inner)
                } else {
                    lower_error(*right)
                }
            },
            _ => Some(LowerError::AssignTarget),
        },
        SourceExpr::Closure { inputs, body } => {
            if exists|i: int| 0 <= i < inputs@.len() && #[trigger] input_name(inputs@[i]) is None {
                Some(LowerError::NotBareParam)
            } else {
                lower_error(*body)
            }
        },
        SourceExpr::Field { base, member } => {
            if lower_error(*base) is Some {
                lower_error(*base)
            } else if member is None {
                Some(LowerError::TupleField)
            } else {
                None
            }
        },
        SourceExpr::Lit(_) => None,
        SourceExpr::MethodCall { receiver, turbofish, args, .. } => {
            if turbofish {
                Some(LowerError::Turbofish)
            } else if args > 0 {
                Some(LowerError::MethodArgs)
            } else {
                lower_error(*receiver)
            }
        },
        SourceExpr::Paren(inner) => lower_error(*inner),
        SourceExpr::Path(name) => if name is Some { None } else { Some(LowerError::NotIdent) },
        SourceExpr::Unary { deref, inner } => {
            if deref { lower_error(*inner) } else { Some(LowerError::UnaryOp) }
        },
        SourceExpr::Other => Some(LowerError::Unsupported),
    }
}

/// `l` is what the supported expression `e` lowers to: parentheses are dropped, and each
/// other shape becomes its runtime node with its parts lowered in turn.
pub open spec fn lowers_to(e: SourceExpr, l: Lowered) -> bool
    decreases e,
{
    match e {
        SourceExpr::Assign { left, right } => match *left {
            SourceExpr::Unary { deref: true, inner } => match l {
                Lowered::AssignDeref { place, value } =>
                    lowers_to(*inner, *place) && lowers_to(*right, *value),
                _ => false,
            },
            _ => false,
        },
        SourceExpr::Closure { inputs, body } => match l {
            Lowered::Closure { params, body: lowered_body } => {
                &&& params@.len() == inputs@.len()
                &&& forall|i: int| 0 <= i < inputs@.len() ==> binds(#[trigger] inputs@[i], params@[i])
                &&& lowers_to(*body, *lowered_body)
            },
            _ => false,
        },
        SourceExpr::Field { base, member: Some(m) } => match l {
            Lowered::Field { receiver, name } => name@ == m@ && lowers_to(*base, *receiver),
            _ => false,
        },
        SourceExpr::Lit(text) => l matches Lowered::Value(v) && v@ == text@,
        SourceExpr::MethodCall { receiver, method, turbofish: false, args } => args == 0 && match l {
            Lowered::MethodCall { receiver: r, method: m } => m@ == method@ && lowers_to(*receiver, *r),
            _ => false,
        },
        SourceExpr::Paren(inner) => lowers_to(*inner, l),
        SourceExpr::Path(Some(name)) => l matches Lowered::Ident(n) && n@ == name@,
        SourceExpr::Unary { deref: true, inner } => match l {
            Lowered::Deref(i) => lowers_to(*inner, *i),
            _ => false,
        },
        _ => false,
    }
}

/// The closure inputs as bound parameters, or the error of the first input that is not a
/// bare name.
fn bind_params(inputs: &Vec<ClosureInput>) -> (r: Result<Vec<BoundParam>, LowerError>)
    ensures
        match r {
            Ok(params) => params@.len() == inputs@.len()
                && forall|i: int| 0 <= i < inputs@.len() ==> binds(#[trigger] inputs@[i], params@[i]),
            Err(err) => err == LowerError::NotBareParam
                && exists|i: int| 0 <= i < inputs@.len() && #[trigger] input_name(inputs@[i]) is None,
        },
        r is Ok <==> forall|i: int| 0 <= i < inputs@.len() ==> #[trigger] input_name(inputs@[i]) is Some,
{
    let mut params: Vec<BoundParam> = Vec::new();
    let mut i: usize = 0;
    while i < inputs.len()
        invariant
            i <= inputs@.len(),
            params@.len() == i,
            forall|j: int| 0 <= j < i ==> binds(#[trigger] inputs@[j], params@[j]),
            forall|j: int| 0 <= j < i ==> #[trigger] input_name(inputs@[j]) is Some,
        decreases inputs@.len() - i,
    {
        match &inputs[i] {
            ClosureInput::Ident(name) => {
                params.push(BoundParam { name: name.clone(), ty: None });
            },
            ClosureInput::Typed { name: Some(name), ty } => {
                params.push(BoundParam { name: name.clone(), ty: Some(ty.clone()) });
            },
            _ => {
                assert(input_name(inputs@[i as int]) is None);
                return Err(LowerError::NotBareParam);
            },
        }
        i = i + 1;
    }
    Ok(params)
}

/// Lowers one expression node, checking its shape against the whitelist.
pub fn dispatch(e: &SourceExpr) -> (r: Result<Lowered, LowerError>)
    ensures
        match r {
            Ok(l) => lower_error(*e) is None && lowers_to(*e, l),
            Err(err) => lower_error(*e) == Some(err),
        },
    decreases e,
{
    match e {
        SourceExpr::Assign { left, right } => {
            match &**left {
                SourceExpr::Unary { deref, inner } => {
                    if !*deref {
                        return Err(LowerError::AssignTarget);
                    }
                    let place = dispatch(inner)?;
                    let value = dispatch(right)?;
                    Ok(Lowered::AssignDeref { place: Box::new(place), value: Box::new(value) })
                },
                _ => Err(LowerError::AssignTarget),
            }
        },
        SourceExpr::Closure { inputs, body } => {
            let params = bind_params(inputs)?;
            let lowered_body = dispatch(body)?;
            Ok(Lowered::Closure { params, body: Box::new(lowered_body) })
        },
        SourceExpr::Field { base, member } => {
            let receiver = dispatch(base)?;
            match member {
                Some(name) => Ok(Lowered::Field { receiver: Box::new(receiver), name: name.clone() }),
                None => Err(LowerError::TupleField),
            }
        },
        SourceExpr::Lit(text) => Ok(Lowered::Value(text.clone())),
        SourceExpr::MethodCall { receiver, method, turbofish, args } => {
            if *turbofish {
                return Err(LowerError::Turbofish);
            }
            if *args > 0 {
                return Err(LowerError::MethodArgs);
            }
            let r = dispatch(receiver)?;
            Ok(Lowered::MethodCall { receiver: Box::new(r), method: method.clone() })
        },
        SourceExpr::Paren(inner) => dispatch(inner),
        SourceExpr::Path(name) => match name {
            Some(n) => Ok(Lowered::Ident(n.clone())),
            None => Err(LowerError::NotIdent),
        },
        SourceExpr::Unary { deref, inner } => {
            if !*deref {
                return Err(LowerError::UnaryOp);
            }
            let i = dispatch(inner)?;
            Ok(Lowered::Deref(Box::new(i)))
        },
        SourceExpr::Other => Err(LowerError::Unsupported),
    }
}

/// The top-level `expr! { ... }` input.
pub struct Expr {
    pub inner: SourceExpr,
}

impl Expr {
    /// The expression of the macro's input.
    pub fn new(inner: SourceExpr) -> (r: Self)
        ensures
            r.inner == inner,
    {
        Expr { inner }
    }

    /// Lowers the macro's input: `Ok` exactly when every shape in it is supported, with the
    /// runtime node tree it becomes; otherwise the first error met.
    pub fn expr_to_tokens(&self) -> (r: Result<Lowered, LowerError>)
        ensures
            match r {
                Ok(l) => lower_error(self.inner) is None && lowers_to(self.inner, l),
                Err(err) => lower_error(self.inner) == Some(err),
            },
    {
        dispatch(&self.inner)
    }
}

/// Only supported expressions lower: whatever has a lowering is free of errors. (That every
/// supported expression lowers is the contract of [`dispatch`].)
pub proof fn lemma_lowered_is_supported(e: SourceExpr, l: Lowered)
    requires
        lowers_to(e, l),
    ensures
        lower_error(e) is None,
    decreases e,
{
    match e {
        SourceExpr::Assign { left, right } => match *left {
            SourceExpr::Unary { deref: true, inner } => match l {
                Lowered::AssignDeref { place, value } => {
                    lemma_lowered_is_supported(*inner, *place);
                    lemma_lowered_is_supported(*right, *value);
                },
                _ => {},
            },
            _ => {},
        },
        SourceExpr::Closure { inputs, body } => match l {
            Lowered::Closure { params, body: lowered_body } => {
                assert forall|i: int| 0 <= i < inputs@.len() implies #[trigger] input_name(inputs@[i]) is Some by {
                    assert(binds(inputs@[i], params@[i]));
                }
                lemma_lowered_is_supported(*body, *lowered_body);
            },
            _ => {},
        },
        SourceExpr::Field { base, member: Some(m) } => match l {
            Lowered::Field { receiver, name } => lemma_lowered_is_supported(*base, *receiver),
            _ => {},
        },
        SourceExpr::MethodCall { receiver, method, turbofish: false, args } => match l {
            Lowered::MethodCall { receiver: r, method: m } => lemma_lowered_is_supported(*receiver, *r),
            _ => {},
        },
        SourceExpr::Paren(inner) => lemma_lowered_is_supported(*inner, l),
        SourceExpr::Unary { deref: true, inner } => match l {
            Lowered::Deref(i) => lemma_lowered_is_supported(*inner, *i),
            _ => {},
        },
        _ => {},
    }
}

/// `e` with any parentheses around it removed.
pub open spec fn unparenthesized(e: SourceExpr) -> SourceExpr
    decreases e,
{
    match e {
        SourceExpr::Paren(inner) => unparenthesized(*inner),
        _ => e,
    }
}

/// The runtime node `l` is the kind of node the source shape `e` stands for: a name becomes
/// `Ident` with that name, a literal `Value` with its text, a field read `Field`, a method
/// call `MethodCall`, `*inner` a `Deref`, `*place = value` an `AssignDeref`, a closure a
/// `Closure`.
pub open spec fn same_kind(e: SourceExpr, l: Lowered) -> bool {
    match e {
        SourceExpr::Path(Some(name)) => l matches Lowered::Ident(n) && n@ == name@,
        SourceExpr::Lit(text) => l matches Lowered::Value(v) && v@ == text@,
        SourceExpr::Field { member: Some(m), .. } => l matches Lowered::Field { name, .. } && name@ == m@,
        SourceExpr::MethodCall { method, .. } => l matches Lowered::MethodCall { method: m, .. } && m@ == method@,
        SourceExpr::Unary { deref: true, .. } => l is Deref,
        SourceExpr::Assign { .. } => l is AssignDeref,
        SourceExpr::Closure { .. } => l is Closure,
        _ => false,
    }
}

/// Lowering keeps the kind of every node: past any parentheses, a supported expression
/// becomes the runtime node of its own kind. In particular `*inner` becomes a `Deref` node
/// around the lowering of `inner`, so a read through a signal is never replaced by the
/// signal handle itself.
pub proof fn lemma_lowering_keeps_kind(e: SourceExpr, l: Lowered)
    requires
        lowers_to(e, l),
    ensures
        same_kind(unparenthesized(e), l),
        e matches SourceExpr::Unary { deref: true, inner } ==> (l matches Lowered::Deref(i) && lowers_to(
            *inner,
            *i,
        )),
    decreases e,
{
    match e {
        SourceExpr::Paren(inner) => lemma_lowering_keeps_kind(*inner, l),
        _ => {},
    }
}

} // verus!
