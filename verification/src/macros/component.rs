//! The `#[component]` attribute: it checks the annotated function and turns it into a struct
//! of its arguments with a `Component` impl that calls the function.
use vstd::prelude::*;

verus! {

/// The arguments of `#[component]`: it takes none, and accepts any input.
pub struct ComponentAttr {}

impl ComponentAttr {
    /// The attribute's arguments; there are none to read.
    pub fn parse() -> (r: Self) {
        ComponentAttr {}
    }
}

/// A parameter of the annotated function.
pub enum FnInput {
    /// A `self` receiver.
    Receiver,
    /// `pat: ty`. `ident` is the pattern's identifier where the pattern is an identifier
    /// pattern (such as `name` or `mut name`), `pat` the pattern as written, `ty` the type.
    Typed { ident: Option<String>, pat: String, ty: String },
}

/// The parts of the annotated function that the macro reads.
pub struct ComponentFn {
    /// The visibility as written.
    pub vis: String,
    /// The function's name.
    pub ident: String,
    /// Whether the function is `async`.
    pub is_async: bool,
    /// The return type, where one is written.
    pub output: Option<String>,
    /// The parameters, in order.
    pub inputs: Vec<FnInput>,
}

/// Why a function cannot be a component.
#[derive(Clone, Copy, Debug, PartialEq, Eq, Structural)]
pub enum ComponentError {
    NotAsync,
    NoReturnType,
    SelfReceiver,
    NotIdentPattern,
}

impl ComponentError {
    /// The message the macro reports.
    pub fn message(&self) -> (r: &'static str)
        ensures
            r@ == match self {
                ComponentError::NotAsync => "components must be async"@,
                ComponentError::NoReturnType => "components must have a return type"@,
                ComponentError::SelfReceiver => "component functions cannot take a `self` receiver"@,
                ComponentError::NotIdentPattern => "component function arguments must be identifier patterns"@,
            },
    {
        match self {
            ComponentError::NotAsync => "components must be async",
            ComponentError::NoReturnType => "components must have a return type",
            ComponentError::SelfReceiver => "component functions cannot take a `self` receiver",
            ComponentError::NotIdentPattern => "component function arguments must be identifier patterns",
        }
    }
}

/// The error a single parameter raises, if any.
pub open spec fn input_error(input: FnInput) -> Option<ComponentError> {
    match input {
        FnInput::Receiver => Some(ComponentError::SelfReceiver),
        FnInput::Typed { ident: None, .. } => Some(ComponentError::NotIdentPattern),
        FnInput::Typed { ident: Some(_), .. } => None,
    }
}

/// The error of the first parameter in `inputs` that raises one.
pub open spec fn first_input_error(inputs: Seq<FnInput>) -> Option<ComponentError>
    decreases inputs.len(),
{
    if inputs.len() == 0 {
        None
    } else if input_error(inputs[0]) is Some {
        input_error(inputs[0])
    } else {
        first_input_error(inputs.drop_first())
    }
}

/// The error that checking `f` gives: the function must be `async`, must have a return type,
/// and each parameter must be an identifier pattern with a type.
pub open spec fn component_error(f: ComponentFn) -> Option<ComponentError> {
    if !f.is_async {
        Some(ComponentError::NotAsync)
    } else if f.output is None {
        Some(ComponentError::NoReturnType)
    } else {
        first_input_error(f.inputs@)
    }
}

/// A checked component function.
pub struct ComponentItem {
    item: ComponentFn,
}

/// How the generated `render` passes one parameter to the function.
pub enum CallArg {
    /// The render context, for the parameter named `cx`.
    Cx,
    /// The struct's field of that name (`self.pat`).
    SelfField(String),
}

/// A field of the generated struct: `pat: ty`.
pub struct StructField {
    pub pat: String,
    pub ty: String,
}

/// What the macro generates for a component: the struct's fields, and the arguments of the
/// call in `render`, one per parameter.
pub struct ComponentPlan {
    pub vis: String,
    pub ident: String,
    pub return_ty: String,
    pub fields: Vec<StructField>,
    pub args: Vec<CallArg>,
}

/// Whether a parameter is the render context, named `cx`.
pub open spec fn is_cx(input: FnInput) -> bool {
    input matches FnInput::Typed { ident: Some(i), .. } && i@ == "cx"@
}

/// The struct fields that the parameters give: every parameter but `cx`, in order.
pub open spec fn fields_of(inputs: Seq<FnInput>) -> Seq<(Seq<char>, Seq<char>)>
    decreases inputs.len(),
{
    if inputs.len() == 0 {
        Seq::empty()
    } else {
        let rest = fields_of(inputs.drop_last());
        match inputs.last() {
            FnInput::Typed { pat, ty, .. } => if is_cx(inputs.last()) { rest } else { rest.push((pat@, ty@)) },
            FnInput::Receiver => rest,
        }
    }
}

/// The call argument a parameter gives.
pub open spec fn arg_of(input: FnInput, arg: CallArg) -> bool {
    if is_cx(input) {
        arg is Cx
    } else {
        match input {
            FnInput::Typed { pat, .. } => arg matches CallArg::SelfField(p) && p@ == pat@,
            FnInput::Receiver => false,
        }
    }
}

/// Whether `s` is the string `cx`.
fn is_cx_name(s: &String) -> (r: bool)
    ensures
        r == (s@ == "cx"@),
{
    proof {
        reveal_strlit("cx");
    }
    let v = s.as_str();
    if v.unicode_len() != 2 {
        return false;
    }
    let a = v.get_char(0);
    let b = v.get_char(1);
    if a == 'c' && b == 'x' {
        assert(v@ =~= "cx"@);
        true
    } else {
        false
    }
}

impl ComponentItem {
    /// The function as a component, where it is one: `async`, with a return type, and with
    /// identifier patterns for parameters; otherwise the first rule it breaks.
    pub fn parse(item: ComponentFn) -> (r: Result<Self, ComponentError>)
        ensures
            match r {
                Ok(c) => component_error(item) is None && c.item() == item,
                Err(e) => component_error(item) == Some(e),
            },
    {
        if !item.is_async {
            return Err(ComponentError::NotAsync);
        }
        if item.output.is_none() {
            return Err(ComponentError::NoReturnType);
        }
        let mut i: usize = 0;
        assert(item.inputs@.skip(0) =~= item.inputs@);
        while i < item.inputs.len()
            invariant
                i <= item.inputs@.len(),
                item.is_async,
                item.output is Some,
                first_input_error(item.inputs@) == first_input_error(item.inputs@.skip(i as int)),
            decreases item.inputs@.len() - i,
        {
            proof {
                let s = item.inputs@.skip(i as int);
                assert(s.drop_first() =~= item.inputs@.skip(i + 1));
                assert(s[0] == item.inputs@[i as int]);
            }
            match &item.inputs[i] {
                FnInput::Receiver => return Err(ComponentError::SelfReceiver),
                FnInput::Typed { ident: None, .. } => return Err(ComponentError::NotIdentPattern),
                _ => {},
            }
            i = i + 1;
        }
        proof {
            assert(item.inputs@.skip(i as int).len() == 0);
        }
        Ok(ComponentItem { item })
    }

    /// The checked function.
    pub closed spec fn item(&self) -> ComponentFn {
        self.item
    }

    #[verifier::type_invariant]
    closed spec fn inv(self) -> bool {
        component_error(self.item) is None
    }

    /// What the macro generates: a struct with one field per parameter but `cx`, and a
    /// `render` that calls the function with the context for `cx` and the struct's field for
    /// every other parameter, in the parameters' order.
    pub fn to_tokens(&self) -> (r: ComponentPlan)
        ensures
            r.vis == self.item().vis,
            r.ident == self.item().ident,
            self.item().output == Some(r.return_ty),
            r.fields@.len() == fields_of(self.item().inputs@).len(),
            forall|k: int| 0 <= k < r.fields@.len() ==>
                (#[trigger] r.fields@[k]).pat@ == fields_of(self.item().inputs@)[k].0
                && r.fields@[k].ty@ == fields_of(self.item().inputs@)[k].1,
            r.args@.len() == self.item().inputs@.len(),
            forall|k: int| 0 <= k < r.args@.len() ==> arg_of(self.item().inputs@[k], #[trigger] r.args@[k]),
    {
        proof {
            use_type_invariant(self);
        }
        let inputs = &self.item.inputs;
        let mut fields: Vec<StructField> = Vec::new();
        let mut args: Vec<CallArg> = Vec::new();
        let mut i: usize = 0;
        while i < inputs.len()
            invariant
                i <= inputs@.len(),
                inputs == &self.item.inputs,
                component_error(self.item) is None,
                args@.len() == i,
                forall|k: int| 0 <= k < i ==> arg_of(inputs@[k], #[trigger] args@[k]),
                fields@.len() == fields_of(inputs@.take(i as int)).len(),
                forall|k: int| 0 <= k < fields@.len() ==>
                    (#[trigger] fields@[k]).pat@ == fields_of(inputs@.take(i as int))[k].0
                    && fields@[k].ty@ == fields_of(inputs@.take(i as int))[k].1,
            decreases inputs@.len() - i,
        {
            proof {
                assert(inputs@.take(i + 1).drop_last() =~= inputs@.take(i as int));
                assert(inputs@.take(i + 1).last() == inputs@[i as int]);
            }
            proof {
                lemma_no_receiver(self.item.inputs@, i as int);
            }
            match &inputs[i] {
                FnInput::Typed { ident: Some(name), pat, ty } => {
                    if is_cx_name(name) {
                        args.push(CallArg::Cx);
                    } else {
                        fields.push(StructField { pat: pat.clone(), ty: ty.clone() });
                        args.push(CallArg::SelfField(pat.clone()));
                    }
                },
                FnInput::Typed { ident: None, pat, ty } => {
                    fields.push(StructField { pat: pat.clone(), ty: ty.clone() });
                    args.push(CallArg::SelfField(pat.clone()));
                },
                FnInput::Receiver => {
                    args.push(CallArg::Cx);
                },
            }
            i = i + 1;
        }
        proof {
            assert(inputs@.take(inputs@.len() as int) =~= inputs@);
        }
        let return_ty = match &self.item.output {
            Some(t) => t.clone(),
            None => String::new(),
        };
        ComponentPlan { vis: self.item.vis.clone(), ident: self.item.ident.clone(), return_ty, fields, args }
    }
}

/// No parameter of a list without errors is a receiver or a non-identifier pattern.
proof fn lemma_no_receiver(inputs: Seq<FnInput>, i: int)
    requires
        0 <= i < inputs.len(),
        first_input_error(inputs) is None,
    ensures
        input_error(inputs[i]) is None,
    decreases inputs.len(),
{
    if i > 0 {
        assert(inputs.drop_first()[i - 1] == inputs[i]);
        lemma_no_receiver(inputs.drop_first(), i - 1);
    }
}

} // verus!
