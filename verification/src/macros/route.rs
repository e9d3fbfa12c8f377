//! The `#[route]` attribute: parsed for its syntax only.
use vstd::prelude::*;
use crate::view::tokens::{Cursor, LitKind, TokenTree};

verus! {

/// The arguments of `#[route]`: an optional path literal.
pub struct RouteAttr {
    pub path: Option<String>,
}

/// The path a string literal at the front of `s` gives, and how many tokens it takes.
pub open spec fn route_attr_spec(s: Seq<TokenTree>) -> (Option<Seq<char>>, int) {
    if s.len() > 0 && s[0] matches TokenTree::Literal { kind: LitKind::Str(_), .. } {
        (Some(s[0]->kind->Str_0@), 1)
    } else {
        (None, 0)
    }
}

impl RouteAttr {
    /// Takes the optional path literal at the front of the input.
    pub fn parse(input: &mut Cursor) -> (r: Self)
        ensures
            route_attr_spec(old(input)@).0 == match r.path {
                Some(p) => Some(p@),
                None => None::<Seq<char>>,
            },
            final(input)@ == old(input)@.skip(route_attr_spec(old(input)@).1),
    {
        let is_str = match input.peek(0) {
            Some(TokenTree::Literal { kind: LitKind::Str(_), .. }) => true,
            _ => false,
        };
        if !is_str {
            assert(old(input)@.skip(0) =~= old(input)@);
            return RouteAttr { path: None };
        }
        match input.next() {
            Some(TokenTree::Literal { kind: LitKind::Str(v), .. }) => RouteAttr { path: Some(v) },
            _ => RouteAttr { path: None },
        }
    }

    /// The attribute with the path literal that was given, if any.
    pub fn new(path: Option<String>) -> (r: Self)
        ensures
            r.path == path,
    {
        RouteAttr { path }
    }
}

/// The function that `#[route]` annotates. It is parsed for its syntax and generates
/// nothing.
pub struct RouteItem {
    pub name: String,
}

impl RouteItem {
    /// The annotated function, by name.
    pub fn new(name: String) -> (r: Self)
        ensures
            r.name == name,
    {
        RouteItem { name }
    }
}

} // verus!
