//! The `#[param]` attribute: an accessor for one path parameter of the request.
use vstd::prelude::*;
use vstd::view::View as ViewTrait;
use crate::view::ast::{parse_path, path_len, plain_ident, ParseError};
use crate::view::tokens::{is_group, is_ident, is_punct, Cursor, Delimiter, TokenTree};

verus! {

/// `vis name [as fn_name] [: Type]`: the parameter `name`, read by an accessor named
/// `fn_name` (or `name`) with the visibility `vis`.
pub struct Param {
    pub vis: Vec<TokenTree>,
    pub name: String,
    pub fn_name: Option<String>,
    pub ty: Option<Vec<TokenTree>>,
}

/// A parameter, with sequences for its tokens and texts.
pub struct ParamV {
    pub vis: Seq<TokenTree>,
    pub name: Seq<char>,
    pub fn_name: Option<Seq<char>>,
    pub ty: Option<Seq<TokenTree>>,
}

impl ViewTrait for Param {
    type V = ParamV;

    open spec fn view(&self) -> ParamV {
        ParamV {
            vis: self.vis@,
            name: self.name@,
            fn_name: match self.fn_name {
                Some(f) => Some(f@),
                None => None,
            },
            ty: match self.ty {
                Some(t) => Some(t@),
                None => None,
            },
        }
    }
}

/// What the macro generates for a parameter: an accessor `vis fn fn_name(cx) -> &str` that
/// returns the value of the path parameter whose key is `key`.
pub struct ParamPlan {
    pub vis: Vec<TokenTree>,
    pub fn_name: String,
    pub key: String,
}

/// Whether the contents of `pub( .. )` restrict the visibility: `crate`, `self`, `super`, or
/// `in` and a path.
pub open spec fn restriction(c: Seq<TokenTree>) -> bool {
    ||| c.len() == 1 && (is_ident(c[0], "crate"@) || is_ident(c[0], "self"@) || is_ident(c[0], "super"@))
    ||| c.len() >= 1 && is_ident(c[0], "in"@)
}

/// How many tokens the visibility at the front of `s` takes: none, `pub`, or `pub` with a
/// restriction in parentheses.
pub open spec fn vis_len(s: Seq<TokenTree>) -> int {
    if s.len() > 0 && is_ident(s[0], "pub"@) {
        if s.len() > 1 && is_group(s[1], Delimiter::Parenthesis) && restriction(s[1]->stream@) {
            2
        } else {
            1
        }
    } else {
        0
    }
}

/// The text of an identifier token.
pub open spec fn ident_of(t: TokenTree) -> Seq<char> {
    match t {
        TokenTree::Ident(n) => n@,
        _ => Seq::empty(),
    }
}

/// The parameter at the front of `s`, and how many tokens it takes.
pub open spec fn param_spec(s: Seq<TokenTree>) -> Result<(ParamV, int), ParseError> {
    let v = vis_len(s);
    if !(v < s.len() && plain_ident(s[v])) {
        Err(ParseError::ExpectedIdent)
    } else {
        let k = v + 1;
        let renamed = k < s.len() && is_ident(s[k], "as"@);
        if renamed && !(k + 1 < s.len() && plain_ident(s[k + 1])) {
            Err(ParseError::ExpectedIdent)
        } else {
            let fn_name = if renamed { Some(ident_of(s[k + 1])) } else { None };
            let k2 = if renamed { k + 2 } else { k };
            if k2 < s.len() && is_punct(s[k2], ':') {
                match path_len(s.skip(k2 + 1)) {
                    Err(e) => Err(e),
                    Ok(n) => Ok((
                        ParamV { vis: s.take(v), name: ident_of(s[v]), fn_name, ty: Some(s.subrange(k2 + 1, k2 + 1 + n)) },
                        k2 + 1 + n,
                    )),
                }
            } else {
                Ok((ParamV { vis: s.take(v), name: ident_of(s[v]), fn_name, ty: None }, k2))
            }
        }
    }
}

/// Whether the group's contents restrict a visibility.
fn restriction_exec(t: &TokenTree) -> (r: bool)
    ensures
        is_group(*t, Delimiter::Parenthesis) ==> r == restriction(t->stream@),
{
    match t {
        TokenTree::Group { stream, .. } => {
            if stream.len() == 0 {
                return false;
            }
            let first = &stream[0];
            (stream.len() == 1 && (crate::view::tokens::token_is_ident(first, "crate")
                || crate::view::tokens::token_is_ident(first, "self")
                || crate::view::tokens::token_is_ident(first, "super")))
                || crate::view::tokens::token_is_ident(first, "in")
        },
        _ => false,
    }
}

/// Whether `t` is an identifier that is not a keyword.
fn plain_ident_exec(t: &TokenTree) -> (r: bool)
    ensures
        r == plain_ident(*t),
{
    match t {
        TokenTree::Ident(n) => !crate::view::tokens::ident_is_keyword(n.as_str()),
        _ => false,
    }
}

/// The text of an identifier token.
fn take_ident(t: TokenTree) -> (r: String)
    ensures
        r@ == ident_of(t),
{
    match t {
        TokenTree::Ident(n) => n,
        _ => String::new(),
    }
}

impl Param {
    /// The parameter as given.
    pub fn new(vis: Vec<TokenTree>, name: String, fn_name: Option<String>, ty: Option<Vec<TokenTree>>) -> (r: Self)
        ensures
            r.vis == vis,
            r.name == name,
            r.fn_name == fn_name,
            r.ty == ty,
    {
        Param { vis, name, fn_name, ty }
    }

    /// Parses `vis name [as fn_name] [: Type]` at the front of the input.
    pub fn parse(input: &mut Cursor) -> (r: Result<Self, ParseError>)
        ensures
            match param_spec(old(input)@) {
                Ok((v, n)) => r matches Ok(x) && x@ == v && final(input)@ == old(input)@.skip(n),
                Err(e) => r matches Err(e2) && e2 == e,
            },
    {
        let ghost s = input@;
        let mut vis: Vec<TokenTree> = Vec::new();
        let is_pub = match input.peek(0) {
            Some(t) => crate::view::tokens::token_is_ident(t, "pub"),
            None => false,
        };
        if is_pub {
            let restricted = match input.peek(1) {
                Some(t) => crate::view::tokens::token_is_group(t, Delimiter::Parenthesis) && restriction_exec(t),
                None => false,
            };
            vis.push(input.next().unwrap());
            if restricted {
                vis.push(input.next().unwrap());
            }
        }
        let ghost v = vis@.len() as int;
        assert(v == vis_len(s));
        assert(vis@ =~= s.take(v));
        assert(input@ =~= s.skip(v));
        let name_ok = match input.peek(0) {
            Some(t) => plain_ident_exec(t),
            None => false,
        };
        if !name_ok {
            return Err(ParseError::ExpectedIdent);
        }
        let name = take_ident(input.next().unwrap());
        let renamed = match input.peek(0) {
            Some(t) => crate::view::tokens::token_is_ident(t, "as"),
            None => false,
        };
        let mut fn_name: Option<String> = None;
        if renamed {
            let ok = match input.peek(1) {
                Some(t) => plain_ident_exec(t),
                None => false,
            };
            if !ok {
                return Err(ParseError::ExpectedIdent);
            }
            let _as = input.next();
            fn_name = Some(take_ident(input.next().unwrap()));
        }
        let ghost k2: int = if renamed { v + 3 } else { v + 1 };
        assert(input@ =~= s.skip(k2));
        let typed = match input.peek(0) {
            Some(t) => crate::view::tokens::token_is_punct(t, ':'),
            None => false,
        };
        if !typed {
            return Ok(Param { vis, name, fn_name, ty: None });
        }
        let _colon = input.next();
        assert(input@ =~= s.skip(k2 + 1));
        let ty = parse_path(input)?;
        proof {
            crate::view::ast::lemma_path_len_bounds(s.skip(k2 + 1));
            let n = path_len(s.skip(k2 + 1))->Ok_0;
            assert(ty@ =~= s.subrange(k2 + 1, k2 + 1 + n));
            assert(input@ =~= s.skip(k2 + 1 + n));
        }
        Ok(Param { vis, name, fn_name, ty: Some(ty) })
    }

    /// The accessor for the parameter: named by `as fn_name` where given and by the
    /// parameter's own name otherwise, looking up the parameter's name.
    pub fn to_tokens(self) -> (r: ParamPlan)
        ensures
            r.vis@ == self.vis@,
            r.key@ == self.name@,
            r.fn_name@ == match self.fn_name {
                Some(f) => f@,
                None => self.name@,
            },
    {
        let fn_name = match self.fn_name {
            Some(f) => f,
            None => self.name.clone(),
        };
        ParamPlan { vis: self.vis, fn_name, key: self.name }
    }
}

} // verus!
