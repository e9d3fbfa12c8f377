//! The syntax of the `view!` macro: elements, their attributes and their children, parsed
//! from tokens.
//!
//! Each parser is described by a function over the token sequence that gives what is parsed
//! and how many tokens it takes, or the error; the parsers take tokens off a [`Cursor`].
use vstd::prelude::*;
use vstd::view::View as ViewTrait;
use crate::text::push_char;
use crate::view::codegen::display_name;
use crate::view::tokens::{Cursor, Delimiter, LitKind, Spacing, TokenTree};

verus! {

/// Why the input is not a view.
#[derive(Debug, PartialEq, Eq)]
pub enum ParseError {
    /// None of the forms an attribute value may take.
    ExpectedAttributeValue,
    /// A path segment was expected: an identifier, or `self`, `Self`, `super`, `crate`, `try`.
    ExpectedPathSegment,
    /// `!` not followed by `(`, `[` or `{`.
    ExpectedMacroDelimiter,
    /// Parentheses whose contents are not one expression.
    InvalidExpr,
    /// Call parentheses whose contents are not a list of expressions.
    InvalidArgs,
    /// An identifier was expected.
    ExpectedIdent,
    /// This punctuation character was expected.
    ExpectedPunct(char),
    /// None of the forms an element name may take.
    ExpectedElementName,
    /// None of the forms a node may take.
    ExpectedNode,
    /// The input ended before the closing tag of the element whose opening tag names this.
    MissingClosingTag(ElementName),
    /// The closing tag names another element than the opening tag.
    MismatchedClosingTag { closing: ElementName, opening: ElementName },
    /// A `{ .. }` block was expected.
    ExpectedBlock,
    /// `if` with nothing before its block.
    EmptyCondition,
    /// `let` without a closing `;`.
    ExpectedSemicolon,
    /// A `let` node must start with `let`.
    ExpectedLet,
}

/// The message reported for `e`. Element names read as in [`display_name`].
pub open spec fn message_text(e: ParseError) -> Seq<char> {
    match e {
        ParseError::ExpectedAttributeValue => "expected parentheses, a literal, or a path"@,
        ParseError::ExpectedPathSegment => "expected identifier"@,
        ParseError::ExpectedMacroDelimiter => "expected `(`, `[`, or `{` after `!`"@,
        ParseError::InvalidExpr => "expected an expression"@,
        ParseError::InvalidArgs => "expected comma-separated expressions"@,
        ParseError::ExpectedIdent => "expected identifier"@,
        ParseError::ExpectedElementName => "expected identifier, string literal, or parentheses"@,
        ParseError::ExpectedNode => "expected an element, text, an expression, a block, `if` or `let`"@,
        ParseError::MissingClosingTag(opening) => "missing closing tag for opening tag `"@ + display_name(opening)
            + "`"@,
        ParseError::MismatchedClosingTag { closing, opening } => "closing tag `"@ + display_name(closing)
            + "` does not match opening tag `"@ + display_name(opening) + "`"@,
        ParseError::ExpectedBlock => "expected `{`"@,
        ParseError::EmptyCondition => "expected a condition"@,
        ParseError::ExpectedSemicolon => "expected `;`"@,
        ParseError::ExpectedLet => "expected `let`"@,
        ParseError::ExpectedPunct(c) => "expected `"@ + seq![c] + "`"@,
    }
}

impl ParseError {
    /// The message reported for the error.
    pub fn message(&self) -> (r: String)
        ensures
            r@ == message_text(*self),
    {
        match self {
            ParseError::ExpectedAttributeValue => String::from_str("expected parentheses, a literal, or a path"),
            ParseError::ExpectedPathSegment => String::from_str("expected identifier"),
            ParseError::ExpectedMacroDelimiter => String::from_str("expected `(`, `[`, or `{` after `!`"),
            ParseError::InvalidExpr => String::from_str("expected an expression"),
            ParseError::InvalidArgs => String::from_str("expected comma-separated expressions"),
            ParseError::ExpectedIdent => String::from_str("expected identifier"),
            ParseError::ExpectedElementName => String::from_str("expected identifier, string literal, or parentheses"),
            ParseError::ExpectedNode => String::from_str("expected an element, text, an expression, a block, `if` or `let`"),
            ParseError::MissingClosingTag(opening) => {
                let mut m = String::from_str("missing closing tag for opening tag `");
                m.append(opening.to_display_string().as_str());
                m.append("`");
                m
            },
            ParseError::MismatchedClosingTag { closing, opening } => {
                let mut m = String::from_str("closing tag `");
                m.append(closing.to_display_string().as_str());
                m.append("` does not match opening tag `");
                m.append(opening.to_display_string().as_str());
                m.append("`");
                m
            },
            ParseError::ExpectedBlock => String::from_str("expected `{`"),
            ParseError::EmptyCondition => String::from_str("expected a condition"),
            ParseError::ExpectedSemicolon => String::from_str("expected `;`"),
            ParseError::ExpectedLet => String::from_str("expected `let`"),
            ParseError::ExpectedPunct(c) => {
                let mut m = String::from_str("expected `");
                push_char(&mut m, *c);
                m.append("`");
                m
            },
        }
    }
}

// ------------------------------------------------------------------------------------------
// Token classes
// ------------------------------------------------------------------------------------------

/// Whether `t` is a string literal.
pub open spec fn lit_str(t: TokenTree) -> bool {
    t matches TokenTree::Literal { kind: LitKind::Str(_), .. }
}

/// Whether `t` is an integer literal.
pub open spec fn lit_int(t: TokenTree) -> bool {
    t matches TokenTree::Literal { kind: LitKind::Int(_), .. }
}

/// Whether `t` is a float literal.
pub open spec fn lit_float(t: TokenTree) -> bool {
    t matches TokenTree::Literal { kind: LitKind::Float(_), .. }
}

/// Whether `t` is `true` or `false`.
pub open spec fn lit_bool(t: TokenTree) -> bool {
    crate::view::tokens::is_ident(t, "true"@) || crate::view::tokens::is_ident(t, "false"@)
}

/// Whether `t` is an identifier that is not a keyword.
pub open spec fn plain_ident(t: TokenTree) -> bool {
    t matches TokenTree::Ident(n) && !crate::view::tokens::is_keyword(n@)
}

/// Whether `t` can start a path segment: a plain identifier, or one of the keywords that
/// name a path root.
pub open spec fn segment_start(t: TokenTree) -> bool {
    ||| plain_ident(t)
    ||| crate::view::tokens::is_ident(t, "super"@)
    ||| crate::view::tokens::is_ident(t, "self"@)
    ||| crate::view::tokens::is_ident(t, "Self"@)
    ||| crate::view::tokens::is_ident(t, "crate"@)
    ||| crate::view::tokens::is_ident(t, "try"@)
}

/// Whether `t` is the punctuation `c` joined to the next character.
pub open spec fn joint(t: TokenTree, c: char) -> bool {
    t matches TokenTree::Punct(p, Spacing::Joint) && p == c
}

/// Whether `s` holds `<` at `k` opening generic arguments (not `<=` or `<<=`), or `::<`.
pub open spec fn angle_at(s: Seq<TokenTree>, k: int) -> bool {
    ||| {
        &&& 0 <= k < s.len()
        &&& crate::view::tokens::is_punct(s[k], '<')
        &&& !(joint(s[k], '<') && k + 1 < s.len() && crate::view::tokens::is_punct(s[k + 1], '='))
        &&& !(joint(s[k], '<') && k + 2 < s.len() && joint(s[k + 1], '<')
            && crate::view::tokens::is_punct(s[k + 2], '='))
    }
    ||| crate::view::tokens::is_path_sep(s, k) && k + 2 < s.len() && crate::view::tokens::is_punct(s[k + 2], '<')
}

/// Whether `s` holds, at `k`, `::` that continues a path (not followed by parentheses).
pub open spec fn path_continues(s: Seq<TokenTree>, k: int) -> bool {
    crate::view::tokens::is_path_sep(s, k)
        && !(k + 2 < s.len() && crate::view::tokens::is_group(s[k + 2], Delimiter::Parenthesis))
}

/// Whether `s` starts with a closing tag's `</`.
pub open spec fn closing_peek(s: Seq<TokenTree>) -> bool {
    s.len() >= 2 && crate::view::tokens::is_punct(s[0], '<') && crate::view::tokens::is_punct(s[1], '/')
}

/// Whether `s` starts with an attribute's `name =`.
pub open spec fn attribute_peek(s: Seq<TokenTree>) -> bool {
    s.len() >= 2 && s[0] is Ident && crate::view::tokens::is_punct(s[1], '=')
}

// ------------------------------------------------------------------------------------------
// Paths
// ------------------------------------------------------------------------------------------

/// Whether the token at `k` of `s` closes generic arguments: a `>` that does not end `->`.
pub open spec fn closes_angle(s: Seq<TokenTree>, k: int) -> bool {
    crate::view::tokens::is_punct(s[k], '>') && !(k > 0 && joint(s[k - 1], '-'))
}

/// Where generic arguments end when `depth` of their brackets are open before `k`: after
/// the `>` that closes the outermost one; each `<` inside opens one more.
pub open spec fn angle_end(s: Seq<TokenTree>, k: int, depth: int) -> Result<int, ParseError>
    decreases s.len() - k,
{
    if k < 0 || k >= s.len() || depth < 1 {
        Err(ParseError::ExpectedPunct('>'))
    } else if closes_angle(s, k) {
        if depth == 1 {
            Ok(k + 1)
        } else {
            angle_end(s, k + 1, depth - 1)
        }
    } else if crate::view::tokens::is_punct(s[k], '<') {
        angle_end(s, k + 1, depth + 1)
    } else {
        angle_end(s, k + 1, depth)
    }
}

/// Where the generic arguments of a path segment, at `k` of `s`, end (`<..>` or `::<..>`);
/// `k` itself where the segment has none.
pub open spec fn args_end(s: Seq<TokenTree>, k: int) -> Result<int, ParseError> {
    if angle_at(s, k) {
        angle_end(s, if crate::view::tokens::is_path_sep(s, k) { k + 3 } else { k + 1 }, 1)
    } else {
        Ok(k)
    }
}

/// Generic arguments end after where they start, within the input.
pub proof fn lemma_angle_end_bounds(s: Seq<TokenTree>, k: int, depth: int)
    requires
        angle_end(s, k, depth) is Ok,
    ensures
        k < angle_end(s, k, depth)->Ok_0 <= s.len(),
    decreases s.len() - k,
{
    if closes_angle(s, k) {
        if depth != 1 {
            lemma_angle_end_bounds(s, k + 1, depth - 1);
        }
    } else if crate::view::tokens::is_punct(s[k], '<') {
        lemma_angle_end_bounds(s, k + 1, depth + 1);
    } else {
        lemma_angle_end_bounds(s, k + 1, depth);
    }
}

/// A segment's generic arguments end at or after where they start, within the input.
pub proof fn lemma_args_end_bounds(s: Seq<TokenTree>, k: int)
    requires
        0 <= k <= s.len(),
        args_end(s, k) is Ok,
    ensures
        k <= args_end(s, k)->Ok_0 <= s.len(),
{
    if angle_at(s, k) {
        let start = if crate::view::tokens::is_path_sep(s, k) { k + 3 } else { k + 1 };
        lemma_angle_end_bounds(s, start, 1);
    }
}

/// Where the path whose segments continue at `k` ends, reading `:: segment` pairs, each
/// segment with its generic arguments.
pub open spec fn path_rest(s: Seq<TokenTree>, k: int) -> Result<int, ParseError>
    decreases s.len() - k,
{
    if k < 0 || k > s.len() {
        Err(ParseError::ExpectedPathSegment)
    } else if path_continues(s, k) {
        if k + 2 < s.len() && segment_start(s[k + 2]) {
            match args_end(s, k + 3) {
                Err(e) => Err(e),
                Ok(j) => {
                    proof {
                        lemma_args_end_bounds(s, k + 3);
                    }
                    path_rest(s, j)
                },
            }
        } else {
            Err(ParseError::ExpectedPathSegment)
        }
    } else {
        Ok(k)
    }
}

/// How many tokens the path at the front of `s` takes: an optional leading `::`, then
/// segments separated by `::`, each with optional generic arguments (`<..>` or `::<..>`).
pub open spec fn path_len(s: Seq<TokenTree>) -> Result<int, ParseError> {
    let k0: int = if crate::view::tokens::is_path_sep(s, 0) { 2 } else { 0 };
    if k0 < s.len() && segment_start(s[k0]) {
        match args_end(s, k0 + 1) {
            Err(e) => Err(e),
            Ok(j) => path_rest(s, j),
        }
    } else {
        Err(ParseError::ExpectedPathSegment)
    }
}

/// A path ends after its start and within the input.
proof fn lemma_path_rest_bounds(s: Seq<TokenTree>, k: int)
    requires
        path_rest(s, k) is Ok,
    ensures
        k <= path_rest(s, k)->Ok_0 <= s.len(),
    decreases s.len() - k,
{
    if path_continues(s, k) {
        lemma_args_end_bounds(s, k + 3);
        lemma_path_rest_bounds(s, args_end(s, k + 3)->Ok_0);
    }
}

/// A path takes at least one token and no more than there are.
pub proof fn lemma_path_len_bounds(s: Seq<TokenTree>)
    requires
        path_len(s) is Ok,
    ensures
        1 <= path_len(s)->Ok_0 <= s.len(),
{
    let k0: int = if crate::view::tokens::is_path_sep(s, 0) { 2 } else { 0 };
    lemma_args_end_bounds(s, k0 + 1);
    lemma_path_rest_bounds(s, args_end(s, k0 + 1)->Ok_0);
}

/// Takes the generic arguments at the front of the input, where there are any, onto `out`:
/// `<` or `::<`, then tokens up to the `>` that closes them.
fn take_generic_args(input: &mut Cursor, out: &mut Vec<TokenTree>, Ghost(s): Ghost<Seq<TokenTree>>) -> (r: Result<(), ParseError>)
    requires
        1 <= old(out)@.len() <= s.len(),
        old(out)@ == s.take(old(out)@.len() as int),
        old(input)@ == s.skip(old(out)@.len() as int),
    ensures
        match args_end(s, old(out)@.len() as int) {
            Ok(j) => r is Ok && final(out)@ == s.take(j) && final(input)@ == s.skip(j),
            Err(e) => r == Err::<(), ParseError>(e),
        },
{
    let ghost k0: int = out@.len() as int;
    proof {
        lemma_shift_angle(s, k0);
        lemma_shift_path_sep(s, k0);
    }
    if !angle_here(input) {
        return Ok(());
    }
    if input.peek_path_sep(0) {
        out.push(input.next().unwrap());
        out.push(input.next().unwrap());
    }
    out.push(input.next().unwrap());
    assert(out@ =~= s.take(out@.len() as int));
    assert(input@ =~= s.skip(out@.len() as int));
    let mut depth: usize = 1;
    loop
        invariant
            1 <= depth <= out@.len() <= s.len(),
            out@ == s.take(out@.len() as int),
            input@ == s.skip(out@.len() as int),
            args_end(s, k0) == angle_end(s, out@.len() as int, depth as int),
            k0 == old(out)@.len(),
        decreases input@.len(),
    {
        let ghost k: int = out@.len() as int;
        if input.is_empty() {
            return Err(ParseError::ExpectedPunct('>'));
        }
        let gt = match input.peek(0) {
            Some(t) => crate::view::tokens::token_is_punct(t, '>'),
            None => false,
        };
        let after_dash = joint_exec(&out[out.len() - 1], '-');
        let lt = match input.peek(0) {
            Some(t) => crate::view::tokens::token_is_punct(t, '<'),
            None => false,
        };
        assert(s[k] == input@[0]);
        assert(s[k - 1] == out@[k - 1]);
        out.push(input.next().unwrap());
        let _len = out.len();
        assert(out@ =~= s.take(k + 1));
        assert(input@ =~= s.skip(k + 1));
        if gt && !after_dash {
            if depth == 1 {
                return Ok(());
            }
            depth = depth - 1;
        } else if lt {
            depth = depth + 1;
        }
    }
}

/// Parses the path at the front of the input, giving its tokens.
pub fn parse_path(input: &mut Cursor) -> (r: Result<Vec<TokenTree>, ParseError>)
    ensures
        match path_len(old(input)@) {
            Ok(n) => r matches Ok(p) && p@ == old(input)@.take(n) && final(input)@ == old(input)@.skip(n),
            Err(e) => r matches Err(e2) && e2 == e,
        },
{
    let ghost s = input@;
    let mut out: Vec<TokenTree> = Vec::new();
    if input.peek_path_sep(0) {
        out.push(input.next().unwrap());
        out.push(input.next().unwrap());
    }
    let ghost k0: int = out@.len() as int;
    assert(out@ == s.take(k0));
    assert(input@ == s.skip(k0));
    let ok = match input.peek(0) {
        Some(t) => segment_start_exec(t),
        None => false,
    };
    if !ok {
        return Err(ParseError::ExpectedPathSegment);
    }
    out.push(input.next().unwrap());
    assert(out@ =~= s.take(k0 + 1));
    assert(input@ =~= s.skip(k0 + 1));
    take_generic_args(input, &mut out, Ghost(s))?;
    proof {
        lemma_args_end_bounds(s, k0 + 1);
    }
    loop
        invariant
            0 <= out@.len() <= s.len(),
            out@ == s.take(out@.len() as int),
            input@ == s.skip(out@.len() as int),
            path_len(s) == path_rest(s, out@.len() as int),
            s == old(input)@,
        decreases input@.len(),
    {
        let ghost k: int = out@.len() as int;
        proof {
            lemma_shift_path_sep(s, k);
        }
        let cont = input.peek_path_sep(0) && match input.peek(2) {
            Some(t) => !crate::view::tokens::token_is_group(t, Delimiter::Parenthesis),
            None => true,
        };
        assert(cont == path_continues(s, k));
        if !cont {
            return Ok(out);
        }
        let seg_ok = match input.peek(2) {
            Some(t) => segment_start_exec(t),
            None => false,
        };
        if !seg_ok {
            return Err(ParseError::ExpectedPathSegment);
        }
        out.push(input.next().unwrap());
        out.push(input.next().unwrap());
        out.push(input.next().unwrap());
        assert(out@ =~= s.take(k + 3));
        assert(input@ =~= s.skip(k + 3));
        take_generic_args(input, &mut out, Ghost(s))?;
        proof {
            lemma_args_end_bounds(s, k + 3);
        }
    }
}

/// Whether `t` can start a path segment.
fn segment_start_exec(t: &TokenTree) -> (r: bool)
    ensures
        r == segment_start(*t),
{
    match t {
        TokenTree::Ident(n) => {
            let s = n.as_str();
            !crate::view::tokens::ident_is_keyword(s) || crate::view::tokens::chars_eq(s, "super")
                || crate::view::tokens::chars_eq(s, "self") || crate::view::tokens::chars_eq(s, "Self")
                || crate::view::tokens::chars_eq(s, "crate") || crate::view::tokens::chars_eq(s, "try")
        },
        _ => false,
    }
}

/// Whether `t` is the punctuation `c` joined to the next character.
fn joint_exec(t: &TokenTree, c: char) -> (r: bool)
    ensures
        r == joint(*t, c),
{
    match t {
        TokenTree::Punct(p, Spacing::Joint) => *p == c,
        _ => false,
    }
}

/// Whether the tokens at the front of the input open generic arguments.
fn angle_here(input: &Cursor) -> (r: bool)
    ensures
        r == angle_at(input@, 0),
{
    let t0 = input.peek(0);
    let t1 = input.peek(1);
    let t2 = input.peek(2);
    let lt = match t0 {
        Some(t) => crate::view::tokens::token_is_punct(t, '<'),
        None => false,
    };
    let j0 = match t0 {
        Some(t) => joint_exec(t, '<'),
        None => false,
    };
    let le = j0 && match t1 {
        Some(t) => crate::view::tokens::token_is_punct(t, '='),
        None => false,
    };
    let shl_eq = j0 && match t1 {
        Some(t) => joint_exec(t, '<'),
        None => false,
    } && match t2 {
        Some(t) => crate::view::tokens::token_is_punct(t, '='),
        None => false,
    };
    let turbofish = input.peek_path_sep(0) && match t2 {
        Some(t) => crate::view::tokens::token_is_punct(t, '<'),
        None => false,
    };
    (lt && !le && !shl_eq) || turbofish
}

/// Reading `::` at `k` of `s` is reading it at the front of `s.skip(k)`.
proof fn lemma_shift_path_sep(s: Seq<TokenTree>, k: int)
    requires
        0 <= k <= s.len(),
    ensures
        crate::view::tokens::is_path_sep(s, k) == crate::view::tokens::is_path_sep(s.skip(k), 0),
{
}

/// Reading generic arguments at `k` of `s` is reading them at the front of `s.skip(k)`.
proof fn lemma_shift_angle(s: Seq<TokenTree>, k: int)
    requires
        0 <= k <= s.len(),
    ensures
        angle_at(s, k) == angle_at(s.skip(k), 0),
{
    lemma_shift_path_sep(s, k);
}

// ------------------------------------------------------------------------------------------
// Attribute values
// ------------------------------------------------------------------------------------------

/// The value of an attribute.
pub enum AttributeValue {
    /// `(expr)`: the parenthesized group.
    Expr(TokenTree),
    /// A string literal.
    LitStr(TokenTree),
    /// An integer literal.
    LitInt(TokenTree),
    /// A float literal.
    LitFloat(TokenTree),
    /// `true` or `false`.
    LitBool(TokenTree),
    /// A path, by its tokens.
    Path(Vec<TokenTree>),
    /// `path(args)`: the path's tokens and the argument group.
    Call { func: Vec<TokenTree>, args: TokenTree },
    /// `path!(..)`, `path![..]` or `path!{..}`: the path's tokens and the delimited body.
    Macro { path: Vec<TokenTree>, body: TokenTree },
}

/// An attribute value, with token sequences for its paths.
pub enum AttributeValueV {
    Expr(TokenTree),
    LitStr(TokenTree),
    LitInt(TokenTree),
    LitFloat(TokenTree),
    LitBool(TokenTree),
    Path(Seq<TokenTree>),
    Call(Seq<TokenTree>, TokenTree),
    Macro(Seq<TokenTree>, TokenTree),
}

impl vstd::view::View for AttributeValue {
    type V = AttributeValueV;

    open spec fn view(&self) -> AttributeValueV {
        match self {
            AttributeValue::Expr(t) => AttributeValueV::Expr(*t),
            AttributeValue::LitStr(t) => AttributeValueV::LitStr(*t),
            AttributeValue::LitInt(t) => AttributeValueV::LitInt(*t),
            AttributeValue::LitFloat(t) => AttributeValueV::LitFloat(*t),
            AttributeValue::LitBool(t) => AttributeValueV::LitBool(*t),
            AttributeValue::Path(p) => AttributeValueV::Path(p@),
            AttributeValue::Call { func, args } => AttributeValueV::Call(func@, *args),
            AttributeValue::Macro { path, body } => AttributeValueV::Macro(path@, *body),
        }
    }
}

/// Whether `t` is a group delimited by parentheses, brackets or braces.
pub open spec fn macro_body(t: TokenTree) -> bool {
    ||| crate::view::tokens::is_group(t, Delimiter::Parenthesis)
    ||| crate::view::tokens::is_group(t, Delimiter::Bracket)
    ||| crate::view::tokens::is_group(t, Delimiter::Brace)
}

/// The attribute value at the front of `s` and how many tokens it takes. The first token
/// decides: parentheses hold an expression; a string, integer or float literal, `true` or
/// `false` stand for themselves; an identifier or `::` starts a path, which a `!` and a
/// delimited body make a macro call and parentheses make a call.
pub open spec fn attr_value_spec(s: Seq<TokenTree>) -> Result<(AttributeValueV, int), ParseError> {
    if s.len() == 0 {
        Err(ParseError::ExpectedAttributeValue)
    } else if crate::view::tokens::is_group(s[0], Delimiter::Parenthesis) {
        if s[0]->parses_as_expr {
            Ok((AttributeValueV::Expr(s[0]), 1))
        } else {
            Err(ParseError::InvalidExpr)
        }
    } else if lit_str(s[0]) {
        Ok((AttributeValueV::LitStr(s[0]), 1))
    } else if lit_int(s[0]) {
        Ok((AttributeValueV::LitInt(s[0]), 1))
    } else if lit_float(s[0]) {
        Ok((AttributeValueV::LitFloat(s[0]), 1))
    } else if lit_bool(s[0]) {
        Ok((AttributeValueV::LitBool(s[0]), 1))
    } else if s[0] is Ident || crate::view::tokens::is_path_sep(s, 0) {
        match path_len(s) {
            Err(e) => Err(e),
            Ok(n) => {
                if n < s.len() && crate::view::tokens::is_punct(s[n], '!') {
                    if n + 1 < s.len() && macro_body(s[n + 1]) {
                        Ok((AttributeValueV::Macro(s.take(n), s[n + 1]), n + 2))
                    } else {
                        Err(ParseError::ExpectedMacroDelimiter)
                    }
                } else if n < s.len() && crate::view::tokens::is_group(s[n], Delimiter::Parenthesis) {
                    if s[n]->parses_as_args {
                        Ok((AttributeValueV::Call(s.take(n), s[n]), n + 1))
                    } else {
                        Err(ParseError::InvalidArgs)
                    }
                } else {
                    Ok((AttributeValueV::Path(s.take(n)), n))
                }
            },
        }
    } else {
        Err(ParseError::ExpectedAttributeValue)
    }
}

/// Which literal class a token is in: 1 string, 2 integer, 3 float, 4 `true`/`false`, 0 none.
fn literal_class(t: &TokenTree) -> (r: u8)
    ensures
        r == 1 <==> lit_str(*t),
        r == 2 <==> lit_int(*t),
        r == 3 <==> lit_float(*t),
        r == 4 <==> lit_bool(*t),
        r <= 4,
{
    match t {
        TokenTree::Literal { kind: LitKind::Str(_), .. } => 1,
        TokenTree::Literal { kind: LitKind::Int(_), .. } => 2,
        TokenTree::Literal { kind: LitKind::Float(_), .. } => 3,
        TokenTree::Ident(n) => {
            if crate::view::tokens::chars_eq(n.as_str(), "true") || crate::view::tokens::chars_eq(n.as_str(), "false") {
                4
            } else {
                0
            }
        },
        _ => 0,
    }
}

/// Whether the group `t` holds one expression (false for anything but a group).
fn group_is_expr(t: &TokenTree) -> (r: bool)
    ensures
        t is Group ==> r == t->parses_as_expr,
{
    match t {
        TokenTree::Group { parses_as_expr, .. } => *parses_as_expr,
        _ => false,
    }
}

/// Whether the group `t` holds a list of expressions (false for anything but a group).
fn group_is_args(t: &TokenTree) -> (r: bool)
    ensures
        t is Group ==> r == t->parses_as_args,
{
    match t {
        TokenTree::Group { parses_as_args, .. } => *parses_as_args,
        _ => false,
    }
}

/// Whether `t` is a group delimited by parentheses, brackets or braces.
fn macro_body_exec(t: &TokenTree) -> (r: bool)
    ensures
        r == macro_body(*t),
{
    crate::view::tokens::token_is_group(t, Delimiter::Parenthesis)
        || crate::view::tokens::token_is_group(t, Delimiter::Bracket)
        || crate::view::tokens::token_is_group(t, Delimiter::Brace)
}

impl AttributeValue {
    /// Parses the attribute value at the front of the input.
    pub fn parse(input: &mut Cursor) -> (r: Result<Self, ParseError>)
        ensures
            match attr_value_spec(old(input)@) {
                Ok((v, n)) => r matches Ok(x) && x@ == v && final(input)@ == old(input)@.skip(n),
                Err(e) => r matches Err(e2) && e2 == e,
            },
    {
        let ghost s = input@;
        let first = match input.peek(0) {
            Some(t) => t,
            None => return Err(ParseError::ExpectedAttributeValue),
        };
        if crate::view::tokens::token_is_group(first, Delimiter::Parenthesis) {
            if !group_is_expr(first) {
                return Err(ParseError::InvalidExpr);
            }
            let t = input.next().unwrap();
            return Ok(AttributeValue::Expr(t));
        }
        let class = literal_class(first);
        let starts_path = matches!(first, TokenTree::Ident(_)) || input.peek_path_sep(0);
        if class == 1 {
            return Ok(AttributeValue::LitStr(input.next().unwrap()));
        } else if class == 2 {
            return Ok(AttributeValue::LitInt(input.next().unwrap()));
        } else if class == 3 {
            return Ok(AttributeValue::LitFloat(input.next().unwrap()));
        } else if class == 4 {
            return Ok(AttributeValue::LitBool(input.next().unwrap()));
        }
        if !starts_path {
            return Err(ParseError::ExpectedAttributeValue);
        }
        let path = parse_path(input)?;
        let ghost n: int = path@.len() as int;
        proof {
            lemma_path_len_bounds(s);
        }
        let bang = match input.peek(0) {
            Some(t) => crate::view::tokens::token_is_punct(t, '!'),
            None => false,
        };
        if bang {
            let body_ok = match input.peek(1) {
                Some(t) => macro_body_exec(t),
                None => false,
            };
            if !body_ok {
                return Err(ParseError::ExpectedMacroDelimiter);
            }
            let _bang = input.next();
            let body = input.next().unwrap();
            assert(input@ =~= s.skip(n + 2));
            return Ok(AttributeValue::Macro { path, body });
        }
        let call = match input.peek(0) {
            Some(t) => crate::view::tokens::token_is_group(t, Delimiter::Parenthesis),
            None => false,
        };
        if call {
            if !group_is_args(input.peek(0).unwrap()) {
                return Err(ParseError::InvalidArgs);
            }
            let args = input.next().unwrap();
            assert(input@ =~= s.skip(n + 1));
            return Ok(AttributeValue::Call { func: path, args });
        }
        Ok(AttributeValue::Path(path))
    }
}

/// An attribute value takes at least one token and no more than there are.
proof fn lemma_attr_value_bounds(s: Seq<TokenTree>)
    requires
        attr_value_spec(s) is Ok,
    ensures
        1 <= attr_value_spec(s)->Ok_0.1 <= s.len(),
{
    if s.len() > 0 && !crate::view::tokens::is_group(s[0], Delimiter::Parenthesis) && !lit_str(s[0])
        && !lit_int(s[0]) && !lit_float(s[0]) && !lit_bool(s[0]) {
        lemma_path_len_bounds(s);
    }
}

// ------------------------------------------------------------------------------------------
// Attributes
// ------------------------------------------------------------------------------------------

/// A single `name=value` attribute on an element or a component. Keywords are accepted as
/// names.
pub struct Attribute {
    pub name: TokenTree,
    pub value: AttributeValue,
}

/// An attribute, with its value's view.
pub struct AttributeV {
    pub name: TokenTree,
    pub value: AttributeValueV,
}

impl vstd::view::View for Attribute {
    type V = AttributeV;

    open spec fn view(&self) -> AttributeV {
        AttributeV { name: self.name, value: self.value@ }
    }
}

/// The attribute at the front of `s`: an identifier, `=`, and a value.
pub open spec fn attribute_spec(s: Seq<TokenTree>) -> Result<(AttributeV, int), ParseError> {
    if s.len() == 0 || !(s[0] is Ident) {
        Err(ParseError::ExpectedIdent)
    } else if !(s.len() > 1 && crate::view::tokens::is_punct(s[1], '=')) {
        Err(ParseError::ExpectedPunct('='))
    } else {
        match attr_value_spec(s.skip(2)) {
            Err(e) => Err(e),
            Ok((v, n)) => Ok((AttributeV { name: s[0], value: v }, n + 2)),
        }
    }
}

/// The attributes at the front of `s`: as many as start with `name =`.
pub open spec fn attributes_spec(s: Seq<TokenTree>) -> Result<(Seq<AttributeV>, int), ParseError>
    decreases s.len(),
{
    if attribute_peek(s) {
        match attribute_spec(s) {
            Err(e) => Err(e),
            Ok((a, n)) => {
                if 1 <= n <= s.len() {
                    match attributes_spec(s.skip(n)) {
                        Err(e) => Err(e),
                        Ok((rest, m)) => Ok((seq![a] + rest, n + m)),
                    }
                } else {
                    Err(ParseError::ExpectedAttributeValue)
                }
            },
        }
    } else {
        Ok((Seq::empty(), 0))
    }
}

/// The result of parsing `pre` and then what `rest` gives.
pub open spec fn after<A>(pre: Seq<A>, k: int, rest: Result<(Seq<A>, int), ParseError>) -> Result<(Seq<A>, int), ParseError> {
    match rest {
        Err(e) => Err(e),
        Ok((r, m)) => Ok((pre + r, k + m)),
    }
}

/// Attributes take no more tokens than there are.
proof fn lemma_attributes_bounds(s: Seq<TokenTree>)
    requires
        attributes_spec(s) is Ok,
    ensures
        0 <= attributes_spec(s)->Ok_0.1 <= s.len(),
    decreases s.len(),
{
    if attribute_peek(s) {
        let n = attribute_spec(s)->Ok_0.1;
        lemma_attributes_bounds(s.skip(n));
    }
}

impl Attribute {
    /// Parses the attribute at the front of the input.
    pub fn parse(input: &mut Cursor) -> (r: Result<Self, ParseError>)
        ensures
            match attribute_spec(old(input)@) {
                Ok((v, n)) => r matches Ok(x) && x@ == v && final(input)@ == old(input)@.skip(n),
                Err(e) => r matches Err(e2) && e2 == e,
            },
    {
        let ghost s = input@;
        let is_name = match input.peek(0) {
            Some(TokenTree::Ident(_)) => true,
            _ => false,
        };
        if !is_name {
            return Err(ParseError::ExpectedIdent);
        }
        let eq = match input.peek(1) {
            Some(t) => crate::view::tokens::token_is_punct(t, '='),
            None => false,
        };
        if !eq {
            return Err(ParseError::ExpectedPunct('='));
        }
        let name = input.next().unwrap();
        let _eq = input.next();
        assert(input@ =~= s.skip(2));
        let value = AttributeValue::parse(input)?;
        proof {
            lemma_attr_value_bounds(s.skip(2));
            assert(s.skip(2).skip(attr_value_spec(s.skip(2))->Ok_0.1) =~= s.skip(attr_value_spec(s.skip(2))->Ok_0.1 + 2));
        }
        Ok(Attribute { name, value })
    }

    /// Whether the input starts with an attribute: an identifier followed by `=`.
    pub fn peek(input: &Cursor) -> (r: bool)
        ensures
            r == attribute_peek(input@),
    {
        let name = match input.peek(0) {
            Some(TokenTree::Ident(_)) => true,
            _ => false,
        };
        name && match input.peek(1) {
            Some(t) => crate::view::tokens::token_is_punct(t, '='),
            None => false,
        }
    }
}

/// The full list of attributes attached to a single tag.
pub struct Attributes {
    pub items: Vec<Attribute>,
}

/// The views of a list of attributes.
pub open spec fn attrs_view(items: Seq<Attribute>) -> Seq<AttributeV> {
    Seq::new(items.len(), |i: int| items[i]@)
}

impl Attributes {
    /// Whether there are no attributes.
    pub fn is_empty(&self) -> (r: bool)
        ensures
            r == (self.items@.len() == 0),
    {
        self.items.len() == 0
    }

    /// Parses attributes for as long as the input starts with `name =`.
    pub fn parse(input: &mut Cursor) -> (r: Result<Self, ParseError>)
        ensures
            match attributes_spec(old(input)@) {
                Ok((v, n)) => r matches Ok(x) && attrs_view(x.items@) == v && final(input)@ == old(input)@.skip(n),
                Err(e) => r matches Err(e2) && e2 == e,
            },
    {
        let ghost s = input@;
        let mut items: Vec<Attribute> = Vec::new();
        let ghost mut k: int = 0;
        assert(s.skip(0) =~= s);
        assert(attrs_view(items@) =~= Seq::<AttributeV>::empty());
        assert(attributes_spec(s) =~= after(attrs_view(items@), k, attributes_spec(input@)));
        while Attribute::peek(input)
            invariant
                0 <= k <= s.len(),
                s == old(input)@,
                input@ == s.skip(k),
                attributes_spec(s) == after(attrs_view(items@), k, attributes_spec(input@)),
            decreases input@.len(),
        {
            let ghost before = input@;
            let a = Attribute::parse(input)?;
            proof {
                let n = attribute_spec(before)->Ok_0.1;
                lemma_attr_value_bounds(before.skip(2));
                assert(input@ =~= s.skip(k + n));
                assert(attrs_view(items@.push(a)) =~= attrs_view(items@) + seq![a@]);
                assert(attrs_view(items@) + (seq![a@] + attributes_spec(input@)->Ok_0.0) =~=
                    attrs_view(items@) + seq![a@] + attributes_spec(input@)->Ok_0.0);
                k = k + n;
            }
            items.push(a);
        }
        assert(attrs_view(items@) + Seq::<AttributeV>::empty() =~= attrs_view(items@));
        Ok(Attributes { items })
    }
}

// ------------------------------------------------------------------------------------------
// Element names and tags
// ------------------------------------------------------------------------------------------

/// The name of an element: an identifier, a string literal, or a parenthesized expression.
#[derive(Debug, PartialEq, Eq)]
pub enum ElementName {
    Ident(TokenTree),
    LitStr(TokenTree),
    Expr(TokenTree),
}

/// The element name at the front of `s`.
pub open spec fn element_name_spec(s: Seq<TokenTree>) -> Result<(ElementName, int), ParseError> {
    if s.len() == 0 {
        Err(ParseError::ExpectedElementName)
    } else if plain_ident(s[0]) {
        Ok((ElementName::Ident(s[0]), 1))
    } else if lit_str(s[0]) {
        Ok((ElementName::LitStr(s[0]), 1))
    } else if crate::view::tokens::is_group(s[0], Delimiter::Parenthesis) {
        if s[0]->parses_as_expr {
            Ok((ElementName::Expr(s[0]), 1))
        } else {
            Err(ParseError::InvalidExpr)
        }
    } else {
        Err(ParseError::ExpectedElementName)
    }
}

/// Whether two element names name the same element: the same kind of name with the same
/// tokens.
pub open spec fn same_name(a: ElementName, b: ElementName) -> bool {
    match (a, b) {
        (ElementName::Ident(x), ElementName::Ident(y)) => crate::view::tokens::tree_eq(x, y),
        (ElementName::LitStr(x), ElementName::LitStr(y)) => crate::view::tokens::tree_eq(x, y),
        (ElementName::Expr(x), ElementName::Expr(y)) => crate::view::tokens::tree_eq(x, y),
        _ => false,
    }
}

/// The HTML elements that have no closing tag and no children.
pub open spec fn void_word(n: Seq<char>) -> bool {
    ||| n == "area"@
    ||| n == "base"@
    ||| n == "br"@
    ||| n == "col"@
    ||| n == "embed"@
    ||| n == "hr"@
    ||| n == "img"@
    ||| n == "input"@
    ||| n == "link"@
    ||| n == "meta"@
    ||| n == "source"@
    ||| n == "track"@
    ||| n == "wbr"@
}

/// Whether the name is an identifier naming a void element.
pub open spec fn is_void(name: ElementName) -> bool {
    name matches ElementName::Ident(TokenTree::Ident(n)) && void_word(n@)
}

/// The text of a name that is known at compile time.
pub open spec fn name_text(name: ElementName) -> Option<Seq<char>> {
    match name {
        ElementName::Ident(TokenTree::Ident(n)) => Some(n@),
        ElementName::LitStr(TokenTree::Literal { kind: LitKind::Str(v), .. }) => Some(v@),
        _ => None,
    }
}

impl ElementName {
    /// Parses the element name at the front of the input.
    pub fn parse(input: &mut Cursor) -> (r: Result<Self, ParseError>)
        ensures
            match element_name_spec(old(input)@) {
                Ok((v, n)) => r matches Ok(x) && x == v && final(input)@ == old(input)@.skip(n),
                Err(e) => r matches Err(e2) && e2 == e,
            },
    {
        let ghost s = input@;
        let kind: u8 = match input.peek(0) {
            None => 0,
            Some(t) => match t {
                TokenTree::Ident(n) => if crate::view::tokens::ident_is_keyword(n.as_str()) { 0 } else { 1 },
                TokenTree::Literal { kind: LitKind::Str(_), .. } => 2,
                TokenTree::Group { delimiter: Delimiter::Parenthesis, parses_as_expr, .. } => if *parses_as_expr { 3 } else { 4 },
                _ => 0,
            },
        };
        if kind == 0 {
            return Err(ParseError::ExpectedElementName);
        }
        if kind == 4 {
            return Err(ParseError::InvalidExpr);
        }
        let t = input.next().unwrap();
        if kind == 1 {
            Ok(ElementName::Ident(t))
        } else if kind == 2 {
            Ok(ElementName::LitStr(t))
        } else {
            Ok(ElementName::Expr(t))
        }
    }

    /// The name's text where it is known at compile time: the identifier, or the string
    /// literal's value; `None` for an expression.
    pub fn string_name(&self) -> (r: Option<String>)
        ensures
            match name_text(*self) {
                Some(t) => r matches Some(s) && s@ == t,
                None => r is None,
            },
    {
        match self {
            ElementName::Ident(TokenTree::Ident(n)) => Some(n.clone()),
            ElementName::LitStr(TokenTree::Literal { kind: LitKind::Str(v), .. }) => Some(v.clone()),
            _ => None,
        }
    }

    /// Whether the name is one of the void elements (`area`, `base`, `br`, `col`, `embed`,
    /// `hr`, `img`, `input`, `link`, `meta`, `source`, `track`, `wbr`), written as an
    /// identifier.
    pub fn is_void_element(&self) -> (r: bool)
        ensures
            r == is_void(*self),
    {
        match self {
            ElementName::Ident(TokenTree::Ident(n)) => {
                let s = n.as_str();
                crate::view::tokens::chars_eq(s, "area") || crate::view::tokens::chars_eq(s, "base")
                    || crate::view::tokens::chars_eq(s, "br") || crate::view::tokens::chars_eq(s, "col")
                    || crate::view::tokens::chars_eq(s, "embed") || crate::view::tokens::chars_eq(s, "hr")
                    || crate::view::tokens::chars_eq(s, "img") || crate::view::tokens::chars_eq(s, "input")
                    || crate::view::tokens::chars_eq(s, "link") || crate::view::tokens::chars_eq(s, "meta")
                    || crate::view::tokens::chars_eq(s, "source") || crate::view::tokens::chars_eq(s, "track")
                    || crate::view::tokens::chars_eq(s, "wbr")
            },
            _ => false,
        }
    }

    /// The expression of a name given as one.
    pub fn expr(&self) -> (r: Option<&TokenTree>)
        ensures
            match *self {
                ElementName::Expr(t) => r == Some(&t),
                _ => r is None,
            },
    {
        match self {
            ElementName::Expr(t) => Some(t),
            _ => None,
        }
    }

    /// Whether `self` and `other` name the same element.
    pub fn same(&self, other: &ElementName) -> (r: bool)
        ensures
            r == same_name(*self, *other),
    {
        match (self, other) {
            (ElementName::Ident(x), ElementName::Ident(y)) => crate::view::tokens::token_tree_eq(x, y),
            (ElementName::LitStr(x), ElementName::LitStr(y)) => crate::view::tokens::token_tree_eq(x, y),
            (ElementName::Expr(x), ElementName::Expr(y)) => crate::view::tokens::token_tree_eq(x, y),
            _ => false,
        }
    }
}

/// `<name attributes>`.
pub struct OpeningTag {
    pub name: ElementName,
    pub attributes: Attributes,
}

/// An opening tag, with its attributes' views.
pub struct OpeningTagV {
    pub name: ElementName,
    pub attributes: Seq<AttributeV>,
}

impl vstd::view::View for OpeningTag {
    type V = OpeningTagV;

    open spec fn view(&self) -> OpeningTagV {
        OpeningTagV { name: self.name, attributes: attrs_view(self.attributes.items@) }
    }
}

/// The opening tag at the front of `s`: `<`, a name, attributes, `>`.
pub open spec fn opening_tag_spec(s: Seq<TokenTree>) -> Result<(OpeningTagV, int), ParseError> {
    if !(s.len() > 0 && crate::view::tokens::is_punct(s[0], '<')) {
        Err(ParseError::ExpectedPunct('<'))
    } else {
        match element_name_spec(s.skip(1)) {
            Err(e) => Err(e),
            Ok((name, a)) => match attributes_spec(s.skip(1 + a)) {
                Err(e) => Err(e),
                Ok((attrs, b)) => {
                    let k = 1 + a + b;
                    if 0 <= k < s.len() && crate::view::tokens::is_punct(s[k], '>') {
                        Ok((OpeningTagV { name, attributes: attrs }, k + 1))
                    } else {
                        Err(ParseError::ExpectedPunct('>'))
                    }
                },
            },
        }
    }
}

/// `</name>`.
pub struct ClosingTag {
    pub name: ElementName,
}

/// The closing tag at the front of `s`: `<`, `/`, a name, `>`; gives the name.
pub open spec fn closing_tag_spec(s: Seq<TokenTree>) -> Result<(ElementName, int), ParseError> {
    if !(s.len() > 0 && crate::view::tokens::is_punct(s[0], '<')) {
        Err(ParseError::ExpectedPunct('<'))
    } else if !(s.len() > 1 && crate::view::tokens::is_punct(s[1], '/')) {
        Err(ParseError::ExpectedPunct('/'))
    } else {
        match element_name_spec(s.skip(2)) {
            Err(e) => Err(e),
            Ok((name, a)) => {
                if 0 <= 2 + a < s.len() && crate::view::tokens::is_punct(s[2 + a], '>') {
                    Ok((name, 3 + a))
                } else {
                    Err(ParseError::ExpectedPunct('>'))
                }
            },
        }
    }
}

/// Takes the punctuation `c` off the front of the input.
fn expect_punct(input: &mut Cursor, c: char) -> (r: Result<(), ParseError>)
    ensures
        old(input)@.len() > 0 && crate::view::tokens::is_punct(old(input)@[0], c) ==> r is Ok
            && final(input)@ == old(input)@.drop_first(),
        !(old(input)@.len() > 0 && crate::view::tokens::is_punct(old(input)@[0], c)) ==> r == Err::<(), ParseError>(
            ParseError::ExpectedPunct(c),
        ),
{
    let ok = match input.peek(0) {
        Some(t) => crate::view::tokens::token_is_punct(t, c),
        None => false,
    };
    if ok {
        let _t = input.next();
        Ok(())
    } else {
        Err(ParseError::ExpectedPunct(c))
    }
}

impl OpeningTag {
    /// Parses the opening tag at the front of the input.
    pub fn parse(input: &mut Cursor) -> (r: Result<Self, ParseError>)
        ensures
            match opening_tag_spec(old(input)@) {
                Ok((v, n)) => r matches Ok(x) && x@ == v && final(input)@ == old(input)@.skip(n),
                Err(e) => r matches Err(e2) && e2 == e,
            },
    {
        let ghost s = input@;
        expect_punct(input, '<')?;
        assert(input@ =~= s.skip(1));
        let name = ElementName::parse(input)?;
        let ghost a = element_name_spec(s.skip(1))->Ok_0.1;
        assert(a == 1);
        assert(input@ =~= s.skip(1 + a));
        let attributes = Attributes::parse(input)?;
        let ghost b = attributes_spec(s.skip(1 + a))->Ok_0.1;
        proof {
            lemma_attributes_bounds(s.skip(1 + a));
            assert(input@ =~= s.skip(1 + a + b));
        }
        expect_punct(input, '>')?;
        assert(input@ =~= s.skip(1 + a + b + 1));
        Ok(OpeningTag { name, attributes })
    }
}

impl ClosingTag {
    /// Parses the closing tag at the front of the input.
    pub fn parse(input: &mut Cursor) -> (r: Result<Self, ParseError>)
        ensures
            match closing_tag_spec(old(input)@) {
                Ok((v, n)) => r matches Ok(x) && x.name == v && final(input)@ == old(input)@.skip(n),
                Err(e) => r matches Err(e2) && e2 == e,
            },
    {
        let ghost s = input@;
        expect_punct(input, '<')?;
        let slash = match input.peek(0) {
            Some(t) => crate::view::tokens::token_is_punct(t, '/'),
            None => false,
        };
        if !slash {
            return Err(ParseError::ExpectedPunct('/'));
        }
        let _slash = input.next();
        assert(input@ =~= s.skip(2));
        let name = ElementName::parse(input)?;
        assert(input@ =~= s.skip(3));
        expect_punct(input, '>')?;
        assert(input@ =~= s.skip(4));
        Ok(ClosingTag { name })
    }

    /// Whether the input starts with `</`.
    pub fn peek(input: &Cursor) -> (r: bool)
        ensures
            r == closing_peek(input@),
    {
        let lt = match input.peek(0) {
            Some(t) => crate::view::tokens::token_is_punct(t, '<'),
            None => false,
        };
        lt && match input.peek(1) {
            Some(t) => crate::view::tokens::token_is_punct(t, '/'),
            None => false,
        }
    }
}

// ------------------------------------------------------------------------------------------
// Nodes and elements
// ------------------------------------------------------------------------------------------

/// A node of a view.
pub enum Node {
    /// An element, with its children.
    Element(Box<Element>),
    /// A string literal, written as escaped text.
    Text(TokenTree),
    /// `(expr)`: a view computed by an expression.
    Expr(NodeExpr),
    /// `{ nodes }`.
    Block(NodeBlock),
    /// `let pattern = value;`.
    Let(NodeLet),
    /// `if cond { nodes } else ..`.
    If(Box<NodeIf>),
}

/// `(expr)`: the parenthesized group.
pub struct NodeExpr {
    pub expr: TokenTree,
}

/// `{ nodes }`: the nodes inside the braces.
pub struct NodeBlock {
    pub children: Vec<Node>,
}

/// `let pattern = value;`: the tokens from `let` up to the `;`.
pub struct NodeLet {
    pub tokens: Vec<TokenTree>,
}

/// `if cond { nodes }`, with an optional `else`.
pub struct NodeIf {
    pub cond: Vec<TokenTree>,
    pub then_branch: NodeBlock,
    pub else_branch: Option<NodeElse>,
}

/// The `else` of an `if`.
pub enum NodeElse {
    /// `else if ..`.
    ElseIf(Box<NodeIf>),
    /// `else { nodes }`.
    Else(NodeBlock),
}

/// An element: with children and a closing tag, or void.
pub enum Element {
    Normal { opening_tag: OpeningTag, children: Vec<Node>, closing_tag: ClosingTag },
    Void { tag: OpeningTag },
}

/// A node, with sequences for its lists.
pub enum NodeV {
    Element(ElementV),
    Text(TokenTree),
    Expr(TokenTree),
    Block(Seq<NodeV>),
    Let(Seq<TokenTree>),
    If(NodeIfV),
}

/// An `if` node, with sequences for its lists.
pub struct NodeIfV {
    pub cond: Seq<TokenTree>,
    pub then_branch: Seq<NodeV>,
    pub else_branch: Option<NodeElseV>,
}

/// An `else`, with sequences for its lists.
pub enum NodeElseV {
    ElseIf(Box<NodeIfV>),
    Else(Seq<NodeV>),
}

/// An element, with sequences for its lists.
pub enum ElementV {
    Normal { opening: OpeningTagV, children: Seq<NodeV>, closing: ElementName },
    Void { tag: OpeningTagV },
}

/// The view of a node.
pub open spec fn node_view(n: Node) -> NodeV
    decreases n,
{
    match n {
        Node::Element(e) => NodeV::Element(element_view(*e)),
        Node::Text(t) => NodeV::Text(t),
        Node::Expr(x) => NodeV::Expr(x.expr),
        Node::Block(b) => {
            proof {
                vstd::std_specs::vec::axiom_vec_decreases_to_view(b.children);
            }
            NodeV::Block(nodes_view(b.children@))
        },
        Node::Let(l) => NodeV::Let(l.tokens@),
        Node::If(i) => NodeV::If(if_view(*i)),
    }
}

/// The views of a list of nodes.
pub open spec fn nodes_view(ns: Seq<Node>) -> Seq<NodeV>
    decreases ns,
{
    if ns.len() == 0 {
        Seq::empty()
    } else {
        nodes_view(ns.drop_last()).push(node_view(ns.last()))
    }
}

/// The view of an element.
pub open spec fn element_view(e: Element) -> ElementV
    decreases e,
{
    match e {
        Element::Normal { opening_tag, children, closing_tag } => {
            proof {
                vstd::std_specs::vec::axiom_vec_decreases_to_view(children);
            }
            ElementV::Normal { opening: opening_tag@, children: nodes_view(children@), closing: closing_tag.name }
        },
        Element::Void { tag } => ElementV::Void { tag: tag@ },
    }
}

/// The view of an `if` node.
pub open spec fn if_view(i: NodeIf) -> NodeIfV
    decreases i,
{
    proof {
        vstd::std_specs::vec::axiom_vec_decreases_to_view(i.then_branch.children);
    }
    NodeIfV {
        cond: i.cond@,
        then_branch: nodes_view(i.then_branch.children@),
        else_branch: match i.else_branch {
            Some(e) => Some(else_view(e)),
            None => None,
        },
    }
}

/// The view of an `else`.
pub open spec fn else_view(e: NodeElse) -> NodeElseV
    decreases e,
{
    match e {
        NodeElse::ElseIf(i) => NodeElseV::ElseIf(Box::new(if_view(*i))),
        NodeElse::Else(b) => {
            proof {
                vstd::std_specs::vec::axiom_vec_decreases_to_view(b.children);
            }
            NodeElseV::Else(nodes_view(b.children@))
        },
    }
}

/// The index of the first brace group at or after `k`, or the length of `s`.
pub open spec fn first_brace(s: Seq<TokenTree>, k: int) -> int
    decreases s.len() - k,
{
    if k < 0 || k >= s.len() {
        s.len() as int
    } else if crate::view::tokens::is_group(s[k], Delimiter::Brace) {
        k
    } else {
        first_brace(s, k + 1)
    }
}

/// The index of the first `;` at or after `k`, or the length of `s`.
pub open spec fn first_semi(s: Seq<TokenTree>, k: int) -> int
    decreases s.len() - k,
{
    if k < 0 || k >= s.len() {
        s.len() as int
    } else if crate::view::tokens::is_punct(s[k], ';') {
        k
    } else {
        first_semi(s, k + 1)
    }
}

/// The `let` node at the front of `s`: `let`, then the tokens up to the first `;`.
pub open spec fn let_spec(s: Seq<TokenTree>) -> Result<(NodeV, int), ParseError> {
    let j = first_semi(s, 1);
    if !(s.len() > 0 && crate::view::tokens::is_ident(s[0], "let"@)) {
        Err(ParseError::ExpectedLet)
    } else if 1 <= j < s.len() {
        Ok((NodeV::Let(s.take(j)), j + 1))
    } else {
        Err(ParseError::ExpectedSemicolon)
    }
}

/// The nodes of `s`, up to its end or to a closing tag, and how many tokens they take.
pub open spec fn children_spec(s: Seq<TokenTree>) -> Result<(Seq<NodeV>, int), ParseError>
    decreases s, 3int,
{
    if s.len() == 0 || closing_peek(s) {
        Ok((Seq::empty(), 0))
    } else {
        match node_spec(s) {
            Err(e) => Err(e),
            Ok((nd, n)) => {
                if 1 <= n <= s.len() {
                    after(seq![nd], n, children_spec(s.skip(n)))
                } else {
                    Err(ParseError::ExpectedNode)
                }
            },
        }
    }
}

/// All the nodes of `s`.
pub open spec fn nodes_spec(s: Seq<TokenTree>) -> Result<Seq<NodeV>, ParseError>
    decreases s, 3int,
{
    if s.len() == 0 {
        Ok(Seq::empty())
    } else {
        match node_spec(s) {
            Err(e) => Err(e),
            Ok((nd, n)) => {
                if 1 <= n <= s.len() {
                    match nodes_spec(s.skip(n)) {
                        Err(e) => Err(e),
                        Ok(rest) => Ok(seq![nd] + rest),
                    }
                } else {
                    Err(ParseError::ExpectedNode)
                }
            },
        }
    }
}

/// The nodes inside the brace group at `k` of `s`.
pub open spec fn block_spec(s: Seq<TokenTree>, k: int) -> Result<Seq<NodeV>, ParseError>
    decreases s, 0int,
{
    if 0 <= k < s.len() && crate::view::tokens::is_group(s[k], Delimiter::Brace) {
        let stream = s[k]->stream;
        proof {
            vstd::std_specs::vec::axiom_vec_decreases_to_view(stream);
            assert(decreases_to!(s => s[k]));
        }
        nodes_spec(stream@)
    } else {
        Err(ParseError::ExpectedBlock)
    }
}

/// The node at the front of `s`, chosen by its first token: `<` starts an element,
/// parentheses hold an expression, braces a block, `if` and `let` their nodes, and a string
/// literal is text.
pub open spec fn node_spec(s: Seq<TokenTree>) -> Result<(NodeV, int), ParseError>
    decreases s, 2int,
{
    if s.len() == 0 {
        Err(ParseError::ExpectedNode)
    } else if crate::view::tokens::is_punct(s[0], '<') {
        match element_spec(s) {
            Err(e) => Err(e),
            Ok((el, n)) => Ok((NodeV::Element(el), n)),
        }
    } else if crate::view::tokens::is_group(s[0], Delimiter::Parenthesis) {
        if s[0]->parses_as_expr {
            Ok((NodeV::Expr(s[0]), 1))
        } else {
            Err(ParseError::InvalidExpr)
        }
    } else if crate::view::tokens::is_group(s[0], Delimiter::Brace) {
        match block_spec(s, 0) {
            Err(e) => Err(e),
            Ok(ns) => Ok((NodeV::Block(ns), 1)),
        }
    } else if crate::view::tokens::is_ident(s[0], "if"@) {
        match if_spec(s) {
            Err(e) => Err(e),
            Ok((i, n)) => Ok((NodeV::If(i), n)),
        }
    } else if crate::view::tokens::is_ident(s[0], "let"@) {
        let_spec(s)
    } else if lit_str(s[0]) {
        Ok((NodeV::Text(s[0]), 1))
    } else {
        Err(ParseError::ExpectedNode)
    }
}

/// The `if` node at the front of `s`: `if`, a condition up to the first brace group, that
/// block, then optionally `else if ..` or `else { .. }`.
pub open spec fn if_spec(s: Seq<TokenTree>) -> Result<(NodeIfV, int), ParseError>
    decreases s, 1int,
{
    let b = first_brace(s, 1);
    if s.len() == 0 || !crate::view::tokens::is_ident(s[0], "if"@) {
        Err(ParseError::ExpectedNode)
    } else if b <= 1 {
        Err(ParseError::EmptyCondition)
    } else if b >= s.len() {
        Err(ParseError::ExpectedBlock)
    } else {
        match block_spec(s, b) {
            Err(e) => Err(e),
            Ok(then_branch) => {
                let j = b + 1;
                if j < s.len() && crate::view::tokens::is_ident(s[j], "else"@) {
                    if j + 1 < s.len() && crate::view::tokens::is_ident(s[j + 1], "if"@) {
                        match if_spec(s.skip(j + 1)) {
                            Err(e) => Err(e),
                            Ok((inner, n)) => Ok((
                                NodeIfV { cond: s.subrange(1, b), then_branch, else_branch: Some(NodeElseV::ElseIf(Box::new(inner))) },
                                j + 1 + n,
                            )),
                        }
                    } else {
                        match block_spec(s, j + 1) {
                            Err(e) => Err(e),
                            Ok(else_nodes) => Ok((
                                NodeIfV { cond: s.subrange(1, b), then_branch, else_branch: Some(NodeElseV::Else(else_nodes)) },
                                j + 2,
                            )),
                        }
                    }
                } else {
                    Ok((NodeIfV { cond: s.subrange(1, b), then_branch, else_branch: None }, j))
                }
            },
        }
    }
}

/// The element at the front of `s`: an opening tag; for a void element nothing more;
/// otherwise children up to a closing tag, which must name the same element.
pub open spec fn element_spec(s: Seq<TokenTree>) -> Result<(ElementV, int), ParseError>
    decreases s, 1int,
{
    match opening_tag_spec(s) {
        Err(e) => Err(e),
        Ok((open, k)) => {
            if is_void(open.name) {
                Ok((ElementV::Void { tag: open }, k))
            } else if 1 <= k <= s.len() {
                match children_spec(s.skip(k)) {
                    Err(e) => Err(e),
                    Ok((kids, m)) => {
                        if 0 <= m && k + m <= s.len() {
                            let rest = s.skip(k + m);
                            if rest.len() == 0 {
                                Err(ParseError::MissingClosingTag(open.name))
                            } else {
                                match closing_tag_spec(rest) {
                                    Err(e) => Err(e),
                                    Ok((close, c)) => {
                                        if same_name(close, open.name) {
                                            Ok((ElementV::Normal { opening: open, children: kids, closing: close }, k + m + c))
                                        } else {
                                            Err(ParseError::MismatchedClosingTag { closing: close, opening: open.name })
                                        }
                                    },
                                }
                            }
                        } else {
                            Err(ParseError::ExpectedNode)
                        }
                    },
                }
            } else {
                Err(ParseError::ExpectedPunct('>'))
            }
        },
    }
}

/// Parsing `pre`, then `[nd]`, then what `rest` gives, is parsing `pre` with `nd` pushed.
proof fn lemma_after_push<A>(pre: Seq<A>, k: int, nd: A, n: int, rest: Result<(Seq<A>, int), ParseError>)
    ensures
        after(pre, k, after(seq![nd], n, rest)) == after(pre.push(nd), k + n, rest),
{
    match rest {
        Err(e) => {},
        Ok((r, m)) => {
            assert(pre + (seq![nd] + r) =~= pre.push(nd) + r);
        },
    }
}

/// The views of a list with one more node.
proof fn lemma_nodes_view_push(ns: Seq<Node>, x: Node)
    ensures
        nodes_view(ns.push(x)) == nodes_view(ns).push(node_view(x)),
{
    assert(ns.push(x).drop_last() =~= ns);
}

/// What kind of node the input starts with: 1 element, 2 expression, 3 block, 4 `if`,
/// 5 `let`, 6 text, 7 parentheses that hold no expression, 0 none.
fn node_kind(input: &Cursor) -> (r: u8)
    ensures
        input@.len() == 0 ==> r == 0,
        input@.len() > 0 ==> {
            let t = input@[0];
            &&& (r == 1) == crate::view::tokens::is_punct(t, '<')
            &&& (r == 2) == (crate::view::tokens::is_group(t, Delimiter::Parenthesis) && t->parses_as_expr)
            &&& (r == 7) == (crate::view::tokens::is_group(t, Delimiter::Parenthesis) && !t->parses_as_expr)
            &&& (r == 3) == crate::view::tokens::is_group(t, Delimiter::Brace)
            &&& (r == 4) == crate::view::tokens::is_ident(t, "if"@)
            &&& (r == 5) == crate::view::tokens::is_ident(t, "let"@)
            &&& (r == 6) == lit_str(t)
            &&& r <= 7
        },
{
    proof {
        reveal_strlit("if");
        reveal_strlit("let");
        assert("if"@ != "let"@) by {
            assert("if"@.len() != "let"@.len());
        }
    }
    match input.peek(0) {
        None => 0,
        Some(t) => match t {
            TokenTree::Punct(c, _) => if *c == '<' { 1 } else { 0 },
            TokenTree::Group { delimiter: Delimiter::Parenthesis, parses_as_expr, .. } => if *parses_as_expr { 2 } else { 7 },
            TokenTree::Group { delimiter: Delimiter::Brace, .. } => 3,
            TokenTree::Ident(_) => {
                if crate::view::tokens::token_is_ident(t, "if") {
                    4
                } else if crate::view::tokens::token_is_ident(t, "let") {
                    5
                } else {
                    0
                }
            },
            TokenTree::Literal { kind: LitKind::Str(_), .. } => 6,
            _ => 0,
        },
    }
}

/// Parses all the nodes of the input.
fn parse_nodes(input: &mut Cursor) -> (r: Result<Vec<Node>, ParseError>)
    ensures
        match nodes_spec(old(input)@) {
            Ok(v) => r matches Ok(x) && nodes_view(x@) == v,
            Err(e) => r matches Err(e2) && e2 == e,
        },
    decreases old(input)@, 3int,
{
    let ghost s = input@;
    let mut items: Vec<Node> = Vec::new();
    let ghost mut k: int = 0;
    assert(s.skip(0) =~= s);
    assert(nodes_view(items@) =~= Seq::<NodeV>::empty());
    while !input.is_empty()
        invariant
            0 <= k <= s.len(),
            s == old(input)@,
            input@ == s.skip(k),
            nodes_spec(s) == match nodes_spec(input@) {
                Err(e) => Err(e),
                Ok(rest) => Ok(nodes_view(items@) + rest),
            },
        decreases input@.len(),
    {
        let ghost before = input@;
        proof {
            if k == 0 {
                assert(before =~= s);
            } else {
                assert(decreases_to!(s => before));
            }
        }
        let x = Node::parse(input)?;
        proof {
            let n = node_spec(before)->Ok_0.1;
            lemma_node_len(before);
            assert(input@ =~= s.skip(k + n));
            lemma_nodes_view_push(items@, x);
            match nodes_spec(input@) {
                Err(e) => {},
                Ok(rest) => {
                    assert(nodes_view(items@) + (seq![node_view(x)] + rest) =~= nodes_view(items@).push(node_view(x)) + rest);
                },
            }
            k = k + n;
        }
        items.push(x);
    }
    assert(nodes_view(items@) + Seq::<NodeV>::empty() =~= nodes_view(items@));
    Ok(items)
}

/// Parses nodes up to the end of the input or to a closing tag.
fn parse_children(input: &mut Cursor) -> (r: Result<Vec<Node>, ParseError>)
    ensures
        match children_spec(old(input)@) {
            Ok((v, n)) => r matches Ok(x) && nodes_view(x@) == v && final(input)@ == old(input)@.skip(n),
            Err(e) => r matches Err(e2) && e2 == e,
        },
    decreases old(input)@, 3int,
{
    let ghost s = input@;
    let mut items: Vec<Node> = Vec::new();
    let ghost mut k: int = 0;
    assert(s.skip(0) =~= s);
    assert(nodes_view(items@) =~= Seq::<NodeV>::empty());
    while !input.is_empty() && !ClosingTag::peek(input)
        invariant
            0 <= k <= s.len(),
            s == old(input)@,
            input@ == s.skip(k),
            children_spec(s) == after(nodes_view(items@), k, children_spec(input@)),
        decreases input@.len(),
    {
        let ghost before = input@;
        proof {
            if k == 0 {
                assert(before =~= s);
            } else {
                assert(decreases_to!(s => before));
            }
        }
        let x = Node::parse(input)?;
        proof {
            let n = node_spec(before)->Ok_0.1;
            lemma_node_len(before);
            assert(input@ =~= s.skip(k + n));
            lemma_nodes_view_push(items@, x);
            lemma_after_push(nodes_view(items@), k, node_view(x), n, children_spec(input@));
            k = k + n;
        }
        items.push(x);
    }
    assert(nodes_view(items@) + Seq::<NodeV>::empty() =~= nodes_view(items@));
    Ok(items)
}

/// A node takes at least one token and no more than there are.
proof fn lemma_node_len(s: Seq<TokenTree>)
    requires
        node_spec(s) is Ok,
    ensures
        1 <= node_spec(s)->Ok_0.1 <= s.len(),
{
    if crate::view::tokens::is_punct(s[0], '<') {
        lemma_element_len(s);
    } else if crate::view::tokens::is_ident(s[0], "if"@) {
        lemma_if_len(s);
    } else if crate::view::tokens::is_ident(s[0], "let"@) {
    }
}

/// An element takes at least one token and no more than there are.
proof fn lemma_element_len(s: Seq<TokenTree>)
    requires
        element_spec(s) is Ok,
    ensures
        1 <= element_spec(s)->Ok_0.1 <= s.len(),
{
    let k = opening_tag_spec(s)->Ok_0.1;
    lemma_opening_len(s);
    if !is_void(opening_tag_spec(s)->Ok_0.0.name) {
        let m = children_spec(s.skip(k))->Ok_0.1;
        let rest = s.skip(k + m);
        lemma_closing_len(rest);
    }
}

/// An opening tag takes at least one token and no more than there are.
proof fn lemma_opening_len(s: Seq<TokenTree>)
    requires
        opening_tag_spec(s) is Ok,
    ensures
        3 <= opening_tag_spec(s)->Ok_0.1 <= s.len(),
{
    let a = element_name_spec(s.skip(1))->Ok_0.1;
    lemma_attributes_bounds(s.skip(1 + a));
}

/// A closing tag takes no more tokens than there are.
proof fn lemma_closing_len(s: Seq<TokenTree>)
    requires
        closing_tag_spec(s) is Ok,
    ensures
        1 <= closing_tag_spec(s)->Ok_0.1 <= s.len(),
{
}

/// An `if` node takes at least one token and no more than there are.
proof fn lemma_if_len(s: Seq<TokenTree>)
    requires
        if_spec(s) is Ok,
    ensures
        1 <= if_spec(s)->Ok_0.1 <= s.len(),
    decreases s.len(),
{
    let b = first_brace(s, 1);
    let j = b + 1;
    assert(1 < b < s.len());
    if j < s.len() && crate::view::tokens::is_ident(s[j], "else"@) {
        if j + 1 < s.len() && crate::view::tokens::is_ident(s[j + 1], "if"@) {
            lemma_if_len(s.skip(j + 1));
            assert(if_spec(s)->Ok_0.1 == j + 1 + if_spec(s.skip(j + 1))->Ok_0.1);
        } else {
            assert(block_spec(s, j + 1) is Ok);
            assert(if_spec(s)->Ok_0.1 == j + 2);
        }
    } else {
        assert(if_spec(s)->Ok_0.1 == j);
    }
}

/// Reading the block at `k` of `s` is reading it at the front of `s.skip(k)`.
proof fn lemma_block_shift(s: Seq<TokenTree>, k: int)
    requires
        0 <= k <= s.len(),
    ensures
        block_spec(s.skip(k), 0) == block_spec(s, k),
{
    if k < s.len() {
        assert(s.skip(k)[0] == s[k]);
    }
}

/// Nodes up to a closing tag take no more tokens than there are.
proof fn lemma_children_len(s: Seq<TokenTree>)
    requires
        children_spec(s) is Ok,
    ensures
        0 <= children_spec(s)->Ok_0.1 <= s.len(),
    decreases s.len(),
{
    if !(s.len() == 0 || closing_peek(s)) {
        let n = node_spec(s)->Ok_0.1;
        lemma_node_len(s);
        lemma_children_len(s.skip(n));
    }
}

/// Parses the brace group at the front of the input into the nodes it holds.
fn parse_block(input: &mut Cursor) -> (r: Result<NodeBlock, ParseError>)
    ensures
        match block_spec(old(input)@, 0) {
            Ok(v) => r matches Ok(b) && nodes_view(b.children@) == v && final(input)@ == old(input)@.skip(1),
            Err(e) => r matches Err(e2) && e2 == e,
        },
    decreases old(input)@, 0int,
{
    let ghost s = input@;
    let is_brace = match input.peek(0) {
        Some(t) => crate::view::tokens::token_is_group(t, Delimiter::Brace),
        None => false,
    };
    if !is_brace {
        return Err(ParseError::ExpectedBlock);
    }
    let t = input.next().unwrap();
    let ghost t0 = t;
    match t {
        TokenTree::Group { stream, .. } => {
            proof {
                vstd::std_specs::vec::axiom_vec_decreases_to_view(stream);
                assert(decreases_to!(s => s[0]));
            }
            let mut c = Cursor::new(stream);
            let children = parse_nodes(&mut c)?;
            Ok(NodeBlock { children })
        },
        _ => Err(ParseError::ExpectedBlock),
    }
}

impl NodeLet {
    /// Parses `let .. ;` at the front of the input.
    pub fn parse(input: &mut Cursor) -> (r: Result<Self, ParseError>)
        ensures
            match let_spec(old(input)@) {
                Ok((v, n)) => r matches Ok(x) && v == NodeV::Let(x.tokens@) && final(input)@ == old(input)@.skip(n),
                Err(e) => r matches Err(e2) && e2 == e,
            },
    {
        let ghost s = input@;
        let is_let = match input.peek(0) {
            Some(t) => crate::view::tokens::token_is_ident(t, "let"),
            None => false,
        };
        if !is_let {
            return Err(ParseError::ExpectedLet);
        }
        let mut tokens: Vec<TokenTree> = Vec::new();
        tokens.push(input.next().unwrap());
        assert(tokens@ =~= s.take(1));
        loop
            invariant
                1 <= tokens@.len() <= s.len(),
                s == old(input)@,
                s.len() > 0 && crate::view::tokens::is_ident(s[0], "let"@),
                tokens@ == s.take(tokens@.len() as int),
                input@ == s.skip(tokens@.len() as int),
                first_semi(s, 1) == first_semi(s, tokens@.len() as int),
            decreases input@.len(),
        {
            let semi = match input.peek(0) {
                Some(t) => crate::view::tokens::token_is_punct(t, ';'),
                None => return Err(ParseError::ExpectedSemicolon),
            };
            let ghost j = tokens@.len() as int;
            if semi {
                let _semi = input.next();
                assert(input@ =~= s.skip(j + 1));
                return Ok(NodeLet { tokens });
            }
            tokens.push(input.next().unwrap());
            assert(tokens@ =~= s.take(j + 1));
            assert(input@ =~= s.skip(j + 1));
        }
    }
}

/// The `else` at the front of `s`: `else if ..` or `else { .. }`.
pub open spec fn else_spec(s: Seq<TokenTree>) -> Result<(NodeElseV, int), ParseError> {
    if !(s.len() > 0 && crate::view::tokens::is_ident(s[0], "else"@)) {
        Err(ParseError::ExpectedNode)
    } else if s.len() > 1 && crate::view::tokens::is_ident(s[1], "if"@) {
        match if_spec(s.skip(1)) {
            Err(e) => Err(e),
            Ok((inner, n)) => Ok((NodeElseV::ElseIf(Box::new(inner)), 1 + n)),
        }
    } else {
        match block_spec(s, 1) {
            Err(e) => Err(e),
            Ok(nodes) => Ok((NodeElseV::Else(nodes), 2)),
        }
    }
}

impl NodeExpr {
    /// Parses `(expr)` at the front of the input.
    pub fn parse(input: &mut Cursor) -> (r: Result<Self, ParseError>)
        ensures
            old(input)@.len() > 0 && crate::view::tokens::is_group(old(input)@[0], Delimiter::Parenthesis)
                && old(input)@[0]->parses_as_expr ==> (r matches Ok(x) && x.expr == old(input)@[0]
                && final(input)@ == old(input)@.drop_first()),
            !(old(input)@.len() > 0 && crate::view::tokens::is_group(old(input)@[0], Delimiter::Parenthesis))
                ==> (r matches Err(e) && e == ParseError::ExpectedNode),
            old(input)@.len() > 0 && crate::view::tokens::is_group(old(input)@[0], Delimiter::Parenthesis)
                && !old(input)@[0]->parses_as_expr ==> (r matches Err(e) && e == ParseError::InvalidExpr),
    {
        let kind = node_kind(input);
        if kind == 2 {
            let t = input.next().unwrap();
            Ok(NodeExpr { expr: t })
        } else if kind == 7 {
            Err(ParseError::InvalidExpr)
        } else {
            Err(ParseError::ExpectedNode)
        }
    }
}

impl NodeBlock {
    /// Parses `{ nodes }` at the front of the input.
    pub fn parse(input: &mut Cursor) -> (r: Result<Self, ParseError>)
        ensures
            match block_spec(old(input)@, 0) {
                Ok(v) => r matches Ok(b) && nodes_view(b.children@) == v && final(input)@ == old(input)@.skip(1),
                Err(e) => r matches Err(e2) && e2 == e,
            },
    {
        parse_block(input)
    }
}

impl NodeElse {
    /// Parses `else if ..` or `else { .. }` at the front of the input.
    pub fn parse(input: &mut Cursor) -> (r: Result<Self, ParseError>)
        ensures
            match else_spec(old(input)@) {
                Ok((v, n)) => r matches Ok(x) && else_view(x) == v && final(input)@ == old(input)@.skip(n),
                Err(e) => r matches Err(e2) && e2 == e,
            },
    {
        let ghost s = input@;
        let is_else = match input.peek(0) {
            Some(t) => crate::view::tokens::token_is_ident(t, "else"),
            None => false,
        };
        if !is_else {
            return Err(ParseError::ExpectedNode);
        }
        let _else = input.next();
        assert(input@ =~= s.skip(1));
        let else_if = match input.peek(0) {
            Some(t) => crate::view::tokens::token_is_ident(t, "if"),
            None => false,
        };
        if else_if {
            let inner = NodeIf::parse(input)?;
            proof {
                let n = if_spec(s.skip(1))->Ok_0.1;
                lemma_if_len(s.skip(1));
                assert(input@ =~= s.skip(1 + n));
            }
            Ok(NodeElse::ElseIf(Box::new(inner)))
        } else {
            proof {
                lemma_block_shift(s, 1);
            }
            let block = parse_block(input)?;
            assert(input@ =~= s.skip(2));
            Ok(NodeElse::Else(block))
        }
    }
}

impl NodeIf {
    /// Parses `if cond { .. }` with its `else` at the front of the input.
    pub fn parse(input: &mut Cursor) -> (r: Result<Self, ParseError>)
        ensures
            match if_spec(old(input)@) {
                Ok((v, n)) => r matches Ok(x) && if_view(x) == v && final(input)@ == old(input)@.skip(n),
                Err(e) => r matches Err(e2) && e2 == e,
            },
        decreases old(input)@, 1int,
    {
        let ghost s = input@;
        let is_if = match input.peek(0) {
            Some(t) => crate::view::tokens::token_is_ident(t, "if"),
            None => false,
        };
        if !is_if {
            return Err(ParseError::ExpectedNode);
        }
        let _if = input.next();
        let mut cond: Vec<TokenTree> = Vec::new();
        assert(cond@ =~= s.subrange(1, 1));
        loop
            invariant
                s == old(input)@,
                s.len() > 0,
                1 + cond@.len() as int <= s.len(),
                cond@ == s.subrange(1, 1 + cond@.len() as int),
                input@ == s.skip(1 + cond@.len() as int),
                first_brace(s, 1) == first_brace(s, 1 + cond@.len() as int),
            ensures
                input@.len() == 0 || crate::view::tokens::is_group(input@[0], Delimiter::Brace),
            decreases input@.len(),
        {
            let stop = match input.peek(0) {
                Some(t) => crate::view::tokens::token_is_group(t, Delimiter::Brace),
                None => true,
            };
            if stop {
                break;
            }
            let ghost j = 1 + cond@.len() as int;
            cond.push(input.next().unwrap());
            assert(cond@ =~= s.subrange(1, j + 1));
            assert(input@ =~= s.skip(j + 1));
        }
        let ghost b: int = 1 + cond@.len() as int;
        if cond.len() == 0 {
            return Err(ParseError::EmptyCondition);
        }
        if input.is_empty() {
            return Err(ParseError::ExpectedBlock);
        }
        proof {
            assert(decreases_to!(s => input@));
            lemma_block_shift(s, b);
        }
        let then_branch = parse_block(input)?;
        assert(input@ =~= s.skip(b + 1));
        let is_else = match input.peek(0) {
            Some(t) => crate::view::tokens::token_is_ident(t, "else"),
            None => false,
        };
        if !is_else {
            return Ok(NodeIf { cond, then_branch, else_branch: None });
        }
        let _else = input.next();
        assert(input@ =~= s.skip(b + 2));
        let else_if = match input.peek(0) {
            Some(t) => crate::view::tokens::token_is_ident(t, "if"),
            None => false,
        };
        if else_if {
            proof {
                assert(decreases_to!(s => input@));
            }
            let inner = NodeIf::parse(input)?;
            proof {
                let n = if_spec(s.skip(b + 2))->Ok_0.1;
                lemma_if_len(s.skip(b + 2));
                assert(input@ =~= s.skip(b + 2 + n));
            }
            Ok(NodeIf { cond, then_branch, else_branch: Some(NodeElse::ElseIf(Box::new(inner))) })
        } else {
            proof {
                assert(decreases_to!(s => input@));
                lemma_block_shift(s, b + 2);
            }
            let else_block = parse_block(input)?;
            assert(input@ =~= s.skip(b + 3));
            Ok(NodeIf { cond, then_branch, else_branch: Some(NodeElse::Else(else_block)) })
        }
    }
}

impl Node {
    /// Parses the node at the front of the input.
    pub fn parse(input: &mut Cursor) -> (r: Result<Self, ParseError>)
        ensures
            match node_spec(old(input)@) {
                Ok((v, n)) => r matches Ok(x) && node_view(x) == v && final(input)@ == old(input)@.skip(n),
                Err(e) => r matches Err(e2) && e2 == e,
            },
        decreases old(input)@, 2int,
    {
        let ghost s = input@;
        let kind = node_kind(input);
        if kind == 1 {
            let e = Element::parse(input)?;
            Ok(Node::Element(Box::new(e)))
        } else if kind == 2 {
            let t = input.next().unwrap();
            Ok(Node::Expr(NodeExpr { expr: t }))
        } else if kind == 7 {
            Err(ParseError::InvalidExpr)
        } else if kind == 3 {
            let b = parse_block(input)?;
            Ok(Node::Block(b))
        } else if kind == 4 {
            let i = NodeIf::parse(input)?;
            Ok(Node::If(Box::new(i)))
        } else if kind == 5 {
            let l = NodeLet::parse(input)?;
            Ok(Node::Let(l))
        } else if kind == 6 {
            let t = input.next().unwrap();
            Ok(Node::Text(t))
        } else {
            Err(ParseError::ExpectedNode)
        }
    }
}

impl Element {
    /// Parses the element at the front of the input: a void element ends with its opening
    /// tag; any other takes children up to a closing tag, which must be there and name the
    /// same element.
    pub fn parse(input: &mut Cursor) -> (r: Result<Self, ParseError>)
        ensures
            match element_spec(old(input)@) {
                Ok((v, n)) => r matches Ok(x) && element_view(x) == v && final(input)@ == old(input)@.skip(n),
                Err(e) => r matches Err(e2) && e2 == e,
            },
        decreases old(input)@, 1int,
    {
        let ghost s = input@;
        let opening_tag = OpeningTag::parse(input)?;
        let ghost k = opening_tag_spec(s)->Ok_0.1;
        if opening_tag.name.is_void_element() {
            return Ok(Element::Void { tag: opening_tag });
        }
        proof {
            lemma_opening_len(s);
            assert(decreases_to!(s => input@));
        }
        let children = parse_children(input)?;
        let ghost m = children_spec(s.skip(k))->Ok_0.1;
        proof {
            lemma_children_len(s.skip(k));
            assert(input@ =~= s.skip(k + m));
        }
        if input.is_empty() {
            return Err(ParseError::MissingClosingTag(opening_tag.name));
        }
        let closing_tag = ClosingTag::parse(input)?;
        proof {
            let c = closing_tag_spec(s.skip(k + m))->Ok_0.1;
            lemma_closing_len(s.skip(k + m));
            assert(input@ =~= s.skip(k + m + c));
        }
        if !closing_tag.name.same(&opening_tag.name) {
            return Err(ParseError::MismatchedClosingTag { closing: closing_tag.name, opening: opening_tag.name });
        }
        Ok(Element::Normal { opening_tag, children, closing_tag })
    }

    /// The element's name.
    pub fn name(&self) -> (r: &ElementName)
        ensures
            match *self {
                Element::Normal { opening_tag, .. } => *r == opening_tag.name,
                Element::Void { tag } => *r == tag.name,
            },
    {
        match self {
            Element::Normal { opening_tag, .. } => &opening_tag.name,
            Element::Void { tag } => &tag.name,
        }
    }

    /// The element's attributes.
    pub fn attributes(&self) -> (r: &Attributes)
        ensures
            match *self {
                Element::Normal { opening_tag, .. } => *r == opening_tag.attributes,
                Element::Void { tag } => *r == tag.attributes,
            },
    {
        match self {
            Element::Normal { opening_tag, .. } => &opening_tag.attributes,
            Element::Void { tag } => &tag.attributes,
        }
    }

    /// The element's children: none for a void element.
    pub fn children(&self) -> (r: &[Node])
        ensures
            match *self {
                Element::Normal { children, .. } => r@ == children@,
                Element::Void { .. } => r@.len() == 0,
            },
    {
        match self {
            Element::Normal { children, .. } => children.as_slice(),
            Element::Void { .. } => &[],
        }
    }
}

/// The nodes of a `view!` invocation.
pub struct View {
    pub nodes: Vec<Node>,
}

impl View {
    /// Parses every token of the input as nodes.
    pub fn parse(input: &mut Cursor) -> (r: Result<Self, ParseError>)
        ensures
            match nodes_spec(old(input)@) {
                Ok(v) => r matches Ok(x) && nodes_view(x.nodes@) == v,
                Err(e) => r matches Err(e2) && e2 == e,
            },
    {
        let nodes = parse_nodes(input)?;
        Ok(View { nodes })
    }
}

/// The void elements of HTML: the elements that have no closing tag and no content.
pub open spec fn html_void_elements() -> Seq<Seq<char>> {
    seq![
        seq!['a', 'r', 'e', 'a'],
        seq!['b', 'a', 's', 'e'],
        seq!['b', 'r'],
        seq!['c', 'o', 'l'],
        seq!['e', 'm', 'b', 'e', 'd'],
        seq!['h', 'r'],
        seq!['i', 'm', 'g'],
        seq!['i', 'n', 'p', 'u', 't'],
        seq!['l', 'i', 'n', 'k'],
        seq!['m', 'e', 't', 'a'],
        seq!['s', 'o', 'u', 'r', 'c', 'e'],
        seq!['t', 'r', 'a', 'c', 'k'],
        seq!['w', 'b', 'r']
    ]
}

/// An element name is void exactly when it is one of the void elements of HTML.
pub proof fn lemma_void_words_are_html_void(n: Seq<char>)
    ensures
        void_word(n) <==> html_void_elements().contains(n),
{
    reveal_strlit("area");
    assert("area"@ =~= seq!['a', 'r', 'e', 'a']);
    reveal_strlit("base");
    assert("base"@ =~= seq!['b', 'a', 's', 'e']);
    reveal_strlit("br");
    assert("br"@ =~= seq!['b', 'r']);
    reveal_strlit("col");
    assert("col"@ =~= seq!['c', 'o', 'l']);
    reveal_strlit("embed");
    assert("embed"@ =~= seq!['e', 'm', 'b', 'e', 'd']);
    reveal_strlit("hr");
    assert("hr"@ =~= seq!['h', 'r']);
    reveal_strlit("img");
    assert("img"@ =~= seq!['i', 'm', 'g']);
    reveal_strlit("input");
    assert("input"@ =~= seq!['i', 'n', 'p', 'u', 't']);
    reveal_strlit("link");
    assert("link"@ =~= seq!['l', 'i', 'n', 'k']);
    reveal_strlit("meta");
    assert("meta"@ =~= seq!['m', 'e', 't', 'a']);
    reveal_strlit("source");
    assert("source"@ =~= seq!['s', 'o', 'u', 'r', 'c', 'e']);
    reveal_strlit("track");
    assert("track"@ =~= seq!['t', 'r', 'a', 'c', 'k']);
    reveal_strlit("wbr");
    assert("wbr"@ =~= seq!['w', 'b', 'r']);
    let l = html_void_elements();
    assert(l[0] == seq!['a', 'r', 'e', 'a']);
    assert(l[1] == seq!['b', 'a', 's', 'e']);
    assert(l[2] == seq!['b', 'r']);
    assert(l[3] == seq!['c', 'o', 'l']);
    assert(l[4] == seq!['e', 'm', 'b', 'e', 'd']);
    assert(l[5] == seq!['h', 'r']);
    assert(l[6] == seq!['i', 'm', 'g']);
    assert(l[7] == seq!['i', 'n', 'p', 'u', 't']);
    assert(l[8] == seq!['l', 'i', 'n', 'k']);
    assert(l[9] == seq!['m', 'e', 't', 'a']);
    assert(l[10] == seq!['s', 'o', 'u', 'r', 'c', 'e']);
    assert(l[11] == seq!['t', 'r', 'a', 'c', 'k']);
    assert(l[12] == seq!['w', 'b', 'r']);
    if void_word(n) {
        if n == l[0] { assert(l[0] == n); }
        else if n == l[1] { assert(l[1] == n); }
        else if n == l[2] { assert(l[2] == n); }
        else if n == l[3] { assert(l[3] == n); }
        else if n == l[4] { assert(l[4] == n); }
        else if n == l[5] { assert(l[5] == n); }
        else if n == l[6] { assert(l[6] == n); }
        else if n == l[7] { assert(l[7] == n); }
        else if n == l[8] { assert(l[8] == n); }
        else if n == l[9] { assert(l[9] == n); }
        else if n == l[10] { assert(l[10] == n); }
        else if n == l[11] { assert(l[11] == n); }
        else { assert(l[12] == n); }
    }
    if l.contains(n) {
        let i = choose|i: int| 0 <= i < l.len() && l[i] == n;
        assert(0 <= i < 13);
    }
}

/// An element whose opening tag names a void element of HTML, by an identifier, is a void
/// element: it ends with its opening tag, with no children and no closing tag.
pub proof fn lemma_void_element_ends_at_opening_tag(s: Seq<TokenTree>)
    requires
        opening_tag_spec(s) is Ok,
        opening_tag_spec(s)->Ok_0.0.name matches ElementName::Ident(TokenTree::Ident(n))
            && html_void_elements().contains(n@),
    ensures
        element_spec(s) == Ok::<(ElementV, int), ParseError>(
            (ElementV::Void { tag: opening_tag_spec(s)->Ok_0.0 }, opening_tag_spec(s)->Ok_0.1),
        ),
{
    let open = opening_tag_spec(s)->Ok_0.0;
    match open.name {
        ElementName::Ident(TokenTree::Ident(n)) => lemma_void_words_are_html_void(n@),
        _ => {},
    }
}

} // verus!
