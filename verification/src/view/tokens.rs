//! The tokens a macro reads: a tree of groups, identifiers, punctuation and literals, with
//! what the parsers need to know of each. Whoever builds these tokens from a compiler's token
//! stream also records what Rust's own grammar says of them: whether a group's contents form
//! an expression or a list of expressions, and what a literal is and holds.
use vstd::prelude::*;

verus! {

/// How a group is delimited.
#[derive(Clone, Copy, Debug, PartialEq, Eq, Structural)]
pub enum Delimiter {
    /// `( .. )`
    Parenthesis,
    /// `{ .. }`
    Brace,
    /// `[ .. ]`
    Bracket,
    /// An invisible group.
    Invisible,
}

/// Whether a punctuation character is joined to the one after it (as in `::` or `+=`).
#[derive(Clone, Copy, Debug, PartialEq, Eq, Structural)]
pub enum Spacing {
    Alone,
    Joint,
}

/// What a literal is, as the parser reads it.
#[derive(Debug, PartialEq, Eq)]
pub enum LitKind {
    /// A string literal, with its value.
    Str(String),
    /// An integer literal, with its digits in base 10.
    Int(String),
    /// A float literal, with its digits in base 10.
    Float(String),
    /// Any other literal (character, byte, byte string).
    Other,
}

/// One token tree.
#[derive(Debug, PartialEq, Eq)]
pub enum TokenTree {
    /// A delimited group; `parses_as_expr` tells whether its contents form one Rust
    /// expression, `parses_as_args` whether they form a comma-separated list of expressions
    /// (with an optional trailing comma).
    Group { delimiter: Delimiter, stream: Vec<TokenTree>, parses_as_expr: bool, parses_as_args: bool },
    /// An identifier or keyword.
    Ident(String),
    /// A punctuation character.
    Punct(char, Spacing),
    /// A literal, as written, and what it is.
    Literal { text: String, kind: LitKind },
}

/// Whether `t` is the identifier `word`.
pub open spec fn is_ident(t: TokenTree, word: Seq<char>) -> bool {
    t matches TokenTree::Ident(s) && s@ == word
}

/// Whether `t` is the punctuation character `c`.
pub open spec fn is_punct(t: TokenTree, c: char) -> bool {
    t matches TokenTree::Punct(p, _) && p == c
}

/// Whether `t` is a group with delimiter `d`.
pub open spec fn is_group(t: TokenTree, d: Delimiter) -> bool {
    t matches TokenTree::Group { delimiter, .. } && delimiter == d
}

/// Whether `s` holds the punctuation `::` at `i`.
pub open spec fn is_path_sep(s: Seq<TokenTree>, i: int) -> bool {
    &&& 0 <= i && i + 1 < s.len()
    &&& s[i] matches TokenTree::Punct(':', Spacing::Joint)
    &&& is_punct(s[i + 1], ':')
}

/// Whether `t` is a string literal.
pub open spec fn is_lit_str(t: TokenTree) -> bool {
    t matches TokenTree::Literal { kind: LitKind::Str(_), .. }
}

/// Whether `a` is `b`.
pub fn chars_eq(a: &str, b: &str) -> (r: bool)
    ensures
        r == (a@ == b@),
{
    crate::text::str_eq(a, b)
}

/// Whether `t` is the identifier `word`.
pub fn token_is_ident(t: &TokenTree, word: &str) -> (r: bool)
    ensures
        r == is_ident(*t, word@),
{
    match t {
        TokenTree::Ident(s) => chars_eq(s.as_str(), word),
        _ => false,
    }
}

/// Whether `t` is the punctuation character `c`.
pub fn token_is_punct(t: &TokenTree, c: char) -> (r: bool)
    ensures
        r == is_punct(*t, c),
{
    match t {
        TokenTree::Punct(p, _) => *p == c,
        _ => false,
    }
}

/// Whether `t` is a group with delimiter `d`.
pub fn token_is_group(t: &TokenTree, d: Delimiter) -> (r: bool)
    ensures
        r == is_group(*t, d),
{
    match t {
        TokenTree::Group { delimiter, .. } => *delimiter == d,
        _ => false,
    }
}

/// Whether two token trees are the same tokens: same groups, identifiers, punctuation and
/// literals, compared by what is written.
pub open spec fn tree_eq(a: TokenTree, b: TokenTree) -> bool
    decreases a, 1int,
{
    match a {
        TokenTree::Group { delimiter: da, stream: sa, .. } => match b {
            TokenTree::Group { delimiter: db, stream: sb, .. } => {
                proof {
                    vstd::std_specs::vec::axiom_vec_decreases_to_view(sa);
                }
                da == db && trees_eq(sa@, sb@)
            },
            _ => false,
        },
        TokenTree::Ident(x) => b matches TokenTree::Ident(y) && x@ == y@,
        TokenTree::Punct(x, sx) => b matches TokenTree::Punct(y, sy) && x == y && sx == sy,
        TokenTree::Literal { text: x, .. } => b matches TokenTree::Literal { text: y, .. } && x@ == y@,
    }
}

/// Whether two token sequences are the same tokens, one by one.
pub open spec fn trees_eq(a: Seq<TokenTree>, b: Seq<TokenTree>) -> bool
    decreases a, 0int,
{
    if a.len() == 0 || b.len() == 0 {
        a.len() == b.len()
    } else {
        tree_eq(a[0], b[0]) && trees_eq(a.drop_first(), b.drop_first())
    }
}

/// Whether two delimiters are the same.
pub fn delimiter_eq(a: Delimiter, b: Delimiter) -> (r: bool)
    ensures
        r == (a == b),
{
    match (a, b) {
        (Delimiter::Parenthesis, Delimiter::Parenthesis) => true,
        (Delimiter::Brace, Delimiter::Brace) => true,
        (Delimiter::Bracket, Delimiter::Bracket) => true,
        (Delimiter::Invisible, Delimiter::Invisible) => true,
        _ => false,
    }
}

/// Whether two spacings are the same.
pub fn spacing_eq(a: Spacing, b: Spacing) -> (r: bool)
    ensures
        r == (a == b),
{
    match (a, b) {
        (Spacing::Alone, Spacing::Alone) => true,
        (Spacing::Joint, Spacing::Joint) => true,
        _ => false,
    }
}

/// Compares two token trees by what is written.
pub fn token_tree_eq(a: &TokenTree, b: &TokenTree) -> (r: bool)
    ensures
        r == tree_eq(*a, *b),
    decreases a, 0int,
{
    match a {
        TokenTree::Group { delimiter: da, stream: sa, .. } => match b {
            TokenTree::Group { delimiter: db, stream: sb, .. } => {
                let d = delimiter_eq(*da, *db);
                let e = token_trees_eq(sa, sb);
                d && e
            },
            _ => false,
        },
        TokenTree::Ident(x) => match b {
            TokenTree::Ident(y) => { assert(tree_eq(*a, *b) == (x@ == y@)); chars_eq(x.as_str(), y.as_str()) },
            _ => { assert(!tree_eq(*a, *b)); false },
        },
        TokenTree::Punct(x, sx) => match b {
            TokenTree::Punct(y, sy) => *x == *y && spacing_eq(*sx, *sy),
            _ => false,
        },
        TokenTree::Literal { text: x, .. } => match b {
            TokenTree::Literal { text: y, .. } => chars_eq(x.as_str(), y.as_str()),
            _ => false,
        },
    }
}

/// Compares two token sequences by what is written.
pub fn token_trees_eq(a: &Vec<TokenTree>, b: &Vec<TokenTree>) -> (r: bool)
    ensures
        r == trees_eq(a@, b@),
    decreases a, 1int,
{
    if a.len() != b.len() {
        proof {
            lemma_trees_eq_len(a@, b@);
        }
        return false;
    }
    let mut i: usize = 0;
    assert(a@.skip(0) =~= a@);
    assert(b@.skip(0) =~= b@);
    while i < a.len()
        invariant
            i <= a@.len(),
            a@.len() == b@.len(),
            trees_eq(a@, b@) == trees_eq(a@.skip(i as int), b@.skip(i as int)),
        decreases a@.len() - i,
    {
        proof {
            assert(a@.skip(i as int).drop_first() =~= a@.skip(i + 1));
            assert(b@.skip(i as int).drop_first() =~= b@.skip(i + 1));
        }
        proof {
            vstd::std_specs::vec::axiom_vec_index_decreases(*a, i as int);
        }
        if !token_tree_eq(&a[i], &b[i]) {
            return false;
        }
        i = i + 1;
    }
    proof {
        assert(a@.skip(i as int).len() == 0);
    }
    true
}

/// Sequences of different lengths are never the same tokens.
proof fn lemma_trees_eq_len(a: Seq<TokenTree>, b: Seq<TokenTree>)
    ensures
        trees_eq(a, b) ==> a.len() == b.len(),
    decreases a.len(),
{
    if a.len() > 0 && b.len() > 0 {
        lemma_trees_eq_len(a.drop_first(), b.drop_first());
    }
}

/// The tokens still to be parsed, front first. Parsing takes tokens off the front, handing
/// out the very values it was given.
pub struct Cursor {
    rev: Vec<TokenTree>,
}

impl View for Cursor {
    type V = Seq<TokenTree>;

    closed spec fn view(&self) -> Seq<TokenTree> {
        Seq::new(self.rev@.len(), |i: int| self.rev@[self.rev@.len() - 1 - i])
    }
}

impl Cursor {
    /// A cursor at the start of `tokens`.
    pub fn new(tokens: Vec<TokenTree>) -> (r: Self)
        ensures
            r@ == tokens@,
    {
        let mut tokens = tokens;
        let ghost all = tokens@;
        let mut rev: Vec<TokenTree> = Vec::new();
        while tokens.len() > 0
            invariant
                tokens@.len() + rev@.len() == all.len(),
                tokens@ == all.take(tokens@.len() as int),
                forall|k: int| 0 <= k < rev@.len() ==> rev@[k] == all[all.len() - 1 - k],
            decreases tokens@.len(),
        {
            let t = tokens.pop().unwrap();
            rev.push(t);
            assert(tokens@ =~= all.take(tokens@.len() as int));
        }
        let r = Cursor { rev };
        assert(r@ =~= all);
        r
    }

    /// Whether no tokens are left.
    pub fn is_empty(&self) -> (r: bool)
        ensures
            r == (self@.len() == 0),
    {
        self.rev.len() == 0
    }

    /// The `k`-th token from the front, if there is one.
    pub fn peek(&self, k: usize) -> (r: Option<&TokenTree>)
        ensures
            k < self@.len() ==> (r matches Some(t) && *t == self@[k as int]),
            k >= self@.len() ==> r is None,
    {
        if k < self.rev.len() {
            Some(&self.rev[self.rev.len() - 1 - k])
        } else {
            None
        }
    }

    /// Takes the front token.
    pub fn next(&mut self) -> (r: Option<TokenTree>)
        ensures
            old(self)@.len() == 0 ==> r is None && final(self)@ == old(self)@,
            old(self)@.len() > 0 ==> r == Some(old(self)@[0]) && final(self)@ == old(self)@.drop_first(),
    {
        let r = self.rev.pop();
        proof {
            if old(self)@.len() > 0 {
                assert(self@ =~= old(self)@.drop_first());
            } else {
                assert(self@ =~= old(self)@);
            }
        }
        r
    }

    /// Whether the tokens at the front are `::`.
    pub fn peek_path_sep(&self, k: usize) -> (r: bool)
        ensures
            r == is_path_sep(self@, k as int),
    {
        match self.peek(k) {
            Some(TokenTree::Punct(':', Spacing::Joint)) => match self.peek(
                if k < self.rev.len() { k + 1 } else { k },
            ) {
                Some(b) => token_is_punct(b, ':'),
                None => false,
            },
            _ => false,
        }
    }

    /// The tokens left, front first.
    pub fn into_rest(self) -> (r: Vec<TokenTree>)
        ensures
            r@ == self@,
    {
        let mut c = self;
        let ghost all = c@;
        let mut out: Vec<TokenTree> = Vec::new();
        while !c.is_empty()
            invariant
                out@ + c@ == all,
            decreases c@.len(),
        {
            let t = c.next().unwrap();
            proof {
                assert(out@.push(t) + c@ =~= all);
            }
            out.push(t);
        }
        assert(out@ =~= all);
        out
    }
}

/// Whether `s` is a Rust keyword (or `_`), which a plain identifier cannot be.
pub open spec fn is_keyword(s: Seq<char>) -> bool {
    s == "_"@ ||
    s == "abstract"@ ||
    s == "as"@ ||
    s == "async"@ ||
    s == "await"@ ||
    s == "become"@ ||
    s == "box"@ ||
    s == "break"@ ||
    s == "const"@ ||
    s == "continue"@ ||
    s == "crate"@ ||
    s == "do"@ ||
    s == "dyn"@ ||
    s == "else"@ ||
    s == "enum"@ ||
    s == "extern"@ ||
    s == "false"@ ||
    s == "final"@ ||
    s == "fn"@ ||
    s == "for"@ ||
    s == "if"@ ||
    s == "impl"@ ||
    s == "in"@ ||
    s == "let"@ ||
    s == "loop"@ ||
    s == "macro"@ ||
    s == "match"@ ||
    s == "mod"@ ||
    s == "move"@ ||
    s == "mut"@ ||
    s == "override"@ ||
    s == "priv"@ ||
    s == "pub"@ ||
    s == "ref"@ ||
    s == "return"@ ||
    s == "Self"@ ||
    s == "self"@ ||
    s == "static"@ ||
    s == "struct"@ ||
    s == "super"@ ||
    s == "trait"@ ||
    s == "true"@ ||
    s == "try"@ ||
    s == "type"@ ||
    s == "typeof"@ ||
    s == "unsafe"@ ||
    s == "unsized"@ ||
    s == "use"@ ||
    s == "virtual"@ ||
    s == "where"@ ||
    s == "while"@ ||
    s == "yield"@
}

/// Whether `s` is a Rust keyword (or `_`).
pub fn ident_is_keyword(s: &str) -> (r: bool)
    ensures
        r == is_keyword(s@),
{
    chars_eq(s, "_") ||
    chars_eq(s, "abstract") ||
    chars_eq(s, "as") ||
    chars_eq(s, "async") ||
    chars_eq(s, "await") ||
    chars_eq(s, "become") ||
    chars_eq(s, "box") ||
    chars_eq(s, "break") ||
    chars_eq(s, "const") ||
    chars_eq(s, "continue") ||
    chars_eq(s, "crate") ||
    chars_eq(s, "do") ||
    chars_eq(s, "dyn") ||
    chars_eq(s, "else") ||
    chars_eq(s, "enum") ||
    chars_eq(s, "extern") ||
    chars_eq(s, "false") ||
    chars_eq(s, "final") ||
    chars_eq(s, "fn") ||
    chars_eq(s, "for") ||
    chars_eq(s, "if") ||
    chars_eq(s, "impl") ||
    chars_eq(s, "in") ||
    chars_eq(s, "let") ||
    chars_eq(s, "loop") ||
    chars_eq(s, "macro") ||
    chars_eq(s, "match") ||
    chars_eq(s, "mod") ||
    chars_eq(s, "move") ||
    chars_eq(s, "mut") ||
    chars_eq(s, "override") ||
    chars_eq(s, "priv") ||
    chars_eq(s, "pub") ||
    chars_eq(s, "ref") ||
    chars_eq(s, "return") ||
    chars_eq(s, "Self") ||
    chars_eq(s, "self") ||
    chars_eq(s, "static") ||
    chars_eq(s, "struct") ||
    chars_eq(s, "super") ||
    chars_eq(s, "trait") ||
    chars_eq(s, "true") ||
    chars_eq(s, "try") ||
    chars_eq(s, "type") ||
    chars_eq(s, "typeof") ||
    chars_eq(s, "unsafe") ||
    chars_eq(s, "unsized") ||
    chars_eq(s, "use") ||
    chars_eq(s, "virtual") ||
    chars_eq(s, "where") ||
    chars_eq(s, "while") ||
    chars_eq(s, "yield")
}

} // verus!
