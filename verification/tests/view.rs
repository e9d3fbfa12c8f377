use std::str::FromStr;

use topcoat::view::ast::{
    Attribute, AttributeValue, Attributes, Element, ElementName, Node, NodeBlock, NodeElse, NodeExpr,
    NodeIf, NodeLet, ParseError, View,
};
use topcoat::macros::param::Param;
use topcoat::macros::route::{RouteAttr, RouteItem};
use topcoat::view::output::{Emit, ExprSrc, ViewOutput, ViewWriter};
use topcoat::view::tokens::{
    ident_is_keyword, token_trees_eq, Cursor, Delimiter, LitKind, Spacing, TokenTree,
};

/// The tokens of `src`, as the macro receives them.
fn lex(src: &str) -> Vec<TokenTree> {
    proc_macro2::TokenStream::from_str(src)
        .unwrap()
        .into_iter()
        .map(convert)
        .collect()
}

fn convert(tt: proc_macro2::TokenTree) -> TokenTree {
    match tt {
        proc_macro2::TokenTree::Group(g) => {
            let delimiter = match g.delimiter() {
                proc_macro2::Delimiter::Parenthesis => Delimiter::Parenthesis,
                proc_macro2::Delimiter::Brace => Delimiter::Brace,
                proc_macro2::Delimiter::Bracket => Delimiter::Bracket,
                proc_macro2::Delimiter::None => Delimiter::Invisible,
            };
            let parses_as_expr = syn::parse2::<syn::Expr>(g.stream()).is_ok();
            let parses_as_args = syn::parse::Parser::parse2(
                syn::punctuated::Punctuated::<syn::Expr, syn::token::Comma>::parse_terminated,
                g.stream(),
            )
            .is_ok();
            TokenTree::Group {
                delimiter,
                stream: g.stream().into_iter().map(convert).collect(),
                parses_as_expr,
                parses_as_args,
            }
        }
        proc_macro2::TokenTree::Ident(i) => TokenTree::Ident(i.to_string()),
        proc_macro2::TokenTree::Punct(p) => TokenTree::Punct(
            p.as_char(),
            match p.spacing() {
                proc_macro2::Spacing::Alone => Spacing::Alone,
                proc_macro2::Spacing::Joint => Spacing::Joint,
            },
        ),
        proc_macro2::TokenTree::Literal(l) => {
            let text = l.to_string();
            let kind = match syn::Lit::new(l) {
                syn::Lit::Str(s) => LitKind::Str(s.value()),
                syn::Lit::Int(i) => LitKind::Int(i.base10_digits().to_string()),
                syn::Lit::Float(f) => LitKind::Float(f.base10_digits().to_string()),
                _ => LitKind::Other,
            };
            TokenTree::Literal { text, kind }
        }
    }
}

/// Parses all of `src` as one attribute.
fn parse_attribute(src: &str) -> Attribute {
    let mut input = Cursor::new(lex(src));
    let attr = Attribute::parse(&mut input).unwrap_or_else(|e| panic!("{e:?}"));
    assert!(input.is_empty());
    attr
}

/// Parses all of `src` as attributes.
fn parse_attributes(src: &str) -> Attributes {
    let mut input = Cursor::new(lex(src));
    let attrs = Attributes::parse(&mut input).unwrap_or_else(|e| panic!("{e:?}"));
    assert!(input.is_empty());
    attrs
}

fn name(attr: &Attribute) -> String {
    match &attr.name {
        TokenTree::Ident(n) => n.clone(),
        _ => panic!("expected an identifier"),
    }
}

fn path_segments(path: &[TokenTree]) -> usize {
    path.iter().filter(|t| matches!(t, TokenTree::Ident(_))).count()
}

#[test]
fn parses_string_valued_attribute() {
    let attr = parse_attribute(r#"href="/about""#);
    assert_eq!(name(&attr), "href");
    let AttributeValue::LitStr(TokenTree::Literal { kind: LitKind::Str(value), .. }) = &attr.value else {
        panic!("expected literal value");
    };
    assert_eq!(value, "/about");
}

#[test]
fn parses_expression_valued_attribute() {
    let attr = parse_attribute("href=(url)");
    assert!(matches!(attr.value, AttributeValue::Expr(_)));
}

#[test]
fn parses_multiple_attributes() {
    let attrs = parse_attributes(r#"type="text" name="q""#);
    assert_eq!(attrs.items.len(), 2);
    assert_eq!(name(&attrs.items[0]), "type");
    assert_eq!(name(&attrs.items[1]), "name");
}

#[test]
fn empty_input_yields_empty_attributes() {
    let attrs = parse_attributes("");
    assert!(attrs.is_empty());
}

#[test]
fn parses_call_valued_attribute() {
    let attr = parse_attribute("onclick=handle()");
    assert_eq!(name(&attr), "onclick");
    assert!(matches!(attr.value, AttributeValue::Call { .. }));
}

#[test]
fn parses_call_valued_attribute_with_path() {
    let attr = parse_attribute("onclick=handlers::click(state)");
    assert!(matches!(attr.value, AttributeValue::Call { .. }));
}

#[test]
fn parses_macro_valued_attribute() {
    let attr = parse_attribute(r#"title=tr!("hello")"#);
    assert_eq!(name(&attr), "title");
    assert!(matches!(attr.value, AttributeValue::Macro { .. }));
}

#[test]
fn parses_call_followed_by_attribute() {
    let attrs = parse_attributes(r#"onclick=handle() class="foo""#);
    assert_eq!(attrs.items.len(), 2);
    assert_eq!(name(&attrs.items[0]), "onclick");
    assert!(matches!(attrs.items[0].value, AttributeValue::Call { .. }));
    assert_eq!(name(&attrs.items[1]), "class");
    assert!(matches!(attrs.items[1].value, AttributeValue::LitStr(_)));
}

#[test]
fn parses_macro_followed_by_attribute() {
    let attrs = parse_attributes(r#"title=tr!("hello") class="foo""#);
    assert_eq!(attrs.items.len(), 2);
    assert!(matches!(attrs.items[0].value, AttributeValue::Macro { .. }));
    assert!(matches!(attrs.items[1].value, AttributeValue::LitStr(_)));
}

#[test]
fn parses_call_between_attributes() {
    let attrs = parse_attributes(r#"id="x" onclick=handle() class="foo""#);
    assert_eq!(attrs.items.len(), 3);
    assert!(matches!(attrs.items[1].value, AttributeValue::Call { .. }));
}

#[test]
fn parses_int_valued_attribute() {
    let attr = parse_attribute("tabindex=0");
    let AttributeValue::LitInt(TokenTree::Literal { kind: LitKind::Int(digits), .. }) = &attr.value else {
        panic!("expected int literal");
    };
    assert_eq!(digits, "0");
}

#[test]
fn parses_float_valued_attribute() {
    let attr = parse_attribute("opacity=0.5");
    let AttributeValue::LitFloat(TokenTree::Literal { kind: LitKind::Float(digits), .. }) = &attr.value else {
        panic!("expected float literal");
    };
    assert_eq!(digits, "0.5");
}

#[test]
fn parses_true_valued_attribute() {
    let attr = parse_attribute("disabled=true");
    let AttributeValue::LitBool(TokenTree::Ident(word)) = &attr.value else {
        panic!("expected bool literal");
    };
    assert!(word == "true");
}

#[test]
fn parses_false_valued_attribute() {
    let attr = parse_attribute("disabled=false");
    let AttributeValue::LitBool(TokenTree::Ident(word)) = &attr.value else {
        panic!("expected bool literal");
    };
    assert_eq!(word, "false");
}

#[test]
fn parses_path_valued_attribute() {
    let attr = parse_attribute("href=url");
    let AttributeValue::Path(path) = &attr.value else {
        panic!("expected path");
    };
    assert!(path.len() == 1 && matches!(&path[0], TokenTree::Ident(n) if n == "url"));
}

#[test]
fn parses_multi_segment_path_valued_attribute() {
    let attr = parse_attribute("href=routes::home");
    let AttributeValue::Path(path) = &attr.value else {
        panic!("expected path");
    };
    assert_eq!(path_segments(path), 2);
}

#[test]
fn parses_int_followed_by_attribute() {
    let attrs = parse_attributes(r#"tabindex=1 class="foo""#);
    assert_eq!(attrs.items.len(), 2);
    assert!(matches!(attrs.items[0].value, AttributeValue::LitInt(_)));
    assert!(matches!(attrs.items[1].value, AttributeValue::LitStr(_)));
}

#[test]
fn parses_bool_followed_by_attribute() {
    let attrs = parse_attributes(r#"disabled=true class="foo""#);
    assert_eq!(attrs.items.len(), 2);
    assert!(matches!(attrs.items[0].value, AttributeValue::LitBool(_)));
    assert!(matches!(attrs.items[1].value, AttributeValue::LitStr(_)));
}

#[test]
fn parses_path_followed_by_attribute() {
    let attrs = parse_attributes(r#"href=url class="foo""#);
    assert_eq!(attrs.items.len(), 2);
    assert!(matches!(attrs.items[0].value, AttributeValue::Path(_)));
    assert!(matches!(attrs.items[1].value, AttributeValue::LitStr(_)));
}

fn parse_element(src: &str) -> Result<Element, ParseError> {
    let mut input = Cursor::new(lex(src));
    Element::parse(&mut input)
}

fn compile(src: &str) -> ViewOutput {
    let mut input = Cursor::new(lex(src));
    let view = View::parse(&mut input).unwrap_or_else(|e| panic!("{e:?}"));
    view.to_tokens()
}

fn statics(body: &[Emit]) -> Vec<String> {
    body.iter()
        .filter_map(|e| match e {
            Emit::Static(s) => Some(s.clone()),
            _ => None,
        })
        .collect()
}

#[test]
fn element_parses_children_up_to_its_closing_tag() {
    let el = parse_element(r#"<div class="a">"hi" <p></p></div>"#).unwrap();
    let Element::Normal { children, .. } = &el else {
        panic!("expected a normal element");
    };
    assert_eq!(children.len(), 2);
    assert!(matches!(children[0], Node::Text(_)));
    assert!(matches!(children[1], Node::Element(_)));
    assert_eq!(el.name().string_name(), Some("div".to_string()));
    assert_eq!(el.attributes().items.len(), 1);
}

#[test]
fn void_element_has_no_closing_tag() {
    let el = parse_element(r#"<input type="text">"#).unwrap();
    assert!(matches!(el, Element::Void { .. }));
    assert!(el.children().is_empty());
    assert!(el.name().is_void_element());
}

#[test]
fn mismatched_closing_tag_is_refused() {
    let e = parse_element("<div></span>").err().unwrap();
    assert_eq!(
        e,
        ParseError::MismatchedClosingTag {
            closing: ElementName::Ident(TokenTree::Ident("span".to_string())),
            opening: ElementName::Ident(TokenTree::Ident("div".to_string())),
        }
    );
    assert_eq!(e.message(), "closing tag `span` does not match opening tag `div`");
}

#[test]
fn missing_closing_tag_is_refused() {
    let e = parse_element(r#"<div>"text""#).err().unwrap();
    assert_eq!(e, ParseError::MissingClosingTag(ElementName::Ident(TokenTree::Ident("div".to_string()))));
    assert_eq!(e.message(), "missing closing tag for opening tag `div`");
}

#[test]
fn keyword_is_not_an_element_name() {
    assert_eq!(parse_element("<type></type>").err(), Some(ParseError::ExpectedElementName));
}

#[test]
fn element_names_may_be_strings_or_expressions() {
    let el = parse_element(r#"<"my-el"></"my-el">"#).unwrap();
    assert_eq!(el.name().string_name(), Some("my-el".to_string()));
    let el = parse_element("<(tag)></(tag)>").unwrap();
    assert_eq!(el.name().string_name(), None);
    assert!(el.name().expr().is_some());
    let e = parse_element("<(a)></(b)>").err().unwrap();
    assert!(matches!(e, ParseError::MismatchedClosingTag { .. }));
    assert_eq!(e.message(), "closing tag `<expr>` does not match opening tag `<expr>`");
    let e = parse_element(r#"<"my-el">"#).err().unwrap();
    assert_eq!(e.message(), "missing closing tag for opening tag `my-el`");
}

#[test]
fn unfinished_generic_path_value_is_refused() {
    let mut input = Cursor::new(lex("x=a<"));
    assert_eq!(Attribute::parse(&mut input).err(), Some(ParseError::ExpectedPunct('>')));
}

#[test]
fn path_values_take_generic_arguments() {
    let attr = parse_attribute("x=Vec::<u8>::new()");
    let AttributeValue::Call { func, .. } = &attr.value else {
        panic!("expected call");
    };
    assert_eq!(func.len(), 9);
    let attr = parse_attribute("x=Option<Vec<u8>>");
    let AttributeValue::Path(path) = &attr.value else {
        panic!("expected path");
    };
    assert_eq!(path.len(), 7);
    let attr = parse_attribute("x=Box<dyn Fn() -> u8>");
    let AttributeValue::Path(path) = &attr.value else {
        panic!("expected path");
    };
    assert_eq!(path.len(), 9);
}

#[test]
fn bang_without_body_is_refused() {
    let mut input = Cursor::new(lex("x=tr! y=1"));
    assert_eq!(Attribute::parse(&mut input).err(), Some(ParseError::ExpectedMacroDelimiter));
}

#[test]
fn static_view_compiles_to_a_constant() {
    match compile(r#"<p class="x">"a<b"</p><br>"#) {
        ViewOutput::Constant(s) => assert_eq!(s, "<p class=\"x\">a&lt;b</p><br>"),
        ViewOutput::Built { .. } => panic!("expected a constant"),
    }
}

#[test]
fn expression_node_is_written_unescaped_between_static_text() {
    let ViewOutput::Built { capacity, body } = compile("<p>(name)</p>") else {
        panic!("expected a built view");
    };
    assert_eq!(body.len(), 3);
    assert!(matches!(&body[1], Emit::Expr { src: ExprSrc::ViewOf(_), escaped: false }));
    assert_eq!(statics(&body), vec!["<p>".to_string(), "</p>".to_string()]);
    assert_eq!(capacity, 7);
}

#[test]
fn expression_attribute_is_escaped() {
    let ViewOutput::Built { body, .. } = compile("<a href=(url)></a>") else {
        panic!("expected a built view");
    };
    assert!(matches!(&body[1], Emit::Expr { src: ExprSrc::Group(_), escaped: true }));
    assert_eq!(statics(&body), vec!["<a href=\"".to_string(), "\"></a>".to_string()]);
}

#[test]
fn expression_name_is_bound_once_and_used_in_both_tags() {
    let ViewOutput::Built { body, .. } = compile("<(tag)><(inner)></(inner)></(tag)>") else {
        panic!("expected a built view");
    };
    let binds: Vec<u64> = body
        .iter()
        .filter_map(|e| match e {
            Emit::Bind { depth, .. } => Some(*depth),
            _ => None,
        })
        .collect();
    assert_eq!(binds, vec![0, 1]);
    let names: Vec<u64> = body
        .iter()
        .filter_map(|e| match e {
            Emit::Expr { src: ExprSrc::Name(d), escaped: false } => Some(*d),
            _ => None,
        })
        .collect();
    assert_eq!(names, vec![0, 1, 1, 0]);
}

#[test]
fn let_node_is_a_statement_and_if_writes_nothing() {
    let ViewOutput::Built { body, .. } = compile(r#"let x = 1; if x { "a" } "b""#) else {
        panic!("expected a built view");
    };
    assert!(matches!(&body[0], Emit::Stmt(t) if t.len() == 4));
    assert_eq!(statics(&body), vec!["b".to_string()]);
}

#[test]
fn literal_attribute_values_are_written_as_text() {
    match compile(r#"<i tabindex=3 hidden=true opacity=0.5></i>"#) {
        ViewOutput::Constant(s) => {
            assert_eq!(s, "<i tabindex=\"3\" hidden=\"true\" opacity=\"0.5\"></i>")
        }
        ViewOutput::Built { .. } => panic!("expected a constant"),
    }
}

#[test]
fn writer_escapes_and_counts_bytes() {
    let mut w = ViewWriter::new();
    w.push_escaped("<é>");
    w.push('!');
    w.write_expr(ExprSrc::Name(7));
    w.push_str("ok");
    let ViewOutput::Built { capacity, body } = w.to_tokens() else {
        panic!("expected a built view");
    };
    assert_eq!(statics(&body), vec!["&lt;é&gt;!".to_string(), "ok".to_string()]);
    assert_eq!(capacity, "&lt;é&gt;!ok".len());
}

#[test]
fn writer_with_only_text_is_constant() {
    let mut w = ViewWriter::new();
    w.write_str_unescaped("<b>");
    w.write_str("&");
    assert!(matches!(w.to_tokens(), ViewOutput::Constant(s) if s == "<b>&amp;"));
}

#[test]
fn if_else_and_for_bodies_are_nested() {
    let mut w = ViewWriter::new();
    w.push_str("a");
    let mut branch = w.begin_if(lex("x"));
    branch.writer.push_str("yes");
    let mut other = branch.begin_else(&mut w);
    other.writer.push_str("no!");
    other.detach(&mut w);
    let mut each = w.begin_for_loop(lex("i"), lex("items"));
    each.writer.write_expr(ExprSrc::Name(0));
    each.detach(&mut w);
    let ViewOutput::Built { capacity, body } = w.to_tokens() else {
        panic!("expected a built view");
    };
    assert_eq!(body.len(), 4);
    assert!(matches!(&body[1], Emit::If { body, .. } if statics(body) == vec!["yes".to_string()]));
    assert!(matches!(&body[2], Emit::Else { body } if statics(body) == vec!["no!".to_string()]));
    assert!(matches!(&body[3], Emit::For { body, .. } if body.len() == 1));
    assert_eq!(capacity, 1 + 3);
}

#[test]
fn token_equality_and_keywords() {
    assert!(token_trees_eq(&lex("a::b(c)"), &lex("a::b(c)")));
    assert!(!token_trees_eq(&lex("f(x)"), &lex("f[x]")));
    assert!(ident_is_keyword("self"));
    assert!(ident_is_keyword("_"));
    assert!(!ident_is_keyword("href"));
}

#[test]
fn param_accessor_is_named_by_as_or_by_the_parameter() {
    let mut input = Cursor::new(lex("pub(crate) id as user_id: u64"));
    let p = Param::parse(&mut input).unwrap();
    assert!(input.is_empty());
    assert_eq!(p.vis.len(), 2);
    let plan = p.to_tokens();
    assert_eq!((plan.fn_name.as_str(), plan.key.as_str()), ("user_id", "id"));
    let mut input = Cursor::new(lex("slug: String"));
    let p = Param::parse(&mut input).unwrap();
    assert!(p.vis.is_empty());
    assert_eq!(p.ty.as_ref().map(|t| t.len()), Some(1));
    assert_eq!(p.to_tokens().fn_name, "slug");
    let mut input = Cursor::new(lex("pub (a, b)"));
    assert_eq!(Param::parse(&mut input).err(), Some(ParseError::ExpectedIdent));
    let mut input = Cursor::new(lex("x as"));
    assert_eq!(Param::parse(&mut input).err(), Some(ParseError::ExpectedIdent));
}

#[test]
fn route_attribute_takes_an_optional_path() {
    let mut input = Cursor::new(lex(r#""/about""#));
    assert_eq!(RouteAttr::parse(&mut input).path.as_deref(), Some("/about"));
    assert!(input.is_empty());
    let mut input = Cursor::new(lex(""));
    assert_eq!(RouteAttr::parse(&mut input).path, None);
    assert_eq!(RouteItem::new("home".to_string()).name, "home");
}

#[test]
fn attribute_values_pass_on_as_expressions() {
    let attr = parse_attribute("x=(a + b)");
    let toks = attr.value.into_tokens();
    assert!(matches!(&toks[..], [TokenTree::Group { delimiter: Delimiter::Brace, parses_as_expr: true, .. }]));
    let attr = parse_attribute(r#"x=tr!("hi")"#);
    assert_eq!(attr.value.into_tokens().len(), 3);
    let el = parse_element("<(tag)></(tag)>").unwrap();
    assert_eq!(el.name().to_display_string(), "<expr>");
}

#[test]
fn if_else_chains_parse() {
    let mut input = Cursor::new(lex(r#"if a { "x" } else if b { } else { <br> }"#));
    let node = NodeIf::parse(&mut input).unwrap();
    assert!(input.is_empty());
    assert_eq!(node.cond.len(), 1);
    assert_eq!(node.then_branch.children.len(), 1);
    let Some(NodeElse::ElseIf(inner)) = node.else_branch else {
        panic!("expected else if");
    };
    assert!(matches!(inner.else_branch, Some(NodeElse::Else(NodeBlock { ref children })) if children.len() == 1));
    let mut input = Cursor::new(lex("if { }"));
    assert_eq!(NodeIf::parse(&mut input).err(), Some(ParseError::EmptyCondition));
    let mut input = Cursor::new(lex("if a"));
    assert_eq!(NodeIf::parse(&mut input).err(), Some(ParseError::ExpectedBlock));
}

#[test]
fn block_expression_and_let_nodes_parse() {
    let mut input = Cursor::new(lex(r#"{ "a" (b) }"#));
    assert_eq!(NodeBlock::parse(&mut input).unwrap().children.len(), 2);
    let mut input = Cursor::new(lex("(x + 1)"));
    assert!(NodeExpr::parse(&mut input).is_ok());
    let mut input = Cursor::new(lex("(a b)"));
    assert_eq!(NodeExpr::parse(&mut input).err(), Some(ParseError::InvalidExpr));
    let mut input = Cursor::new(lex("let x = 1"));
    assert_eq!(NodeLet::parse(&mut input).err(), Some(ParseError::ExpectedSemicolon));
    let mut input = Cursor::new(lex("x = 1;"));
    assert_eq!(NodeLet::parse(&mut input).err(), Some(ParseError::ExpectedLet));
    let mut input = Cursor::new(lex("else"));
    assert_eq!(NodeElse::parse(&mut input).err(), Some(ParseError::ExpectedBlock));
    assert_eq!(ParseError::ExpectedPunct('>').message(), "expected `>`");
    assert_eq!(ParseError::ExpectedLet.message(), "expected `let`");
}
