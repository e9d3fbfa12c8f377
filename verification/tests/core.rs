use topcoat::dev::{after_send, on_socket_event, SocketAction, SocketEvent};
use topcoat::asset::{asset_prefix, fnv1a, read_str, Asset, AssetId, ENCODED_ASSET_SIZE};
use topcoat::cli::{asset_dirs, bundle_dirs, clean_dirs, clean_step, join_dir, CleanStep, CliError, RemoveOutcome};
use topcoat::interop::ast::{dispatch, ClosureInput, Expr, LowerError, Lowered, SourceExpr};
use topcoat::macros::component::{CallArg, ComponentAttr, ComponentError, ComponentFn, ComponentItem, FnInput};
use topcoat::router::dynamic_routes::DynamicRoutes;
use topcoat::router::fallback::{not_found, redirect, redirect_permanent, FallbackError, FallbackExt};
use topcoat::router::path::{Path, PathBuf, PathSegment};
use topcoat::router::pattern::{ParsePatternError, Pattern};
use topcoat::router::router::{Method, RouteId};
use topcoat::router::static_routes::StaticRoutes;
use topcoat::runtime::event_handler::EventHandler;
use topcoat::runtime::expr::{Expr as RuntimeExpr, ExprClosure, ExprLit, ExprParam, IntoExpr};
use topcoat::view::runtime::{render, Cx, Formatter, View};

// ---------------------------------------------------------------------------------------------
// Assets
// ---------------------------------------------------------------------------------------------

#[test]
fn fnv1a_of_known_inputs() {
    assert_eq!(fnv1a(b""), 0xcbf2_9ce4_8422_2325);
    assert_eq!(fnv1a(b"a"), 0xaf63_dc4c_8601_ec8c);
    assert_eq!(AssetId::from_path("a").raw(), 0xaf63_dc4c_8601_ec8c);
}

#[test]
fn asset_record_decodes_to_what_was_encoded() {
    let id = AssetId::from_path("static/app.css");
    let record = Asset::encode(id, "static/app.css", "site", "/home/site", "src/main.rs");
    assert_eq!(record.len(), ENCODED_ASSET_SIZE);
    assert_eq!(&record[..13], &asset_prefix()[..]);
    let asset = Asset::decode(&record).unwrap();
    assert_eq!(asset.id().raw(), id.raw());
    assert_eq!(asset.path(), "static/app.css");
    assert_eq!(asset.crate_name(), "site");
    assert_eq!(asset.manifest_dir(), "/home/site");
    assert_eq!(asset.source_file(), "src/main.rs");
}

#[test]
fn cut_short_record_does_not_decode() {
    let record = Asset::encode(AssetId::from_raw(7), "p", "c", "d", "s");
    assert!(Asset::decode(&record[..20]).is_none());
    assert!(Asset::decode(&[]).is_none());
}

#[test]
fn read_str_takes_a_length_prefixed_string() {
    let bytes = [3u8, 0, b'a', b'b', b'c', 9];
    let mut cur: &[u8] = &bytes;
    assert_eq!(read_str(&mut cur), Some("abc".to_string()));
    assert_eq!(cur, &[9u8][..]);
    let bad = [2u8, 0, 0xff, 0xfe];
    let mut cur: &[u8] = &bad;
    assert_eq!(read_str(&mut cur), None);
}

#[test]
fn assets_are_found_in_a_binary() {
    let a = Asset::encode(AssetId::from_path("a.png"), "a.png", "k", "/m", "lib.rs");
    let b = Asset::encode(AssetId::from_path("b.js"), "b.js", "k", "/m", "lib.rs");
    let mut binary = vec![1u8, 2, 3];
    binary.extend_from_slice(&a);
    binary.extend_from_slice(&[0u8; 5]);
    binary.extend_from_slice(&b);
    let found = Asset::find_in_binary(&binary);
    assert_eq!(found.len(), 2);
    assert_eq!(found[0].path(), "a.png");
    assert_eq!(found[1].path(), "b.js");
    assert!(Asset::find_in_binary(&[0u8; 64]).is_empty());
}

// ---------------------------------------------------------------------------------------------
// Routing
// ---------------------------------------------------------------------------------------------

#[test]
fn path_buf_joins_segments() {
    let segs = vec![
        PathSegment::Static("blog"),
        PathSegment::Group("admin"),
        PathSegment::Param("id"),
        PathSegment::CatchAll("rest"),
    ];
    assert_eq!(PathBuf::from_segments(&segs).as_str(), "/blog/(admin)/{id}/{*rest}");
    assert_eq!(PathBuf::new().as_str(), "");
}

#[test]
fn path_segments_split_on_slashes() {
    let p = Path::new("/a/bc//d");
    assert_eq!(p.segments(), vec!["a", "bc", "", "d"]);
    assert_eq!(Path::new("/").segments(), vec![""]);
}

#[test]
fn pattern_needs_a_leading_slash() {
    assert_eq!(Pattern::from_str("/users/{id}").unwrap().as_str(), "/users/{id}");
    assert_eq!(Pattern::from_str("").unwrap().as_str(), "");
    assert_eq!(Pattern::from_str("users").err(), Some(ParsePatternError::LeadingSlash));
}

#[test]
fn static_route_lookup_finds_the_last_insert() {
    let mut routes = StaticRoutes::new();
    routes.insert(Method::get(), "/a", RouteId(1));
    routes.insert(Method::from_name("POST"), "/a", RouteId(2));
    routes.insert(Method::get(), "/a", RouteId(3));
    assert_eq!(routes.get(&Method::get(), "/a").map(|r| r.0), Some(3));
    assert_eq!(routes.get(&Method::from_name("POST"), "/a").map(|r| r.0), Some(2));
    assert!(routes.get(&Method::get(), "/b").is_none());
}

#[test]
fn dynamic_route_captures_parameters() {
    let mut routes = DynamicRoutes::new();
    routes.insert("/users/{id}", RouteId(5));
    let m = routes.get("/users/42").unwrap();
    assert_eq!(m.route_id().0, 5);
    assert_eq!(m.param_list(), &vec![("id".to_string(), "42".to_string())]);
    assert!(routes.get("/posts/1").is_none());
}

#[test]
fn fallbacks_carry_status_and_location() {
    let r = redirect("/login");
    assert_eq!((r.status(), r.location()), (307, "/login"));
    let r = redirect_permanent("/new");
    assert_eq!((r.status(), r.location()), (308, "/new"));
    assert_eq!(not_found().status(), 404);
    assert_eq!(Some(1).ok_or_not_found().ok(), Some(1));
    assert!(matches!(None::<u8>.ok_or_not_found(), Err(FallbackError::NotFound(_))));
    match Err::<u8, ()>(()).ok_or_redirect("/x") {
        Err(FallbackError::Redirect(r)) => assert_eq!((r.status(), r.location()), (307, "/x")),
        _ => panic!("expected a redirect"),
    }
}

// ---------------------------------------------------------------------------------------------
// Rendering and expressions
// ---------------------------------------------------------------------------------------------

#[test]
fn formatter_escapes_html() {
    let mut f = Formatter::new();
    f.write_str("<a href=\"x\">'&'</a>");
    f.write_str_unescaped("<b>");
    assert_eq!(f.into_string(), "&lt;a href=&quot;x&quot;&gt;&#x27;&amp;&#x27;&lt;/a&gt;<b>");
}

#[test]
fn render_writes_the_view() {
    let cx = Cx::new(1);
    assert_eq!(render(&cx, View::new("<p>hi</p>".to_string())), "<p>hi</p>");
}

#[test]
fn literals_write_their_json() {
    let mut out = String::new();
    true.into_expr().to_js(&mut out);
    out.push(' ');
    "a\"b".into_expr().to_js(&mut out);
    assert_eq!(out, "true \"a\\\"b\"");
}

#[test]
fn string_literals_escape_control_characters() {
    let mut out = String::new();
    "a\\b\n\t\u{1}\u{1f}\u{8}\u{c}\r é".into_expr().to_js(&mut out);
    assert_eq!(out, "\"a\\\\b\\n\\t\\u0001\\u001f\\b\\f\\r é\"");
}

#[test]
fn event_handler_writes_an_escaped_attribute() {
    let handler = EventHandler::new("click", ExprClosure::new(&["e", "x"], ExprParam::<()>::new("u")));
    let mut f = Formatter::new();
    handler.write_view_parts(&mut f);
    assert_eq!(f.into_string(), " data-topcoat-on:click=\"((e, x) =&gt; { u; })\" ");
}

#[test]
fn bool_literal_evaluates_to_itself() {
    let mut interp = topcoat::runtime::expr::Interpreter::new();
    assert!(ExprLit::new(true).eval(&mut interp));
}

// ---------------------------------------------------------------------------------------------
// Macros
// ---------------------------------------------------------------------------------------------

fn boxed(e: SourceExpr) -> Box<SourceExpr> {
    Box::new(e)
}

fn ident(n: &str) -> SourceExpr {
    SourceExpr::Path(Some(n.to_string()))
}

#[test]
fn closure_lowers_with_bound_parameters() {
    let body = SourceExpr::Assign {
        left: boxed(SourceExpr::Unary { deref: true, inner: boxed(ident("count")) }),
        right: boxed(SourceExpr::Paren(boxed(SourceExpr::Lit("1".to_string())))),
    };
    let e = Expr::new(SourceExpr::Closure {
        inputs: vec![
            ClosureInput::Ident("e".to_string()),
            ClosureInput::Typed { name: Some("x".to_string()), ty: "Event".to_string() },
        ],
        body: boxed(body),
    });
    let Ok(Lowered::Closure { params, body }) = e.expr_to_tokens() else {
        panic!("expected a closure");
    };
    assert_eq!(params.len(), 2);
    assert_eq!((params[0].name.as_str(), params[0].ty.as_deref()), ("e", None));
    assert_eq!((params[1].name.as_str(), params[1].ty.as_deref()), ("x", Some("Event")));
    let Lowered::AssignDeref { place, value } = *body else {
        panic!("expected an assignment");
    };
    assert!(matches!(*place, Lowered::Ident(ref n) if n == "count"));
    assert!(matches!(*value, Lowered::Value(ref v) if v == "1"));
}

#[test]
fn unsupported_shapes_are_refused() {
    let field = SourceExpr::Field { base: boxed(ident("a")), member: None };
    assert_eq!(dispatch(&field).err(), Some(LowerError::TupleField));
    let call = SourceExpr::MethodCall { receiver: boxed(ident("a")), method: "m".to_string(), turbofish: false, args: 1 };
    assert_eq!(dispatch(&call).err(), Some(LowerError::MethodArgs));
    let fish = SourceExpr::MethodCall { receiver: boxed(SourceExpr::Other), method: "m".to_string(), turbofish: true, args: 1 };
    assert_eq!(dispatch(&fish).err(), Some(LowerError::Turbofish));
    assert_eq!(dispatch(&SourceExpr::Path(None)).err(), Some(LowerError::NotIdent));
    assert_eq!(dispatch(&SourceExpr::Unary { deref: false, inner: boxed(ident("a")) }).err(), Some(LowerError::UnaryOp));
    let assign = SourceExpr::Assign { left: boxed(ident("a")), right: boxed(ident("b")) };
    assert_eq!(dispatch(&assign).err(), Some(LowerError::AssignTarget));
    let closure = SourceExpr::Closure { inputs: vec![ClosureInput::Other], body: boxed(SourceExpr::Other) };
    assert_eq!(dispatch(&closure).err(), Some(LowerError::NotBareParam));
    assert_eq!(dispatch(&SourceExpr::Other).err(), Some(LowerError::Unsupported));
    assert_eq!(LowerError::Unsupported.message(), "unsupported expression");
}

#[test]
fn field_and_method_call_lower_around_their_receiver() {
    let e = SourceExpr::MethodCall {
        receiver: boxed(SourceExpr::Field { base: boxed(ident("user")), member: Some("name".to_string()) }),
        method: "len".to_string(),
        turbofish: false,
        args: 0,
    };
    let Ok(Lowered::MethodCall { receiver, method }) = dispatch(&e) else {
        panic!("expected a method call");
    };
    assert_eq!(method, "len");
    assert!(matches!(*receiver, Lowered::Field { ref name, .. } if name == "name"));
}

fn component(is_async: bool, output: Option<&str>, inputs: Vec<FnInput>) -> ComponentFn {
    ComponentFn {
        vis: "pub".to_string(),
        ident: "card".to_string(),
        is_async,
        output: output.map(|s| s.to_string()),
        inputs,
    }
}

fn typed(name: &str, ty: &str) -> FnInput {
    FnInput::Typed { ident: Some(name.to_string()), pat: name.to_string(), ty: ty.to_string() }
}

#[test]
fn component_rules_are_checked_in_order() {
    let _attr = ComponentAttr::parse();
    let err = |f| ComponentItem::parse(f).err();
    assert_eq!(err(component(false, None, vec![])), Some(ComponentError::NotAsync));
    assert_eq!(err(component(true, None, vec![])), Some(ComponentError::NoReturnType));
    assert_eq!(err(component(true, Some("View"), vec![typed("a", "u8"), FnInput::Receiver])), Some(ComponentError::SelfReceiver));
    let tuple = FnInput::Typed { ident: None, pat: "(a, b)".to_string(), ty: "(u8, u8)".to_string() };
    assert_eq!(err(component(true, Some("View"), vec![tuple])), Some(ComponentError::NotIdentPattern));
    assert_eq!(ComponentError::NotAsync.message(), "components must be async");
}

#[test]
fn component_struct_holds_every_parameter_but_cx() {
    let item = ComponentItem::parse(component(true, Some("Result<View>"), vec![typed("cx", "&Cx"), typed("title", "String"), typed("n", "u32")])).unwrap();
    let plan = item.to_tokens();
    assert_eq!(plan.return_ty, "Result<View>");
    assert_eq!(plan.fields.len(), 2);
    assert_eq!((plan.fields[0].pat.as_str(), plan.fields[0].ty.as_str()), ("title", "String"));
    assert_eq!((plan.fields[1].pat.as_str(), plan.fields[1].ty.as_str()), ("n", "u32"));
    assert_eq!(plan.args.len(), 3);
    assert!(matches!(plan.args[0], CallArg::Cx));
    assert!(matches!(&plan.args[1], CallArg::SelfField(p) if p == "title"));
}

// ---------------------------------------------------------------------------------------------
// Command line
// ---------------------------------------------------------------------------------------------

#[test]
fn asset_directories_sit_under_the_target_directory() {
    assert_eq!(join_dir("target", "assets"), "target/assets");
    assert_eq!(join_dir("target/", "assets"), "target/assets");
    assert_eq!(join_dir("", "assets"), "assets");
    let d = asset_dirs("/t", None);
    assert_eq!((d.out_dir.as_str(), d.cache_dir.as_str()), ("/t/assets", "/t/topcoat/cache/assets"));
    let d = asset_dirs("/t", Some("out".to_string()));
    assert_eq!(d.out_dir, "out");
}

#[test]
fn commands_need_the_target_directory() {
    assert_eq!(bundle_dirs(None, Some("o".to_string())).err(), Some(CliError::NoTargetDir));
    assert_eq!(clean_dirs(None, Some("o".to_string())).err(), Some(CliError::NoTargetDirForClean));
    assert_eq!(clean_dirs(Some("/t".to_string()), None).unwrap(), vec!["/t/assets".to_string(), "/t/topcoat/cache/assets".to_string()]);
    assert_eq!(CliError::NoTargetDirForClean.message(), "could not derive cargo target directory; pass --out");
}

#[test]
fn clean_reports_each_directory() {
    assert!(matches!(clean_step("/t/assets", RemoveOutcome::Removed), CleanStep::Report(m) if m == "removed /t/assets"));
    assert!(matches!(clean_step("/t/assets", RemoveOutcome::NotFound), CleanStep::Skip));
    assert!(matches!(clean_step("/x", RemoveOutcome::Failed("denied".to_string())), CleanStep::Abort(m) if m == "failed to remove /x: denied"));
}

// ---------------------------------------------------------------------------------------------
// Development server
// ---------------------------------------------------------------------------------------------

#[test]
fn dev_server_tries_a_stable_range_of_ports() {
    let ports = topcoat::dev::candidate_ports();
    assert_eq!(ports.len(), 101);
    assert_eq!(ports[0], 59039);
    assert_eq!(*ports.last().unwrap(), 59139);
}

#[test]
fn ready_message_triggers_a_broadcast() {
    let me: u64 = 3;
    assert_eq!(on_socket_event(me, &SocketEvent::Text("ready".to_string())), SocketAction::Broadcast { from: 3 });
    assert_eq!(on_socket_event(me, &SocketEvent::Text("hello".to_string())), SocketAction::Continue);
    assert_eq!(on_socket_event(me, &SocketEvent::Other), SocketAction::Continue);
    assert_eq!(on_socket_event(me, &SocketEvent::Closed), SocketAction::Stop);
    assert_eq!(after_send(false), SocketAction::Stop);
    assert_eq!(after_send(true), SocketAction::Continue);
}

#[test]
fn ready_reloads_only_the_other_connections() {
    assert_eq!(on_socket_event(3, &SocketEvent::ReloadRequested { from: 5 }), SocketAction::SendReload);
    assert_eq!(on_socket_event(5, &SocketEvent::ReloadRequested { from: 5 }), SocketAction::Continue);
}
