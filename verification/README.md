# topcoat

The core of Topcoat, a web framework whose routes follow the module tree, written in Verus.
Verus proves the functions in `src/` against their contracts, except for a few small
wrappers around outside code, whose contracts are trusted rather than proved:

- `to_kebab_case` (`src/router/file_router.rs`): heck's `ToKebabCase::to_kebab_case`;
- `matchit_new`, `matchit_insert`, `matchit_lookup` and the opaque `MatchitTable`
  (`src/router/dynamic_routes.rs`): matchit's `Router::new`, `insert` and `at`;
- `utf8_to_str`, `find_occurrences` (`src/asset.rs`): `std::str::from_utf8` and memchr's
  `memmem::find_iter`;
- `to_json_string` (`src/runtime/expr.rs`): `serde_json::to_string` on a string;
- `push_char` (`src/text.rs`): `String::push`.

A few constructors of types that hold nothing (such as `Interpreter::new`) have no
contract, as there is nothing to state.

- `src/router`: file-based routing (module paths to route paths, segment overrides),
  route patterns and paths, static and parameterized route tables, redirect and not-found
  fallbacks.
- `src/view`: HTML escaping and rendering; the `view!` syntax (a token model, the parser of
  elements, attributes and nodes) and what it compiles to (a writer that merges static text).
- `src/interop`, `src/runtime`: expressions shared with the browser, their JavaScript, and
  the lowering of the `expr!` syntax.
- `src/macros`: what `#[component]`, `#[param]` and `#[route]` accept and generate.
- `src/asset`: the binary record of an embedded asset, its encoding, decoding and search.
- `src/cli`: the decisions of the `asset` command.
- `src/dev`: the development server's decisions: the ports it tries, and which connections
  reload when one announces it is ready.

`app/` holds what Verus does not check: token-stream conversion and code emission for the
macros, the command line's process and file work, the development server, per-request
memoization, compile-time asset records, and the HTTP integration.
