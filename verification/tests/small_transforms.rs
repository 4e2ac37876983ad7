use swc_plugins::ast::{Id, ImportDecl};
use swc_plugins::config_routes::{plugin_config_routes, ConfigRoutesConfig, RExpr, RKey, RProp};
use swc_plugins::dyn_import_node::{dyn_import_node, DExpr, DynImportNodeConfig};
use swc_plugins::lock_corejs_version::{change_specifier, lock_corejs_version, CjArg, CjCall, CjCallee};
use swc_plugins::lodash::{detect_curried_fn, LExpr};
use swc_plugins::remove_es_module_mark::{is_es_module_mark, remove_es_module_mark, MarkCallee, MarkItem};

fn ident(name: &str) -> LExpr {
    LExpr::Ident(Id::new(name, 0))
}

fn call(callee: LExpr, args: Vec<LExpr>) -> LExpr {
    LExpr::Call { callee: Box::new(callee), args }
}

/// `[_]`, an array literal holding the placeholder.
fn placeholder_array() -> LExpr {
    LExpr::Node { kind: 1, children: vec![ident("_")] }
}

#[test]
fn test_detect_curry() {
    // curryFn(func)([_])
    let expr = call(call(ident("curryFn"), vec![ident("func")]), vec![placeholder_array()]);
    assert!(detect_curried_fn(&expr).is_some());
    assert_eq!("curryFn", detect_curried_fn(&expr).unwrap().sym);

    // curryFn()()()(func)([_])
    let expr = call(
        call(call(call(call(ident("curryFn"), vec![]), vec![]), vec![]), vec![ident("func")]),
        vec![placeholder_array()],
    );
    assert!(detect_curried_fn(&expr).is_some());
    assert_eq!("curryFn", detect_curried_fn(&expr).unwrap().sym);

    // curryFn([_])
    let expr = call(ident("curryFn"), vec![placeholder_array()]);
    assert!(detect_curried_fn(&expr).is_none());
}

#[test]
fn detect_curry_keeps_syntax_context() {
    let expr = call(call(LExpr::Ident(Id::new("partial", 7)), vec![ident("f")]), vec![ident("_")]);
    let found = detect_curried_fn(&expr).unwrap();
    assert_eq!(found.sym, "partial");
    assert_eq!(found.ctxt, 7);
    assert!(detect_curried_fn(&ident("partial")).is_none());
}

fn define_property_stmt() -> MarkItem {
    MarkItem::CallStmt {
        callee: MarkCallee::Member { obj: Some("Object".to_string()), prop: Some("defineProperty".to_string()) },
    }
}

#[test]
fn t() {
    // Object.defineProperty(exports, "__esModule", { value: true });
    assert!(is_es_module_mark(&define_property_stmt()));
}

#[test]
fn other_calls_are_no_mark() {
    let other = MarkItem::CallStmt {
        callee: MarkCallee::Member { obj: Some("Object".to_string()), prop: Some("assign".to_string()) },
    };
    assert!(!is_es_module_mark(&other));
    assert!(!is_es_module_mark(&MarkItem::Other(3)));
    assert!(!is_es_module_mark(&MarkItem::CallStmt { callee: MarkCallee::Other(1) }));
}

#[test]
fn only_the_last_mark_is_removed() {
    let mut body = vec![define_property_stmt(), MarkItem::Other(1), define_property_stmt(), MarkItem::Other(2)];
    remove_es_module_mark().visit_mut_module(&mut body);
    assert_eq!(body.len(), 3);
    assert!(is_es_module_mark(&body[0]));
    assert!(matches!(body[1], MarkItem::Other(1)));
    assert!(matches!(body[2], MarkItem::Other(2)));

    let mut unmarked = vec![MarkItem::Other(5)];
    remove_es_module_mark().visit_mut_module(&mut unmarked);
    assert_eq!(unmarked.len(), 1);
}

#[test]
fn lib_test() {
    // import "core-js";  ->  import "node_modules/core-js";
    let plugin = lock_corejs_version("node_modules/core-js".into());
    let mut decl = ImportDecl { src: "core-js".to_string(), specifiers: vec![], type_only: false };
    plugin.visit_mut_import_decl(&mut decl);
    assert_eq!(decl.src, "node_modules/core-js");
}

#[test]
fn lock_corejs_rewrites_require_and_import_calls() {
    let plugin = lock_corejs_version("/abs/core-js".into());
    let mut req = CjCall {
        callee: CjCallee::Ident("require".to_string()),
        args: vec![CjArg::Str("core-js/modules/es.array.js".to_string()), CjArg::Str("core-js".to_string())],
    };
    plugin.visit_mut_call_expr(&mut req);
    assert!(matches!(&req.args[0], CjArg::Str(s) if s == "/abs/core-js/modules/es.array.js"));
    assert!(matches!(&req.args[1], CjArg::Str(s) if s == "core-js"));

    let mut dynamic = CjCall { callee: CjCallee::Import, args: vec![CjArg::Str("core-js".to_string())] };
    plugin.visit_mut_call_expr(&mut dynamic);
    assert!(matches!(&dynamic.args[0], CjArg::Str(s) if s == "/abs/core-js"));

    let mut other = CjCall { callee: CjCallee::Ident("load".to_string()), args: vec![CjArg::Str("core-js".to_string())] };
    plugin.visit_mut_call_expr(&mut other);
    assert!(matches!(&other.args[0], CjArg::Str(s) if s == "core-js"));

    let mut unrelated = ImportDecl { src: "react".to_string(), specifiers: vec![], type_only: false };
    plugin.visit_mut_import_decl(&mut unrelated);
    assert_eq!(unrelated.src, "react");
}

#[test]
fn change_specifier_replaces_every_occurrence() {
    assert_eq!(change_specifier("core-js/core-js", "x"), "x/x");
    assert_eq!(change_specifier("no match", "x"), "no match");
    assert_eq!(change_specifier("core-j", "x"), "core-j");
}

fn transform_dyn(interop: bool, e: DExpr) -> DExpr {
    let plugin = dyn_import_node(DynImportNodeConfig { interop }, false);
    let mut e = e;
    plugin.visit_mut_expr(&mut e);
    e
}

#[test]
fn dynamic_and_literal() {
    // import('foo')  ->  Promise.resolve().then(() => require('foo'));
    let out = transform_dyn(false, DExpr::Import { args: vec![DExpr::Str("foo".to_string())] });
    match out {
        DExpr::Required { specifier, literal, interop, pure } => {
            assert!(matches!(*specifier, DExpr::Str(ref s) if s == "foo"));
            assert!(literal);
            assert!(!interop);
            assert!(!pure);
        },
        _ => panic!("import() should be replaced"),
    }
}

#[test]
fn interop() {
    // import('foo')  ->  Promise.resolve().then(() => _interopRequireWildcard(require('foo')));
    let out = transform_dyn(true, DExpr::Import { args: vec![DExpr::Str("foo".to_string())] });
    match out {
        DExpr::Required { specifier, literal, interop, .. } => {
            assert!(matches!(*specifier, DExpr::Str(ref s) if s == "foo"));
            assert!(literal);
            assert!(interop);
        },
        _ => panic!("import() should be replaced"),
    }

    // import([1, 2])  ->  Promise.resolve(`${[1, 2]}`).then((s) => require(s));
    let array = DExpr::Node { kind: 9, children: vec![DExpr::Node { kind: 1, children: vec![] }] };
    let out = transform_dyn(false, DExpr::Import { args: vec![array] });
    match out {
        DExpr::Required { specifier, literal, interop, .. } => {
            assert!(matches!(*specifier, DExpr::Node { kind: 9, .. }));
            assert!(!literal);
            assert!(!interop);
        },
        _ => panic!("import() should be replaced"),
    }
}

#[test]
fn nested_imports_are_replaced() {
    // foo(import(import('a')))
    let inner = DExpr::Import { args: vec![DExpr::Str("a".to_string())] };
    let outer = DExpr::Import { args: vec![inner] };
    let out = transform_dyn(true, DExpr::Node { kind: 2, children: vec![outer] });
    let DExpr::Node { children, .. } = out else { panic!("the call stays") };
    match &children[0] {
        DExpr::Required { specifier, literal: false, interop: true, pure: false } => {
            assert!(matches!(**specifier, DExpr::Required { literal: true, .. }));
        },
        _ => panic!("both imports should be replaced"),
    }
}

fn kv(key: &str, value: RExpr) -> RProp {
    RProp::KeyValue { key: RKey::Ident(key.to_string()), value }
}

fn path_of(e: &RExpr) -> u64 {
    match e {
        RExpr::Node { kind, .. } => *kind,
        _ => u64::MAX,
    }
}

#[test]
fn routes_component_gets_module() {
    let plugin = plugin_config_routes(&ConfigRoutesConfig::default());
    assert!(!plugin.lazy);
    let mut e = RExpr::Object(vec![kv("path", RExpr::Node { kind: 1, children: vec![] }), kv("component", RExpr::Node { kind: 42, children: vec![] })]);
    plugin.visit_mut_expr(&mut e);
    let RExpr::Object(props) = e else { panic!("stays an object") };
    assert_eq!(props.len(), 3);
    match &props[1] {
        RProp::KeyValue { value: RExpr::RequireDefault(x), .. } => assert_eq!(path_of(x), 42),
        _ => panic!("component is loaded with require(..).default"),
    }
    match &props[2] {
        RProp::KeyValue { key: RKey::Str(k), value: RExpr::Require(x) } => {
            assert_eq!(k, "module");
            assert_eq!(path_of(x), 42);
        },
        _ => panic!("a module property is added"),
    }
}

#[test]
fn lazy_routes_use_loadable() {
    let plugin = plugin_config_routes(&ConfigRoutesConfig { lazy: Some(true) });
    let mut e = RExpr::Object(vec![kv("component", RExpr::Node { kind: 7, children: vec![] })]);
    plugin.visit_mut_expr(&mut e);
    let RExpr::Object(props) = e else { panic!("stays an object") };
    assert_eq!(props.len(), 1);
    assert!(matches!(&props[0], RProp::KeyValue { value: RExpr::Loadable(x), .. } if path_of(x) == 7));
}

#[test]
fn object_without_component_gets_no_module() {
    let plugin = plugin_config_routes(&ConfigRoutesConfig { lazy: Some(false) });
    let mut e = RExpr::Object(vec![kv("path", RExpr::Node { kind: 1, children: vec![] }), RProp::Other(3)]);
    plugin.visit_mut_expr(&mut e);
    let RExpr::Object(props) = e else { panic!("stays an object") };
    assert_eq!(props.len(), 2);
}

fn describe(e: &DExpr) -> String {
    match e {
        DExpr::Import { args } => format!("import({})", args.iter().map(describe).collect::<Vec<_>>().join(",")),
        DExpr::Str(s) => format!("'{}'", s),
        DExpr::Required { specifier, literal, interop, pure } => {
            format!("required({},{},{},{})", describe(specifier), literal, interop, pure)
        },
        DExpr::Node { kind, children } => format!("n{}[{}]", kind, children.iter().map(describe).collect::<Vec<_>>().join(",")),
    }
}

#[test]
fn dyn_import_twice_is_once() {
    let e = DExpr::Node {
        kind: 1,
        children: vec![
            DExpr::Import { args: vec![DExpr::Str("a".to_string())] },
            DExpr::Import { args: vec![DExpr::Import { args: vec![DExpr::Node { kind: 3, children: vec![] }] }] },
        ],
    };
    let once = transform_dyn(true, e);
    let text = describe(&once);
    assert!(!text.contains("import("));
    let twice = transform_dyn(true, once);
    assert_eq!(describe(&twice), text);
}
