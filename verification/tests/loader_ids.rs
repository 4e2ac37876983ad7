use swc_plugins::ast::{Id, ImportDecl, ImportNamedSpecifier, ImportSpecifier};
use swc_plugins::modernjs_ssr_loader_id::{plugin_modernjs_ssr_loader_id, ModuleItem, UseLoaderCall};
use swc_plugins::ssr_loader_id::{
    format_loader_id, hash_file_name, plugin_ssr_loader_id, Arg, BodyStmt, CallExpr, Callee, FnExpr, LoaderExpr,
    ObjectProp, PropKey, SSRLoaderIdConfig,
};

const FIRST_ID: &str = "29e70e1822232ad34a331c74d9588977_0";
const SECOND_ID: &str = "29e70e1822232ad34a331c74d9588977_1";

fn runtime_import(local_ctxt: u32) -> ImportDecl {
    ImportDecl {
        src: "@modern-js/runtime".to_string(),
        specifiers: vec![ImportSpecifier::Named(ImportNamedSpecifier {
            local: Id::new("useLoader", local_ctxt),
            imported: None,
            is_type_only: false,
        })],
        type_only: false,
    }
}

fn use_loader_config() -> SSRLoaderIdConfig {
    SSRLoaderIdConfig {
        runtime_package_name: "@modern-js/runtime".to_string(),
        function_use_loader_name: Some("useLoader".to_string()),
        function_use_static_loader_name: None,
        function_create_container_name: None,
    }
}

fn call_of(callee: &str, ctxt: u32, arg: &str) -> CallExpr {
    CallExpr {
        callee: Callee::Ident(Id::new(callee, ctxt)),
        args: vec![Arg::Expr(LoaderExpr::Ident(Id::new(arg, 0)))],
    }
}

fn wrapped(e: &LoaderExpr) -> Option<(String, String)> {
    match e {
        LoaderExpr::SelfInvoke { loader, id } => match &**loader {
            LoaderExpr::Ident(inner) => Some((inner.sym.clone(), id.clone())),
            _ => None,
        },
        _ => None,
    }
}

fn wrapped_id(arg: &Arg) -> Option<(String, String)> {
    match arg {
        Arg::Expr(e) => wrapped(e),
        _ => None,
    }
}

fn ssr_loader_id_scenario() {
    let mut plugin = plugin_ssr_loader_id(&use_loader_config(), "/root/a.js", "/root");
    plugin.visit_mut_import_decl(&runtime_import(1));
    let mut first = call_of("useLoader", 1, "foo");
    let mut second = call_of("useLoader", 1, "bar");
    plugin.visit_mut_call_expr(&mut first);
    plugin.visit_mut_call_expr(&mut second);
    assert_eq!(wrapped_id(&first.args[0]), Some(("foo".to_string(), FIRST_ID.to_string())));
    assert_eq!(wrapped_id(&second.args[0]), Some(("bar".to_string(), SECOND_ID.to_string())));
}

#[test]
fn test_plugin() {
    ssr_loader_id_scenario();
}

#[test]
fn ssr_loader_id() {
    ssr_loader_id_scenario();
}

#[test]
fn test() {
    let mut plugin = plugin_modernjs_ssr_loader_id("/root/a.js", "/root");
    let call = |arg: &str| {
        ModuleItem::Call(UseLoaderCall {
            callee: Callee::Ident(Id::new("useLoader", 1)),
            args: vec![LoaderExpr::Ident(Id::new(arg, 0))],
        })
    };
    let mut module = vec![ModuleItem::Import(runtime_import(1)), call("foo"), call("bar")];
    plugin.visit_mut_module(&mut module);
    let ids: Vec<Option<(String, String)>> = module
        .iter()
        .map(|item| match item {
            ModuleItem::Call(c) => wrapped(&c.args[0]),
            _ => None,
        })
        .collect();
    assert_eq!(
        ids,
        vec![
            None,
            Some(("foo".to_string(), FIRST_ID.to_string())),
            Some(("bar".to_string(), SECOND_ID.to_string())),
        ]
    );
    assert_eq!(plugin.idx, 2);
}

#[test]
fn hash_is_taken_relative_to_cwd() {
    assert_eq!(hash_file_name("/root/a.js", "/root"), hash_file_name("/a.js", "/elsewhere"));
    let id = format_loader_id(&hash_file_name("/root/a.js", "/root"), 0);
    assert_eq!(id, FIRST_ID);
}

#[test]
fn md5_of_empty_string() {
    let id = format_loader_id(&hash_file_name("", ""), 12);
    assert_eq!(id, "d41d8cd98f00b204e9800998ecf8427e_12");
}

#[test]
fn format_loader_id_pads_hex_digits() {
    let id = format_loader_id(&vec![0, 1, 0xab, 0xff], 105);
    assert_eq!(id, "0001abff_105");
}

#[test]
fn unrelated_module_is_not_touched() {
    let mut plugin = plugin_modernjs_ssr_loader_id("/root/a.js", "/root");
    let mut module = vec![ModuleItem::Call(UseLoaderCall {
        callee: Callee::Ident(Id::new("useLoader", 1)),
        args: vec![LoaderExpr::Ident(Id::new("foo", 0))],
    })];
    plugin.visit_mut_module(&mut module);
    match &module[0] {
        ModuleItem::Call(c) => assert!(matches!(&c.args[0], LoaderExpr::Ident(i) if i.sym == "foo")),
        _ => panic!("the call should stay"),
    }
    assert!(plugin.hash.is_none());
    assert_eq!(plugin.idx, 0);
}

#[test]
fn call_of_other_binding_is_kept() {
    let mut plugin = plugin_ssr_loader_id(&use_loader_config(), "/root/a.js", "/root");
    plugin.visit_mut_import_decl(&runtime_import(1));
    // Same name, other syntax context: a different binding.
    let mut call = call_of("useLoader", 2, "foo");
    plugin.visit_mut_call_expr(&mut call);
    assert!(matches!(&call.args[0], Arg::Expr(LoaderExpr::Ident(i)) if i.sym == "foo"));
    assert_eq!(plugin.state.idx, 0);
}

#[test]
fn wrapped_loader_is_not_wrapped_again() {
    let mut plugin = plugin_ssr_loader_id(&use_loader_config(), "/root/a.js", "/root");
    plugin.visit_mut_import_decl(&runtime_import(1));
    let inner = FnExpr {
        body: Some(vec![
            BodyStmt::Var { first_name: Some("innerLoader".to_string()) },
            BodyStmt::Other(0),
            BodyStmt::Return { arg_ident: Some("innerLoader".to_string()) },
        ]),
    };
    assert!(plugin.check_is_duplicate_inner_loader(&LoaderExpr::Fn(inner)).is_some());
    let plain = FnExpr { body: Some(vec![BodyStmt::Other(0)]) };
    assert!(plugin.check_is_duplicate_inner_loader(&LoaderExpr::Fn(plain)).is_none());
}

#[test]
fn create_container_loaders_are_wrapped() {
    let config = SSRLoaderIdConfig {
        runtime_package_name: "@modern-js/runtime".to_string(),
        function_use_loader_name: None,
        function_use_static_loader_name: None,
        function_create_container_name: Some("createContainer".to_string()),
    };
    let mut plugin = plugin_ssr_loader_id(&config, "/root/a.js", "/root");
    plugin.visit_mut_import_decl(&ImportDecl {
        src: "@modern-js/runtime".to_string(),
        specifiers: vec![ImportSpecifier::Named(ImportNamedSpecifier {
            local: Id::new("createContainer", 3),
            imported: None,
            is_type_only: false,
        })],
        type_only: false,
    });
    let mut call = CallExpr {
        callee: Callee::Ident(Id::new("createContainer", 3)),
        args: vec![Arg::Object(vec![
            ObjectProp::KeyValue { key: PropKey::Ident("loader".to_string()), value: LoaderExpr::Ident(Id::new("a", 0)) },
            ObjectProp::KeyValue { key: PropKey::Ident("other".to_string()), value: LoaderExpr::Ident(Id::new("b", 0)) },
            ObjectProp::KeyValue {
                key: PropKey::Str("staticLoader".to_string()),
                value: LoaderExpr::Ident(Id::new("c", 0)),
            },
        ])],
    };
    plugin.visit_mut_call_expr(&mut call);
    let props = match &call.args[0] {
        Arg::Object(p) => p,
        _ => panic!("the options stay an object"),
    };
    let id_of = |p: &ObjectProp| match p {
        ObjectProp::KeyValue { value: LoaderExpr::SelfInvoke { id, .. }, .. } => Some(id.clone()),
        _ => None,
    };
    assert_eq!(id_of(&props[0]), Some(FIRST_ID.to_string()));
    assert_eq!(id_of(&props[1]), None);
    assert_eq!(id_of(&props[2]), Some(SECOND_ID.to_string()));
    assert_eq!(plugin.state.idx, 2);
}
