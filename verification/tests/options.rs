use swc_plugins::ast::Id;
use swc_plugins::binding_types::{
    replace_expr_result, string_set, CustomTransform, DynImportNodeConfigNapi, JsReturn, PluginImportConfigNapi,
    PluginLodashConfigNapi, ReactUtilsConfigNapi, ReactUtilsRmPropTypesConfig, StyleConfig, StyleConfigNapi,
};
use swc_plugins::compiler::{Exit, JsCompiler};
use swc_plugins::lock_corejs_version::lock_corejs_version;
use swc_plugins::pass::{internal_transform_pass, Extensions, InternalPass};
use swc_plugins::pattern::compile_all;
use swc_plugins::presets::{PolyfillMode, ReactMode};
use swc_plugins::react_utils::{collect_components, ComponentCandidate, Mode, ReactRemovePropTypeConfig};

fn style(tpl: Option<&str>, f: Option<u64>, dir: Option<&str>, css: bool, b: Option<bool>) -> StyleConfigNapi {
    StyleConfigNapi {
        style_library_directory: dir.map(|s| s.to_string()),
        custom_fn: f,
        custom_tpl: tpl.map(|s| s.to_string()),
        css: if css { Some("css".to_string()) } else { None },
        bool: b,
    }
}

#[test]
fn style_options_directory_first() {
    // A style directory wins over every other option.
    assert!(matches!(style(Some("t"), Some(1), Some("d"), true, Some(true)).into_raw_config(), StyleConfig::StyleLibraryDirectory(d) if d == "d"));
    assert!(matches!(style(Some("t"), Some(1), None, true, Some(true)).into_raw_config(), StyleConfig::Custom(CustomTransform::Tpl(t)) if t == "t"));
    assert!(matches!(style(None, Some(1), None, true, None).into_raw_config(), StyleConfig::Custom(CustomTransform::Fn(1))));
    assert!(matches!(style(None, None, Some("d"), true, None).into_raw_config(), StyleConfig::StyleLibraryDirectory(d) if d == "d"));
    assert!(matches!(style(None, None, None, true, Some(false)).into_raw_config(), StyleConfig::Css));
    assert!(matches!(style(None, None, None, false, Some(false)).into_raw_config(), StyleConfig::Bool(false)));
    assert!(matches!(style(None, None, None, false, None).into_raw_config(), StyleConfig::Unset));
}

#[test]
fn plugin_import_options_prefer_templates() {
    let napi = PluginImportConfigNapi {
        library_name: "antd".to_string(),
        library_directory: None,
        custom_name_fn: Some(3),
        custom_name_tpl: Some("antd/es/{{member}}".to_string()),
        custom_style_name_fn: Some(4),
        custom_style_name_tpl: None,
        style: Some(style(None, None, None, true, None)),
        camel_to_dash_component_name: Some(false),
        transform_to_default_import: None,
        ignore_es_component: None,
        ignore_style_component: Some(vec!["Icon".to_string()]),
    };
    let c = napi.into_raw_config();
    assert_eq!(c.library_name, "antd");
    assert!(matches!(c.custom_name, Some(CustomTransform::Tpl(t)) if t == "antd/es/{{member}}"));
    assert!(matches!(c.custom_style_name, Some(CustomTransform::Fn(4))));
    assert!(matches!(c.style, Some(StyleConfig::Css)));
    assert_eq!(c.camel_to_dash_component_name, Some(false));
    assert_eq!(c.ignore_style_component, Some(vec!["Icon".to_string()]));
}

#[test]
fn replace_expr_results() {
    assert_eq!(replace_expr_result(JsReturn::Undefined), Ok(None));
    assert_eq!(replace_expr_result(JsReturn::Null), Ok(None));
    assert_eq!(replace_expr_result(JsReturn::Bool(false)), Ok(None));
    assert_eq!(replace_expr_result(JsReturn::Str("a/b".to_string())), Ok(Some("a/b".to_string())));
    assert_eq!(
        replace_expr_result(JsReturn::Bool(true)),
        Err("functions of pluginImport replaceExpr can only strictly return false or string".to_string())
    );
    assert_eq!(
        replace_expr_result(JsReturn::Other("Number".to_string())),
        Err("functions of pluginImport replaceExpr can only strictly return false or string. Received: Number".to_string())
    );
}

#[test]
fn components_are_collected_once() {
    let mut config = ReactRemovePropTypeConfig::default();
    config.class_name_matchers = compile_all(&vec!["^Base".to_string()]).unwrap();
    let candidates = vec![
        ComponentCandidate::Class { ident: Id::new("App", 0), is_component_class: true, super_ident: None },
        ComponentCandidate::Class { ident: Id::new("Custom", 0), is_component_class: false, super_ident: Some("BaseView".to_string()) },
        ComponentCandidate::Class { ident: Id::new("Plain", 0), is_component_class: false, super_ident: Some("Object".to_string()) },
        ComponentCandidate::Function { ident: Id::new("Fc", 0), returns_jsx: true },
        ComponentCandidate::Function { ident: Id::new("helper", 0), returns_jsx: false },
        ComponentCandidate::Binding { ident: Id::new("App", 0), is_component: true },
        ComponentCandidate::Binding { ident: Id::new("Arrow", 1), is_component: true },
    ];
    let found: Vec<(String, u32)> = collect_components(&config, &candidates).into_iter().map(|i| (i.sym, i.ctxt)).collect();
    assert_eq!(
        found,
        vec![("App".to_string(), 0), ("Custom".to_string(), 0), ("Fc".to_string(), 0), ("Arrow".to_string(), 1)]
    );
}

#[test]
fn internal_passes_in_chain_order() {
    let none = Extensions { modularize_imports: None, plugin_import: None, react_utils: None, lock_corejs_version: None, lodash: None };
    assert!(internal_transform_pass(&none).is_empty());
    let some = Extensions {
        modularize_imports: Some(vec![]),
        plugin_import: None,
        react_utils: None,
        lock_corejs_version: Some(lock_corejs_version("cj".to_string())),
        lodash: None,
    };
    assert_eq!(internal_transform_pass(&some), vec![InternalPass::ModularizeImports, InternalPass::LockCoreJsVersion]);
}

#[test]
fn binding_option_defaults() {
    assert!(!DynImportNodeConfigNapi { interop: None }.into_raw_config().interop);
    assert!(DynImportNodeConfigNapi { interop: Some(true) }.into_raw_config().interop);
    let lodash = PluginLodashConfigNapi { cwd: None, ids: None }.into_raw_config("/work".to_string());
    assert_eq!(lodash.cwd, "/work");
    assert!(lodash.ids.is_empty());
    assert_eq!(string_set(Some(vec!["a".to_string(), "b".to_string(), "a".to_string()])), vec!["a", "b"]);
    assert!(string_set(None).is_empty());
}

#[test]
fn react_utils_options_compile_patterns() {
    let rm = ReactUtilsRmPropTypesConfig {
        mode: "unsafe-wrap".to_string(),
        remove_import: false,
        ignore_filenames: vec!["node_modules".to_string()],
        additional_libraries: vec![],
        class_name_matchers: vec![],
    };
    let c = ReactUtilsConfigNapi { auto_import_react: None, rm_effect: Some(true), rm_prop_types: Some(rm) }
        .into_raw_config()
        .ok()
        .unwrap();
    assert!(!c.auto_import_react);
    assert!(c.rm_effect);
    let p = c.rm_prop_types.unwrap();
    assert_eq!(p.mode, Mode::UnsafeWrap);
    assert_eq!(p.ignore_filenames.len(), 1);

    let bad = ReactUtilsRmPropTypesConfig {
        mode: "remove".to_string(),
        remove_import: true,
        ignore_filenames: vec!["[".to_string()],
        additional_libraries: vec![],
        class_name_matchers: vec![],
    };
    assert!(ReactUtilsConfigNapi { auto_import_react: None, rm_effect: None, rm_prop_types: Some(bad) }.into_raw_config().is_err());
}

#[test]
fn compiler_handles() {
    let compiler = JsCompiler { id: 7 };
    let task = compiler.transform("a.js".to_string(), "x".to_string(), None);
    assert_eq!(task.compiler_id, 7);
    assert_eq!(task.filename, "a.js");
    assert!(!Exit(0).must_exit());
    assert!(Exit(2).must_exit());
}

#[test]
fn preset_modes() {
    assert_eq!(ReactMode::from("classic".to_string()), ReactMode::Classic);
    assert_eq!(ReactMode::from("automatic".to_string()), ReactMode::Automatic);
    assert_eq!(PolyfillMode::from("entry".to_string()), PolyfillMode::Entry);
    assert_eq!(PolyfillMode::from("usage".to_string()), PolyfillMode::Usage);
    assert_eq!(PolyfillMode::from("false".to_string()), PolyfillMode::Off);
}
