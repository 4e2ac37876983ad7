use swc_plugins::ast::{Id, ImportDecl, ImportNamedSpecifier, ImportSpecifier};
use swc_plugins::const_elements::{
    react_const_elements, Attr, AttrName, AttrValue, IExpr, JsxChild, JsxElement, JsxName, ReactConstElementsOptions,
    State,
};
use swc_plugins::fixture::{is_ignored, normalize_code, outputs_match, ExpectedInfo};
use swc_plugins::lodash::{
    lodash_ids, module_pair, pkg_key, plugin_lodash, LExpr, LItem, LodashError, Mappings, ModuleMap, Package, Pairs,
    PluginLodashConfig, ResolveError, ResolveErrorKind,
};
use swc_plugins::pattern::{compile_all, Pattern};
use swc_plugins::plugin_import::{
    pick_source, place_answers, plugin_import, Module, ModuleItem, PluginImportConfig, ReplaceCssConfig, ReplaceJsConfig, SourceAnswer, SourceKind,
};
use swc_plugins::react_utils::{
    Class as RClass, ClassMember, Expr, Module as RModule, ModuleItem as RItem, PropName, ReactRemovePropTypes, Stmt,
    auto_import_react, needs_react_import, react_import, react_remove_prop_types, react_utils, check_prop_types_config, Mode, ReactPass,
    ReactRemovePropTypeConfig, ReactUtilsConfig,
};

fn named(local: &str, ctxt: u32) -> ImportSpecifier {
    ImportSpecifier::Named(ImportNamedSpecifier { local: Id::new(local, ctxt), imported: None, is_type_only: false })
}

fn import_of(src: &str, specifiers: Vec<ImportSpecifier>) -> ImportDecl {
    ImportDecl { src: src.to_string(), specifiers, type_only: false }
}

fn foo_config(with_css: bool) -> PluginImportConfig {
    PluginImportConfig {
        from_source: "foo".to_string(),
        replace_css: if with_css {
            Some(ReplaceCssConfig {
                has_replace_expr: false,
                template: Some("foo/es/{{this}}/style".to_string()),
                ignore_style_component: None,
                lower: None,
                camel2_dash_component_name: None,
            })
        } else {
            None
        },
        replace_js: Some(ReplaceJsConfig {
            has_replace_expr: false,
            template: Some("foo/lib/{{this}}".to_string()),
            ignore_es_component: None,
            lower: None,
            camel2_dash_component_name: None,
            transform_to_default_import: None,
        }),
    }
}

#[test]
fn import_test() {
    // import {Button} from 'foo';console.log(Button)
    let plugin = plugin_import(vec![foo_config(false)]).unwrap();
    let mut module = Module { body: vec![ModuleItem::Import(import_of("foo", vec![named("Button", 1)])), ModuleItem::Other(9)] };
    let referenced = vec![Id::new("Button", 1)];
    let requests = plugin.source_requests(&module, &referenced);
    assert_eq!(requests.len(), 1);
    assert_eq!(requests[0].item, 0);
    assert_eq!(requests[0].specifier, 0);
    assert_eq!(requests[0].kind, SourceKind::Js);
    assert_eq!(requests[0].ident, "button");
    assert_eq!(requests[0].template_name.as_deref(), Some("foojs"));

    let answers = plugin.answers(&module, &requests, &vec![None]).unwrap();
    assert_eq!(answers.len(), 2);
    assert_eq!(answers[0][0].js.as_deref(), Some("foo/lib/button"));
    assert!(answers[0][0].css.is_none());
    plugin.visit_mut_module(&mut module, &referenced, &vec![], &answers);
    // import Button from "foo/lib/button";console.log(Button);
    assert_eq!(module.body.len(), 2);
    match &module.body[0] {
        ModuleItem::Import(d) => {
            assert_eq!(d.src, "foo/lib/button");
            assert_eq!(d.specifiers.len(), 1);
            assert!(matches!(&d.specifiers[0], ImportSpecifier::Default(id) if id.sym == "Button" && id.ctxt == 1));
        },
        _ => panic!("the component import comes first"),
    }
    assert!(matches!(module.body[1], ModuleItem::Other(9)));
}

#[test]
fn plugin_import_kebab_cases_and_adds_style() {
    let plugin = plugin_import(vec![foo_config(true)]).unwrap();
    let module = Module { body: vec![ModuleItem::Import(import_of("foo", vec![named("DatePicker", 0)]))] };
    let referenced = vec![Id::new("DatePicker", 0)];
    let requests = plugin.source_requests(&module, &referenced);
    assert_eq!(requests.len(), 2);
    assert_eq!(requests[0].kind, SourceKind::Css);
    assert_eq!(requests[0].ident, "date-picker");
    assert_eq!(requests[0].name, "DatePicker");
    assert_eq!(requests[0].template_name.as_deref(), Some("foocss"));
    assert_eq!(requests[1].kind, SourceKind::Js);
    assert_eq!(requests[1].ident, "date-picker");

    let mut module = module;
    let answers = plugin.answers(&module, &requests, &vec![None, None]).unwrap();
    plugin.visit_mut_module(&mut module, &referenced, &vec![], &answers);
    assert_eq!(module.body.len(), 2);
    assert!(matches!(&module.body[0], ModuleItem::Import(d) if d.src == "foo/es/date-picker/style" && d.specifiers.is_empty()));
    assert!(matches!(&module.body[1], ModuleItem::Import(d) if d.src == "foo/lib/date-picker"));
}

#[test]
fn plugin_import_lowercases_when_asked() {
    let mut config = foo_config(false);
    if let Some(js) = config.replace_js.as_mut() {
        js.camel2_dash_component_name = Some(false);
        js.lower = Some(true);
    }
    let plugin = plugin_import(vec![config]).unwrap();
    let module = Module { body: vec![ModuleItem::Import(import_of("foo", vec![named("DatePicker", 0)]))] };
    let requests = plugin.source_requests(&module, &vec![Id::new("DatePicker", 0)]);
    assert_eq!(requests.len(), 1);
    assert_eq!(requests[0].ident, "datepicker");
}

#[test]
fn plugin_import_drops_unreferenced_and_keeps_other_libraries() {
    let plugin = plugin_import(vec![foo_config(false)]).unwrap();
    let mut module = Module {
        body: vec![
            ModuleItem::Import(import_of("foo", vec![named("Unused", 0)])),
            ModuleItem::Import(import_of("bar", vec![named("Unused", 0)])),
        ],
    };
    let requests = plugin.source_requests(&module, &vec![]);
    assert!(requests.is_empty());
    plugin.visit_mut_module(&mut module, &vec![], &vec![], &vec![]);
    assert_eq!(module.body.len(), 1);
    assert!(matches!(&module.body[0], ModuleItem::Import(d) if d.src == "bar" && d.specifiers.len() == 1));
}

#[test]
fn const_elements_hoists_constant_child_of_spread_element() {
    // <div {...args}><span/></div>
    let mut state = State::new(ReactConstElementsOptions::default(), 5);
    let mut el = JsxElement {
        name: JsxName::Ident(Id::new("div", 0)),
        attrs: vec![Attr::Spread(1)],
        children: vec![JsxChild::Element(JsxElement { name: JsxName::Ident(Id::new("span", 0)), attrs: vec![], children: vec![] })],
    };
    let immutable = state.modify_jsx_if_immutable(&mut el);
    assert!(!immutable);
    match &el.children[0] {
        JsxChild::Hoisted { id, jsx } => {
            assert_eq!(id.sym, "_span");
            assert_eq!(id.ctxt, 5);
            assert!(matches!(**jsx, JsxChild::Element(_)));
        },
        _ => panic!("the constant child should be hoisted"),
    }
    assert_eq!(state.candidates.len(), 1);
}

#[test]
fn const_elements_whole_constant_element_is_not_split() {
    // <div className="a"><span/></div> is constant as a whole.
    let mut state = State::new(ReactConstElementsOptions::default(), 0);
    let mut el = JsxElement {
        name: JsxName::Ident(Id::new("div", 0)),
        attrs: vec![Attr::Attr { name: AttrName::Ident("className".to_string()), value: Some(AttrValue::Str) }],
        children: vec![JsxChild::Element(JsxElement { name: JsxName::Ident(Id::new("span", 0)), attrs: vec![], children: vec![] })],
    };
    assert!(state.modify_jsx_if_immutable(&mut el));
    assert!(matches!(el.children[0], JsxChild::Element(_)));
    assert!(state.candidates.is_empty());
}

#[test]
fn const_elements_uppercase_tag_needs_constant_binding() {
    let mut state = State::new(ReactConstElementsOptions::default(), 0);
    let mut el = JsxElement { name: JsxName::Ident(Id::new("Home", 0)), attrs: vec![], children: vec![] };
    assert!(!state.modify_jsx_if_immutable(&mut el));
    let options = ReactConstElementsOptions { immutable_globals: vec!["Home".to_string()], allow_mutable_props_on_tags: vec![] };
    let mut state = State::new(options, 0);
    assert!(state.modify_jsx_if_immutable(&mut el));
    let fn_prop = JsxElement {
        name: JsxName::Ident(Id::new("div", 0)),
        attrs: vec![Attr::Attr { name: AttrName::Ident("onClick".to_string()), value: Some(AttrValue::Expr(IExpr::FnLike)) }],
        children: vec![],
    };
    let mut el = fn_prop;
    assert!(!state.modify_jsx_if_immutable(&mut el));
}

#[test]
fn const_elements_names_never_collide() {
    let mut state = State::new(ReactConstElementsOptions::default(), 3);
    let a = state.create_id(Some("_span".to_string()));
    let b = state.create_id(Some("_span".to_string()));
    let c = state.create_id(None);
    assert_eq!(a.sym, "_span");
    assert_eq!(b.sym, "_span2");
    assert_eq!(c.sym, "_SWC_CONST_ELE_FRAG");
    assert_eq!(state.next_id, 4);
    let plugin = react_const_elements(ReactConstElementsOptions::default(), 3);
    assert_eq!(plugin.state.ctxt, 3);
}

#[test]
fn react_utils_passes_in_order() {
    let all = ReactUtilsConfig { auto_import_react: true, rm_effect: true, rm_prop_types: Some(ReactRemovePropTypeConfig::default()) };
    assert_eq!(react_utils(&all), vec![ReactPass::AutoImportReact, ReactPass::RemoveEffect, ReactPass::RemovePropTypes]);
    let none = ReactUtilsConfig { auto_import_react: false, rm_effect: false, rm_prop_types: None };
    assert!(react_utils(&none).is_empty());
}

#[test]
fn remove_import_needs_remove_mode() {
    assert!(check_prop_types_config(&ReactRemovePropTypeConfig::default()).is_ok());
    let mut config = ReactRemovePropTypeConfig::default();
    config.mode = Mode::Wrap;
    assert_eq!(
        check_prop_types_config(&config),
        Err("react-remove-prop-type: removeImport = true and mode != \"remove\" can not be used at the same time.".to_string())
    );
    config.remove_import = false;
    assert!(check_prop_types_config(&config).is_ok());
    let pass = react_remove_prop_types(config);
    assert_eq!(pass.config.mode, Mode::Wrap);
    assert!(!pass.config.remove_import);
}

#[test]
fn mode_from_text() {
    assert_eq!(Mode::from("unwrap".to_string()), Mode::Wrap);
    assert_eq!(Mode::from("wrap".to_string()), Mode::Wrap);
    assert_eq!(Mode::from("unsafe-wrap".to_string()), Mode::UnsafeWrap);
    assert_eq!(Mode::from("remove".to_string()), Mode::Removal);
    assert_eq!(Mode::from("anything".to_string()), Mode::Removal);
}

#[test]
fn react_import_is_added_only_when_missing() {
    let with_default = vec![import_of("react", vec![ImportSpecifier::Default(Id::new("React", 0))])];
    assert!(!needs_react_import(&with_default));
    let only_named = vec![import_of("react", vec![named("useState", 0)])];
    assert!(needs_react_import(&only_named));
    let decl = react_import(4);
    assert_eq!(decl.src, "react");
    assert!(matches!(&decl.specifiers[0], ImportSpecifier::Default(id) if id.sym == "React" && id.ctxt == 4));

    let plugin = auto_import_react(4);
    let mut module = swc_plugins::react_utils::Module { body: vec![] };
    plugin.visit_mut_module(&mut module);
    assert_eq!(module.body.len(), 1);
    plugin.visit_mut_module(&mut module);
    assert_eq!(module.body.len(), 1);
}

fn lodash_tables() -> (Mappings, Vec<(String, Package)>) {
    let mappings = Mappings {
        modules: vec![(
            "lodash".to_string(),
            ModuleMap {
                dirs: vec![(
                    "".to_string(),
                    Pairs { entries: vec![("map".to_string(), "map".to_string()), ("foreach".to_string(), "forEach".to_string())] },
                )],
            },
        )],
    };
    let pkg = Package::new(Some("lodash.js".to_string()), "lodash", "", "/nm/lodash".to_string());
    (mappings, vec![("lodash".to_string(), pkg)])
}

#[test]
fn lodash_named_import_is_cherry_picked() {
    let (mappings, pkg_map) = lodash_tables();
    let mut plugin = plugin_lodash(&PluginLodashConfig::default(), 0, mappings, pkg_map);
    let mut module = vec![
        LItem::Import(import_of("lodash", vec![named("forEach", 1)])),
        LItem::Code {
            kind: 1,
            exprs: vec![LExpr::Call { callee: Box::new(LExpr::Ident(Id::new("forEach", 1))), args: vec![] }],
        },
    ];
    assert_eq!(plugin.visit_mut_module(&mut module), Ok(()));
    assert_eq!(module.len(), 2);
    match &module[0] {
        LItem::Import(d) => {
            assert_eq!(d.src, "lodash/forEach");
            assert!(matches!(&d.specifiers[0], ImportSpecifier::Default(id) if id.sym == "forEach"));
        },
        _ => panic!("the cherry-picked import comes first"),
    }
    assert!(matches!(&module[1], LItem::Code { .. }));
}

#[test]
fn lodash_unknown_name_is_an_error() {
    let (mappings, pkg_map) = lodash_tables();
    let mut plugin = plugin_lodash(&PluginLodashConfig::default(), 0, mappings, pkg_map);
    let mut module = vec![LItem::Import(import_of("lodash", vec![named("noSuchThing", 1)]))];
    assert_eq!(plugin.visit_mut_module(&mut module), Err(LodashError::ModuleNotFound));
}

#[test]
fn lodash_other_packages_are_untouched() {
    let (mappings, pkg_map) = lodash_tables();
    let mut plugin = plugin_lodash(&PluginLodashConfig::default(), 0, mappings, pkg_map);
    let mut module = vec![LItem::Import(import_of("underscore", vec![named("map", 1)]))];
    assert_eq!(plugin.visit_mut_module(&mut module), Ok(()));
    assert_eq!(module.len(), 1);
    assert!(matches!(&module[0], LItem::Import(d) if d.src == "underscore"));
}

#[test]
fn lodash_tables_helpers() {
    let config = PluginLodashConfig { cwd: "/p".to_string(), ids: vec!["lodash".to_string(), "my-lodash".to_string(), "my-lodash".to_string()] };
    assert_eq!(lodash_ids(&config), vec!["lodash", "lodash-es", "my-lodash"]);
    assert!(!lodash_ids(&PluginLodashConfig::default()).contains(&"lodash-compat".to_string()));
    assert_eq!(pkg_key("lodash", ""), "lodash");
    assert_eq!(pkg_key("lodash", "fp"), "lodash/fp");
    assert_eq!(module_pair("ForEach.js", "fp\\forEach.js", '\\'), ("foreach".to_string(), "fp/forEach".to_string()));
    let pkg = Package::new(Some("./lib/index.js".to_string()), "pkg", "", "/nm/pkg".to_string());
    assert_eq!(pkg.main_path, "lib");
    let nested = Package::new(Some("dist/cjs/main.js".to_string()), "pkg", "", "/nm/pkg".to_string());
    assert_eq!(nested.main_path, "dist/cjs");
    let default_main = Package::new(None, "pkg", "", "/nm/pkg".to_string());
    assert_eq!(default_main.main_path, "");
}

#[test]
fn resolve_error_text() {
    let e = ResolveError::new("lodash".to_string(), ResolveErrorKind::ModuleNotFound);
    assert_eq!(e.to_string(), "Error [lodash]: Module not found");
    let e = ResolveError::new("x".to_string(), ResolveErrorKind::ShouldIgnore);
    assert_eq!(e.to_string(), "Error [x]: This module found but should be ignored");
}

#[test]
fn normalize_code_trims_and_drops_blank_lines() {
    assert_eq!(normalize_code("  a;\n\n ;\n\tb  "), "a;\nb\n");
    assert!(outputs_match("a;\n b;", "a;\n\nb;\n;"));
    assert!(!outputs_match("a;", "b;"));
    let info = ExpectedInfo::new("out".to_string(), "x".to_string(), None);
    assert_eq!(info.name, "out");
    assert!(info.config.is_none());
}

#[test]
fn patterns_compile_and_match() {
    let p = Pattern::new("^foo-\\d+$").unwrap();
    assert!(p.is_match("foo-12"));
    assert!(!p.is_match("foo-"));
    assert_eq!(p.as_str(), "^foo-\\d+$");
    assert!(Pattern::new("(unclosed").is_none());
    assert!(compile_all(&vec!["a".to_string(), "(".to_string()]).is_none());
    let ignore = compile_all(&vec!["skip".to_string()]).unwrap();
    assert!(is_ignored(&ignore, "fixtures/skip-me"));
    assert!(!is_ignored(&ignore, "fixtures/keep"));
}

#[test]
fn custom_name_gets_the_name_as_written() {
    // import { Button, Input } from 'foo'; use(Button, Input);
    // customName: Button -> undefined, others -> foo/es/components/<lowercase>
    let mut config = foo_config(false);
    if let Some(js) = config.replace_js.as_mut() {
        js.has_replace_expr = true;
        js.template = None;
    }
    let plugin = plugin_import(vec![config]).unwrap();
    let mut module = Module {
        body: vec![ModuleItem::Import(import_of("foo", vec![named("Button", 0), named("Input", 0)])), ModuleItem::Other(1)],
    };
    let referenced = vec![Id::new("Button", 0), Id::new("Input", 0)];
    let requests = plugin.source_requests(&module, &referenced);
    let names: Vec<&str> = requests.iter().map(|r| r.name.as_str()).collect();
    assert_eq!(names, vec!["Button", "Input"]);
    let custom_name = |name: &str| if name == "Button" { None } else { Some(format!("foo/es/components/{}", name.to_lowercase())) };
    let sources: Vec<Option<String>> =
        requests.iter().map(|r| pick_source(custom_name(&r.name), None)).collect();
    let answers = place_answers(&module, &requests, sources);
    assert_eq!(answers.len(), 2);
    assert_eq!(answers[0][0].js, None);
    assert_eq!(answers[0][1].js.as_deref(), Some("foo/es/components/input"));
    plugin.visit_mut_module(&mut module, &referenced, &vec![], &answers);
    // import Input from "foo/es/components/input"; import { Button } from 'foo'; use(Button, Input);
    assert_eq!(module.body.len(), 3);
    assert!(matches!(&module.body[0], ModuleItem::Import(d) if d.src == "foo/es/components/input"
        && matches!(&d.specifiers[0], ImportSpecifier::Default(id) if id.sym == "Input")));
    match &module.body[1] {
        ModuleItem::Import(d) => {
            assert_eq!(d.src, "foo");
            assert_eq!(d.specifiers.len(), 1);
            assert!(matches!(&d.specifiers[0], ImportSpecifier::Named(n) if n.local.sym == "Button"));
        },
        _ => panic!("the Button import stays"),
    }
}

#[test]
fn pick_source_prefers_the_function() {
    assert_eq!(pick_source(Some("a".to_string()), Some("b".to_string())), Some("a".to_string()));
    assert_eq!(pick_source(None, Some("b".to_string())), Some("b".to_string()));
    assert_eq!(pick_source(None, None), None);
}

#[test]
fn auto_import_rebinds_react_identifiers() {
    let plugin = auto_import_react(4);
    let mut module = swc_plugins::react_utils::Module {
        body: vec![
            swc_plugins::react_utils::ModuleItem::ExportClass {
                ident: Id::new("React", 9),
                class: swc_plugins::react_utils::Class { is_react_component: false, members: vec![] },
            },
            swc_plugins::react_utils::ModuleItem::Stmt(swc_plugins::react_utils::Stmt::Expr(
                swc_plugins::react_utils::Expr::Handle { handle: 1, idents: vec![Id::new("React", 2), Id::new("h", 2)] },
            )),
        ],
    };
    plugin.visit_mut_module(&mut module);
    assert_eq!(module.body.len(), 3);
    assert!(matches!(&module.body[1], swc_plugins::react_utils::ModuleItem::ExportClass { ident, .. } if ident.sym == "React" && ident.ctxt == 4));
    match &module.body[2] {
        swc_plugins::react_utils::ModuleItem::Stmt(swc_plugins::react_utils::Stmt::Expr(
            swc_plugins::react_utils::Expr::Handle { idents, .. },
        )) => {
            assert_eq!(idents[0].ctxt, 4);
            assert_eq!(idents[1].ctxt, 2);
        },
        _ => panic!("the statement stays"),
    }
}

#[test]
fn later_module_file_replaces_earlier() {
    let mut pairs = Pairs { entries: vec![] };
    pairs.set_entry("map".to_string(), "a/map".to_string());
    pairs.set_entry("foreach".to_string(), "forEach".to_string());
    pairs.set_entry("map".to_string(), "b/map".to_string());
    assert_eq!(
        pairs.entries,
        vec![("map".to_string(), "b/map".to_string()), ("foreach".to_string(), "forEach".to_string())]
    );
}

#[test]
fn lodash_same_import_twice_adds_one() {
    let (mappings, pkg_map) = lodash_tables();
    let mut plugin = plugin_lodash(&PluginLodashConfig::default(), 0, mappings, pkg_map);
    let mut module = vec![
        LItem::Import(import_of("lodash", vec![named("map", 1)])),
        LItem::Import(import_of("lodash", vec![named("map", 1)])),
    ];
    assert_eq!(plugin.visit_mut_module(&mut module), Ok(()));
    let added: Vec<&str> = module
        .iter()
        .filter_map(|it| match it {
            LItem::Import(d) => Some(d.src.as_str()),
            _ => None,
        })
        .collect();
    assert_eq!(added, vec!["lodash/map"]);
}

#[test]
fn whitespace_trimming_agrees_with_std() {
    for c in (0u32..0x11000).chain(0x1F000u32..0x1F100).filter_map(char::from_u32) {
        if c == '\n' || c == ';' {
            continue;
        }
        let text = format!("{}x{}", c, c);
        let expected = if c.is_whitespace() { "x\n".to_string() } else { format!("{}\n", text) };
        assert_eq!(normalize_code(&text), expected, "code point {:X}", c as u32);
    }
}

#[test]
fn templates_render_with_case_helpers() {
    let mut config = foo_config(false);
    if let Some(js) = config.replace_js.as_mut() {
        js.template = Some("foo/{{upperCase this}}/{{kebabCase this}}/{{lowerCase this}}".to_string());
        js.camel2_dash_component_name = Some(false);
    }
    let plugin = plugin_import(vec![config]).unwrap();
    let mut module = Module { body: vec![ModuleItem::Import(import_of("foo", vec![named("MyText", 0)])), ModuleItem::Other(1)] };
    let referenced = vec![Id::new("MyText", 0)];
    let requests = plugin.source_requests(&module, &referenced);
    assert_eq!(requests.len(), 1);
    assert_eq!(requests[0].ident, "MyText");
    let answers = plugin.answers(&module, &requests, &vec![Some("ignored".to_string())]).unwrap();
    assert_eq!(answers[0][0].js.as_deref(), Some("foo/MYTEXT/my-text/mytext"));
    plugin.visit_mut_module(&mut module, &referenced, &vec![], &answers);
    assert!(matches!(&module.body[0], ModuleItem::Import(d) if d.src == "foo/MYTEXT/my-text/mytext"));
}

#[test]
fn user_function_is_consulted_before_the_template() {
    let mut config = foo_config(false);
    if let Some(js) = config.replace_js.as_mut() {
        js.has_replace_expr = true;
    }
    let plugin = plugin_import(vec![config]).unwrap();
    let module = Module { body: vec![ModuleItem::Import(import_of("foo", vec![named("Button", 0), named("Input", 0)]))] };
    let referenced = vec![Id::new("Button", 0), Id::new("Input", 0)];
    let requests = plugin.source_requests(&module, &referenced);
    let answers = plugin.answers(&module, &requests, &vec![Some("custom/button".to_string()), None]).unwrap();
    assert_eq!(answers[0][0].js.as_deref(), Some("custom/button"));
    assert_eq!(answers[0][1].js.as_deref(), Some("foo/lib/input"));
}

#[test]
fn invalid_template_is_refused() {
    let mut config = foo_config(true);
    if let Some(js) = config.replace_js.as_mut() {
        js.template = Some("foo/{{#if this}}".to_string());
    }
    let err = plugin_import(vec![config]).err().unwrap();
    assert_eq!(err.template, "foo/{{#if this}}");
}

#[test]
fn render_failure_is_reported() {
    let mut config = foo_config(false);
    if let Some(js) = config.replace_js.as_mut() {
        js.template = Some("foo/{{noSuchHelper this}}".to_string());
    }
    let plugin = plugin_import(vec![config]).unwrap();
    let module = Module { body: vec![ModuleItem::Import(import_of("foo", vec![named("Button", 0)]))] };
    let referenced = vec![Id::new("Button", 0)];
    let requests = plugin.source_requests(&module, &referenced);
    let err = plugin.answers(&module, &requests, &vec![None]).err().unwrap();
    assert_eq!(err.ident, "button");
}

#[test]
fn unsafe_wrap_assignment_follows_its_class() {
    let config = ReactRemovePropTypeConfig { mode: Mode::UnsafeWrap, remove_import: false, ..ReactRemovePropTypeConfig::default() };
    let pass = ReactRemovePropTypes { config };
    let mut module = RModule {
        body: vec![
            RItem::Import(import_of("react", vec![ImportSpecifier::Default(Id::new("React", 0))])),
            RItem::Stmt(Stmt::ClassDecl {
                ident: Id::new("App", 0),
                class: RClass {
                    is_react_component: true,
                    members: vec![ClassMember::ClassProp { key: PropName::Ident("propTypes".to_string()), value: Some(Expr::EmptyObject), is_static: true }],
                },
            }),
            RItem::Other(5),
        ],
    };
    pass.visit_mut_module(&mut module, &vec![Id::new("App", 0)], &vec![]);
    assert_eq!(module.body.len(), 4);
    assert!(matches!(&module.body[0], RItem::Import(_)));
    assert!(matches!(&module.body[1], RItem::Stmt(Stmt::ClassDecl { class, .. }) if class.members.is_empty()));
    assert!(matches!(&module.body[2], RItem::Stmt(Stmt::Expr(Expr::ProdGuard { .. }))));
    assert!(matches!(&module.body[3], RItem::Other(5)));
}

#[test]
fn nested_prop_types_are_removed() {
    let config = ReactRemovePropTypeConfig { mode: Mode::UnsafeWrap, remove_import: false, ..ReactRemovePropTypeConfig::default() };
    let pass = ReactRemovePropTypes { config };
    let class = || RClass {
        is_react_component: true,
        members: vec![ClassMember::ClassProp { key: PropName::Ident("propTypes".to_string()), value: Some(Expr::EmptyObject), is_static: true }],
    };
    // function f() { class Inner { static propTypes = {} }; other; Other.propTypes = {} }
    let mut module = RModule {
        body: vec![RItem::Stmt(Stmt::Block(vec![
            Stmt::ClassDecl { ident: Id::new("Inner", 1), class: class() },
            Stmt::Other(7),
            Stmt::Expr(Expr::Assign {
                left: Box::new(Expr::Member {
                    obj: Box::new(Expr::Ident(Id::new("Other", 1))),
                    prop: swc_plugins::react_utils::MemberProp::Ident("propTypes".to_string()),
                }),
                right: Box::new(Expr::EmptyObject),
            }),
        ]))],
    };
    pass.visit_mut_module(&mut module, &vec![Id::new("Inner", 1), Id::new("Other", 1)], &vec![]);
    match &module.body[0] {
        RItem::Stmt(Stmt::Block(ss)) => {
            assert_eq!(ss.len(), 4);
            assert!(matches!(&ss[0], Stmt::ClassDecl { class, .. } if class.members.is_empty()));
            assert!(matches!(&ss[1], Stmt::Expr(Expr::ProdGuard { .. })));
            assert!(matches!(&ss[2], Stmt::Other(7)));
            assert!(matches!(&ss[3], Stmt::Expr(Expr::ProdGuard { .. })));
        },
        _ => panic!("the block stays"),
    }

    let removal = ReactRemovePropTypes { config: ReactRemovePropTypeConfig { remove_import: false, ..ReactRemovePropTypeConfig::default() } };
    let mut module = RModule {
        body: vec![RItem::Stmt(Stmt::Block(vec![
            Stmt::Other(7),
            Stmt::Expr(Expr::Assign {
                left: Box::new(Expr::Member {
                    obj: Box::new(Expr::Ident(Id::new("Other", 1))),
                    prop: swc_plugins::react_utils::MemberProp::Ident("propTypes".to_string()),
                }),
                right: Box::new(Expr::EmptyObject),
            }),
        ]))],
    };
    removal.visit_mut_module(&mut module, &vec![Id::new("Other", 1)], &vec![]);
    assert!(matches!(&module.body[0], RItem::Stmt(Stmt::Block(ss)) if ss.len() == 1));
}
