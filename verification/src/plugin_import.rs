//! Rewrites `import { Button } from 'lib'` into per-component imports
//! (`import Button from 'lib/lib/button'`), adds the matching style imports,
//! and drops named imports that nothing references.
//!
//! The source path of each component comes either from a user function or
//! from a template; both live outside this crate. The transform is therefore
//! split in two steps: `source_requests` lists, in the order the transform
//! consults them, the component names whose source paths are needed, and
//! `visit_mut_module` applies the transform given the answers.

use vstd::prelude::*;
use crate::ast::{
    reversed, lemma_specifiers_view_push, contains_id, contains_str, id_in, str_in, Id, IdView, ImportDecl, ImportDeclView,
    ImportNamedSpecifier, ImportSpecifier, ImportSpecifierView, ModuleExportName,
    ModuleExportNameView, specifiers_view,
};
use crate::template::{spec_render_template, spec_template_compiles, template_compiles, CaseRenderer};
use crate::text::{kebab_case, spec_kebab_case, spec_to_lowercase, str_eq, to_lowercase,
    to_owned_string};

verus! {

/// How the script import of a component is rewritten.
pub struct ReplaceJsConfig {
    /// A user function computes the source path from the component name
    /// as written; it is consulted first.
    pub has_replace_expr: bool,
    /// Template rendered with the component name when the function gives none.
    pub template: Option<String>,
    pub ignore_es_component: Option<Vec<String>>,
    pub lower: Option<bool>,
    pub camel2_dash_component_name: Option<bool>,
    pub transform_to_default_import: Option<bool>,
}

/// How the style import of a component is produced.
pub struct ReplaceCssConfig {
    pub has_replace_expr: bool,
    pub template: Option<String>,
    pub ignore_style_component: Option<Vec<String>>,
    pub lower: Option<bool>,
    pub camel2_dash_component_name: Option<bool>,
}

/// One library whose named imports are rewritten.
pub struct PluginImportConfig {
    pub from_source: String,
    pub replace_css: Option<ReplaceCssConfig>,
    pub replace_js: Option<ReplaceJsConfig>,
}

/// A top-level item of a module: an import declaration, or any other item,
/// kept as an opaque handle.
pub enum ModuleItem {
    Import(ImportDecl),
    Other(u64),
}

pub enum ModuleItemView {
    Import(ImportDeclView),
    Other(u64),
}

impl View for ModuleItem {
    type V = ModuleItemView;

    open spec fn view(&self) -> ModuleItemView {
        match self {
            ModuleItem::Import(d) => ModuleItemView::Import(d@),
            ModuleItem::Other(h) => ModuleItemView::Other(*h),
        }
    }
}

pub struct Module {
    pub body: Vec<ModuleItem>,
}

impl View for Module {
    type V = Seq<ModuleItemView>;

    open spec fn view(&self) -> Seq<ModuleItemView> {
        self.body@.map_values(|x: ModuleItem| x@)
    }
}

#[derive(Clone, Copy, PartialEq, Eq, Structural, Debug)]
pub enum SourceKind {
    Css,
    Js,
}

/// A component whose source path is needed.
pub struct SourceRequest {
    /// Index of the import declaration in the module body.
    pub item: usize,
    /// Index of the specifier in that declaration.
    pub specifier: usize,
    pub kind: SourceKind,
    pub config_index: usize,
    /// The component name as written, which the user function is given.
    pub name: String,
    /// The component name after case conversion, which the template is
    /// rendered with.
    pub ident: String,
    /// Name of the registered template, when the configuration has one.
    pub template_name: Option<String>,
    /// Whether a user function is to be consulted first.
    pub has_replace_expr: bool,
}

pub struct SourceRequestView {
    pub item: int,
    pub specifier: int,
    pub kind: SourceKind,
    pub config_index: int,
    pub name: Seq<char>,
    pub ident: Seq<char>,
    pub template_name: Option<Seq<char>>,
    pub has_replace_expr: bool,
}

impl View for SourceRequest {
    type V = SourceRequestView;

    open spec fn view(&self) -> SourceRequestView {
        SourceRequestView {
            item: self.item as int,
            specifier: self.specifier as int,
            kind: self.kind,
            config_index: self.config_index as int,
            name: self.name@,
            ident: self.ident@,
            template_name: opt_str(self.template_name),
            has_replace_expr: self.has_replace_expr,
        }
    }
}

/// The source paths obtained for one specifier; `None` where no path was
/// produced.
pub struct SourceAnswer {
    pub css: Option<String>,
    pub js: Option<String>,
}

/// A script import to add: `import <as_name or default_spec> from source`.
pub struct EsSpec {
    pub source: String,
    pub default_spec: String,
    pub as_name: Option<String>,
    pub use_default_import: bool,
    pub mark: u32,
}

pub struct EsSpecView {
    pub source: Seq<char>,
    pub default_spec: Seq<char>,
    pub as_name: Option<Seq<char>>,
    pub use_default_import: bool,
    pub mark: u32,
}

impl View for EsSpec {
    type V = EsSpecView;

    open spec fn view(&self) -> EsSpecView {
        EsSpecView {
            source: self.source@,
            default_spec: self.default_spec@,
            as_name: opt_str(self.as_name),
            use_default_import: self.use_default_import,
            mark: self.mark,
        }
    }
}

pub open spec fn opt_str(o: Option<String>) -> Option<Seq<char>> {
    match o {
        Some(s) => Some(s@),
        None => None,
    }
}

pub open spec fn opt_bool(b: Option<bool>, d: bool) -> bool {
    match b {
        Some(x) => x,
        None => d,
    }
}

pub open spec fn in_list(list: Option<Vec<String>>, s: Seq<char>) -> bool {
    match list {
        Some(l) => contains_str(l@, s),
        None => false,
    }
}

/// The component name after the optional kebab-case and lowercase steps.
pub open spec fn transformed_ident(ident: Seq<char>, camel2dash: bool, lower: bool) -> Seq<char> {
    let a = if camel2dash { spec_kebab_case(ident) } else { ident };
    if lower { spec_to_lowercase(a) } else { a }
}

pub open spec fn css_seq() -> Seq<char> {
    seq!['c', 's', 's']
}

pub open spec fn js_seq() -> Seq<char> {
    seq!['j', 's']
}

/// The converted name for which a style path is requested, if any.
pub open spec fn css_request(cfg: PluginImportConfig, ident: Seq<char>) -> Option<Seq<char>> {
    match cfg.replace_css {
        Some(css) => if in_list(css.ignore_style_component, ident) {
            None
        } else {
            Some(transformed_ident(ident, opt_bool(css.camel2_dash_component_name, true), opt_bool(css.lower, false)))
        },
        None => None,
    }
}

/// The converted name for which a script path is requested, if any.
pub open spec fn js_request(cfg: PluginImportConfig, ident: Seq<char>) -> Option<Seq<char>> {
    match cfg.replace_js {
        Some(js) => if in_list(js.ignore_es_component, ident) {
            None
        } else {
            Some(transformed_ident(ident, opt_bool(js.camel2_dash_component_name, true), opt_bool(js.lower, false)))
        },
        None => None,
    }
}

/// The exported name a named specifier imports.
pub open spec fn named_ident(n: ImportNamedSpecifier) -> Seq<char> {
    match n.imported {
        Some(ModuleExportName::Ident(id)) => id.sym@,
        Some(ModuleExportName::Str(s)) => s@,
        None => n.local.sym@,
    }
}

/// The local alias of a named specifier, when it differs from the export.
pub open spec fn named_as_name(n: ImportNamedSpecifier) -> Option<Seq<char>> {
    if n.imported is Some { Some(n.local.sym@) } else { None }
}

/// The first configuration for the library `src`.
pub open spec fn find_config(config: Seq<PluginImportConfig>, src: Seq<char>) -> Option<int>
    decreases config.len(),
{
    if config.len() == 0 {
        None
    } else {
        match find_config(config.drop_last(), src) {
            Some(i) => Some(i),
            None => if config.last().from_source@ == src { Some(config.len() - 1) } else { None },
        }
    }
}

pub open spec fn row_at(answers: Seq<Vec<SourceAnswer>>, i: int) -> Seq<SourceAnswer> {
    if 0 <= i < answers.len() { answers[i]@ } else { Seq::empty() }
}

pub open spec fn row_css(row: Seq<SourceAnswer>, j: int) -> Option<Seq<char>> {
    if 0 <= j < row.len() { opt_str(row[j].css) } else { None }
}

pub open spec fn row_js(row: Seq<SourceAnswer>, j: int) -> Option<Seq<char>> {
    if 0 <= j < row.len() { opt_str(row[j].js) } else { None }
}

/// The specifier is dropped: a referenced named import whose script path
/// was produced, or a named import that nothing references.
pub open spec fn spec_removed(
    cfg: PluginImportConfig,
    s: ImportSpecifier,
    refs: Seq<Id>,
    trefs: Seq<Id>,
    js_ans: Option<Seq<char>>,
) -> bool {
    match s {
        ImportSpecifier::Named(n) => if contains_id(refs, n.local@) {
            js_request(cfg, named_ident(n)) is Some && js_ans is Some
        } else {
            !contains_id(trefs, n.local@)
        },
        _ => false,
    }
}

/// The style import produced for a specifier, if any.
pub open spec fn spec_css_source(
    cfg: PluginImportConfig,
    s: ImportSpecifier,
    refs: Seq<Id>,
    css_ans: Option<Seq<char>>,
) -> Option<Seq<char>> {
    match s {
        ImportSpecifier::Named(n) => if contains_id(refs, n.local@) && css_request(cfg, named_ident(n)) is Some {
            css_ans
        } else {
            None
        },
        _ => None,
    }
}

/// The script import produced for a specifier, if any.
pub open spec fn spec_es_source(
    cfg: PluginImportConfig,
    s: ImportSpecifier,
    refs: Seq<Id>,
    js_ans: Option<Seq<char>>,
) -> Option<EsSpecView> {
    match s {
        ImportSpecifier::Named(n) => if contains_id(refs, n.local@) && js_request(cfg, named_ident(n)) is Some && js_ans is Some {
            Some(EsSpecView {
                source: js_ans->0,
                default_spec: named_ident(n),
                as_name: named_as_name(n),
                use_default_import: opt_bool(cfg.replace_js->0.transform_to_default_import, true),
                mark: n.local.ctxt,
            })
        } else {
            None
        },
        _ => None,
    }
}

/// The requests a specifier gives rise to: style first, then script.
pub open spec fn spec_spec_requests(
    cfg: PluginImportConfig,
    ci: int,
    s: ImportSpecifier,
    refs: Seq<Id>,
    i: int,
    j: int,
) -> Seq<SourceRequestView> {
    match s {
        ImportSpecifier::Named(n) => if contains_id(refs, n.local@) {
            (match css_request(cfg, named_ident(n)) {
                Some(id) => seq![SourceRequestView {
                    item: i,
                    specifier: j,
                    kind: SourceKind::Css,
                    config_index: ci,
                    name: named_ident(n),
                    ident: id,
                    template_name: match cfg.replace_css->0.template {
                        Some(_) => Some(cfg.from_source@ + css_seq()),
                        None => None,
                    },
                    has_replace_expr: cfg.replace_css->0.has_replace_expr,
                }],
                None => Seq::empty(),
            }) + (match js_request(cfg, named_ident(n)) {
                Some(id) => seq![SourceRequestView {
                    item: i,
                    specifier: j,
                    kind: SourceKind::Js,
                    config_index: ci,
                    name: named_ident(n),
                    ident: id,
                    template_name: match cfg.replace_js->0.template {
                        Some(_) => Some(cfg.from_source@ + js_seq()),
                        None => None,
                    },
                    has_replace_expr: cfg.replace_js->0.has_replace_expr,
                }],
                None => Seq::empty(),
            })
        } else {
            Seq::empty()
        },
        _ => Seq::empty(),
    }
}

pub open spec fn kept_specs(
    cfg: PluginImportConfig,
    specs: Seq<ImportSpecifier>,
    refs: Seq<Id>,
    trefs: Seq<Id>,
    row: Seq<SourceAnswer>,
    n: int,
) -> Seq<ImportSpecifierView>
    decreases n,
{
    if n <= 0 {
        Seq::empty()
    } else {
        let prev = kept_specs(cfg, specs, refs, trefs, row, n - 1);
        if spec_removed(cfg, specs[n - 1], refs, trefs, row_js(row, n - 1)) {
            prev
        } else {
            prev.push(specs[n - 1]@)
        }
    }
}

pub open spec fn removed_count(
    cfg: PluginImportConfig,
    specs: Seq<ImportSpecifier>,
    refs: Seq<Id>,
    trefs: Seq<Id>,
    row: Seq<SourceAnswer>,
    n: int,
) -> int
    decreases n,
{
    if n <= 0 {
        0
    } else {
        removed_count(cfg, specs, refs, trefs, row, n - 1) + if spec_removed(cfg, specs[n - 1], refs, trefs, row_js(row, n - 1)) { 1int } else { 0int }
    }
}

pub open spec fn css_list(
    cfg: PluginImportConfig,
    specs: Seq<ImportSpecifier>,
    refs: Seq<Id>,
    row: Seq<SourceAnswer>,
    n: int,
) -> Seq<Seq<char>>
    decreases n,
{
    if n <= 0 {
        Seq::empty()
    } else {
        push_opt(css_list(cfg, specs, refs, row, n - 1), spec_css_source(cfg, specs[n - 1], refs, row_css(row, n - 1)))
    }
}

pub open spec fn es_list(
    cfg: PluginImportConfig,
    specs: Seq<ImportSpecifier>,
    refs: Seq<Id>,
    row: Seq<SourceAnswer>,
    n: int,
) -> Seq<EsSpecView>
    decreases n,
{
    if n <= 0 {
        Seq::empty()
    } else {
        push_opt(es_list(cfg, specs, refs, row, n - 1), spec_es_source(cfg, specs[n - 1], refs, row_js(row, n - 1)))
    }
}

pub open spec fn req_list(
    cfg: PluginImportConfig,
    ci: int,
    specs: Seq<ImportSpecifier>,
    refs: Seq<Id>,
    i: int,
    n: int,
) -> Seq<SourceRequestView>
    decreases n,
{
    if n <= 0 {
        Seq::empty()
    } else {
        req_list(cfg, ci, specs, refs, i, n - 1) + spec_spec_requests(cfg, ci, specs[n - 1], refs, i, n - 1)
    }
}

/// The configuration that applies to a module item, if any.
pub open spec fn item_config(config: Seq<PluginImportConfig>, item: ModuleItem) -> Option<int> {
    match item {
        ModuleItem::Import(d) => find_config(config, d.src@),
        ModuleItem::Other(_) => None,
    }
}

/// The item as it stands after its specifiers were filtered; `None` when it
/// is dropped because all of its specifiers were.
pub open spec fn spec_item_out(
    config: Seq<PluginImportConfig>,
    item: ModuleItem,
    refs: Seq<Id>,
    trefs: Seq<Id>,
    row: Seq<SourceAnswer>,
) -> Option<ModuleItemView> {
    match item {
        ModuleItem::Import(d) => match find_config(config, d.src@) {
            Some(ci) => {
                let cfg = config[ci];
                let n = d.specifiers@.len() as int;
                if removed_count(cfg, d.specifiers@, refs, trefs, row, n) == n {
                    None
                } else {
                    Some(ModuleItemView::Import(ImportDeclView {
                        src: d.src@,
                        specifiers: kept_specs(cfg, d.specifiers@, refs, trefs, row, n),
                        type_only: d.type_only,
                    }))
                }
            },
            None => Some(item@),
        },
        ModuleItem::Other(_) => Some(item@),
    }
}

pub open spec fn item_css(
    config: Seq<PluginImportConfig>,
    item: ModuleItem,
    refs: Seq<Id>,
    row: Seq<SourceAnswer>,
) -> Seq<Seq<char>> {
    match item {
        ModuleItem::Import(d) => match find_config(config, d.src@) {
            Some(ci) => css_list(config[ci], d.specifiers@, refs, row, d.specifiers@.len() as int),
            None => Seq::empty(),
        },
        ModuleItem::Other(_) => Seq::empty(),
    }
}

pub open spec fn item_es(
    config: Seq<PluginImportConfig>,
    item: ModuleItem,
    refs: Seq<Id>,
    row: Seq<SourceAnswer>,
) -> Seq<EsSpecView> {
    match item {
        ModuleItem::Import(d) => match find_config(config, d.src@) {
            Some(ci) => es_list(config[ci], d.specifiers@, refs, row, d.specifiers@.len() as int),
            None => Seq::empty(),
        },
        ModuleItem::Other(_) => Seq::empty(),
    }
}

pub open spec fn item_reqs(
    config: Seq<PluginImportConfig>,
    item: ModuleItem,
    refs: Seq<Id>,
    i: int,
) -> Seq<SourceRequestView> {
    match item {
        ModuleItem::Import(d) => match find_config(config, d.src@) {
            Some(ci) => req_list(config[ci], ci, d.specifiers@, refs, i, d.specifiers@.len() as int),
            None => Seq::empty(),
        },
        ModuleItem::Other(_) => Seq::empty(),
    }
}

pub open spec fn out_items(
    config: Seq<PluginImportConfig>,
    body: Seq<ModuleItem>,
    refs: Seq<Id>,
    trefs: Seq<Id>,
    answers: Seq<Vec<SourceAnswer>>,
    n: int,
) -> Seq<ModuleItemView>
    decreases n,
{
    if n <= 0 {
        Seq::empty()
    } else {
        push_opt(out_items(config, body, refs, trefs, answers, n - 1), spec_item_out(config, body[n - 1], refs, trefs, row_at(answers, n - 1)))
    }
}

pub open spec fn all_css(
    config: Seq<PluginImportConfig>,
    body: Seq<ModuleItem>,
    refs: Seq<Id>,
    answers: Seq<Vec<SourceAnswer>>,
    n: int,
) -> Seq<Seq<char>>
    decreases n,
{
    if n <= 0 {
        Seq::empty()
    } else {
        all_css(config, body, refs, answers, n - 1) + item_css(config, body[n - 1], refs, row_at(answers, n - 1))
    }
}

pub open spec fn all_es(
    config: Seq<PluginImportConfig>,
    body: Seq<ModuleItem>,
    refs: Seq<Id>,
    answers: Seq<Vec<SourceAnswer>>,
    n: int,
) -> Seq<EsSpecView>
    decreases n,
{
    if n <= 0 {
        Seq::empty()
    } else {
        all_es(config, body, refs, answers, n - 1) + item_es(config, body[n - 1], refs, row_at(answers, n - 1))
    }
}

pub open spec fn all_reqs(
    config: Seq<PluginImportConfig>,
    body: Seq<ModuleItem>,
    refs: Seq<Id>,
    n: int,
) -> Seq<SourceRequestView>
    decreases n,
{
    if n <= 0 {
        Seq::empty()
    } else {
        all_reqs(config, body, refs, n - 1) + item_reqs(config, body[n - 1], refs, n - 1)
    }
}

/// `import '<src>'`.
pub open spec fn css_import_view(src: Seq<char>) -> ModuleItemView {
    ModuleItemView::Import(ImportDeclView { src, specifiers: Seq::empty(), type_only: false })
}

/// The import declaration added for a rewritten component.
pub open spec fn es_import_view(e: EsSpecView) -> ModuleItemView {
    let local = IdView {
        sym: match e.as_name { Some(a) => a, None => e.default_spec },
        ctxt: e.mark,
    };
    ModuleItemView::Import(ImportDeclView {
        src: e.source,
        specifiers: if e.use_default_import {
            seq![ImportSpecifierView::Default(local)]
        } else {
            seq![ImportSpecifierView::Named {
                local,
                imported: if e.as_name is Some {
                    Some(ModuleExportNameView::Ident(IdView { sym: e.default_spec, ctxt: 0 }))
                } else {
                    None
                },
                is_type_only: false,
            }]
        },
        type_only: false,
    })
}

/// The module after the transform: the style imports, then the script
/// imports, each newest first, then the items of the module with their matched
/// specifiers filtered.
pub open spec fn spec_transform(
    config: Seq<PluginImportConfig>,
    body: Seq<ModuleItem>,
    refs: Seq<Id>,
    trefs: Seq<Id>,
    answers: Seq<Vec<SourceAnswer>>,
) -> Seq<ModuleItemView> {
    let css = all_css(config, body, refs, answers, body.len() as int);
    let es = all_es(config, body, refs, answers, body.len() as int);
    Seq::new(css.len(), |k: int| css_import_view(css[css.len() - 1 - k]))
        + Seq::new(es.len(), |k: int| es_import_view(es[es.len() - 1 - k]))
        + out_items(config, body, refs, trefs, answers, body.len() as int)
}

/// The plugin: the library configurations it applies.
pub struct ImportPlugin {
    pub config: Vec<PluginImportConfig>,
}

/// A template of the configuration that handlebars does not compile.
#[derive(Debug)]
pub struct TemplateError {
    pub template: String,
}

/// The template texts of the configuration, script before style for each
/// library, in configuration order.
pub open spec fn config_templates(config: Seq<PluginImportConfig>) -> Seq<Seq<char>> {
    let e = spec_template_entries(config, config.len() as int);
    Seq::new(e.len(), |k: int| e[k].1)
}

/// Builds the plugin for the given configurations; `Err` with the first
/// template that does not compile, when there is one.
pub fn plugin_import(config: Vec<PluginImportConfig>) -> (r: Result<ImportPlugin, TemplateError>)
    ensures
        r is Ok <==> forall|k: int| 0 <= k < config_templates(config@).len() ==> spec_template_compiles(
            #[trigger] config_templates(config@)[k],
        ),
        r matches Ok(p) ==> p.config == config,
        r matches Err(e) ==> exists|k: int|
            0 <= k < config_templates(config@).len() && config_templates(config@)[k] == e.template@
                && !spec_template_compiles(config_templates(config@)[k])
                && forall|j: int| 0 <= j < k ==> spec_template_compiles(#[trigger] config_templates(config@)[j]),
{
    let entries = template_entries(&config);
    let ghost ts = config_templates(config@);
    assert(entries@.len() == ts.len()) by {
        assert(entries@.map_values(|e: (String, String)| (e.0@, e.1@)).len() == entries@.len());
    }
    let mut k: usize = 0;
    while k < entries.len()
        invariant
            k <= entries@.len(),
            entries@.len() == ts.len(),
            ts == config_templates(config@),
            entries@.map_values(|e: (String, String)| (e.0@, e.1@)) == spec_template_entries(config@, config@.len() as int),
            forall|j: int| 0 <= j < k ==> spec_template_compiles(#[trigger] ts[j]),
        decreases entries@.len() - k,
    {
        assert(ts[k as int] == entries@[k as int].1@) by {
            assert(entries@.map_values(|e: (String, String)| (e.0@, e.1@))[k as int] == (entries@[k as int].0@, entries@[k as int].1@));
        }
        if !template_compiles(entries[k].1.as_str()) {
            return Err(TemplateError { template: entries[k].1.clone() });
        }
        k = k + 1;
    }
    Ok(ImportPlugin { config })
}

proof fn lemma_find_config_extend(config: Seq<PluginImportConfig>, src: Seq<char>, n: int, m: int)
    requires
        0 <= n <= m <= config.len(),
        find_config(config.take(n), src) is Some,
    ensures
        find_config(config.take(m), src) == find_config(config.take(n), src),
    decreases m - n,
{
    if m > n {
        lemma_find_config_extend(config, src, n, m - 1);
        assert(config.take(m).drop_last() =~= config.take(m - 1));
    }
}

/// The index of the first configuration for library `src`.
fn find_config_index(config: &Vec<PluginImportConfig>, src: &str) -> (r: Option<usize>)
    ensures
        match r {
            Some(i) => find_config(config@, src@) == Some(i as int) && i < config@.len(),
            None => find_config(config@, src@) is None,
        },
{
    let mut k: usize = 0;
    assert(config@.take(0) =~= Seq::<PluginImportConfig>::empty());
    while k < config.len()
        invariant
            k <= config@.len(),
            find_config(config@.take(k as int), src@) is None,
        decreases config@.len() - k,
    {
        assert(config@.take(k + 1).drop_last() =~= config@.take(k as int));
        if str_eq(config[k].from_source.as_str(), src) {
            assert(find_config(config@.take(k + 1), src@) == Some(k as int));
            proof {
                lemma_find_config_extend(config@, src@, k + 1, config@.len() as int);
            }
            assert(config@.take(config@.len() as int) =~= config@);
            return Some(k);
        }
        k = k + 1;
    }
    assert(config@.take(config@.len() as int) =~= config@);
    None
}

/// The exported name and the local alias of a named specifier.
fn named_parts(n: &ImportNamedSpecifier) -> (r: (String, Option<String>))
    ensures
        r.0@ == named_ident(*n),
        opt_str(r.1) == named_as_name(*n),
{
    let ident = match &n.imported {
        Some(ModuleExportName::Ident(id)) => id.sym.clone(),
        Some(ModuleExportName::Str(s)) => s.clone(),
        None => n.local.sym.clone(),
    };
    let as_name = match &n.imported {
        Some(_) => Some(n.local.sym.clone()),
        None => None,
    };
    (ident, as_name)
}

fn unwrap_bool(b: Option<bool>, d: bool) -> (r: bool)
    ensures
        r == opt_bool(b, d),
{
    match b {
        Some(x) => x,
        None => d,
    }
}

fn listed(list: &Option<Vec<String>>, s: &str) -> (r: bool)
    ensures
        r == in_list(*list, s@),
{
    match list {
        Some(l) => str_in(l, s),
        None => false,
    }
}

/// The component name after the optional kebab-case and lowercase steps.
fn convert_ident(ident: &str, camel2dash: bool, lower: bool) -> (r: String)
    ensures
        r@ == transformed_ident(ident@, camel2dash, lower),
{
    let a = if camel2dash { kebab_case(ident) } else { to_owned_string(ident) };
    if lower { to_lowercase(a.as_str()) } else { a }
}

/// The name for which a style path is requested, if any.
fn css_request_exec(cfg: &PluginImportConfig, ident: &str) -> (r: Option<String>)
    ensures
        opt_str(r) == css_request(*cfg, ident@),
{
    match &cfg.replace_css {
        Some(css) => if listed(&css.ignore_style_component, ident) {
            None
        } else {
            Some(convert_ident(ident, unwrap_bool(css.camel2_dash_component_name, true), unwrap_bool(css.lower, false)))
        },
        None => None,
    }
}

/// The name for which a script path is requested, if any.
fn js_request_exec(cfg: &PluginImportConfig, ident: &str) -> (r: Option<String>)
    ensures
        opt_str(r) == js_request(*cfg, ident@),
{
    match &cfg.replace_js {
        Some(js) => if listed(&js.ignore_es_component, ident) {
            None
        } else {
            Some(convert_ident(ident, unwrap_bool(js.camel2_dash_component_name, true), unwrap_bool(js.lower, false)))
        },
        None => None,
    }
}

fn suffixed(from_source: &String, suffix: &str) -> (r: String)
    ensures
        r@ == from_source@ + suffix@,
{
    from_source.clone().concat(suffix)
}

fn opt_clone(o: &Option<String>) -> (r: Option<String>)
    ensures
        opt_str(r) == opt_str(*o),
{
    match o {
        Some(s) => Some(s.clone()),
        None => None,
    }
}

/// The name under which the templates of a configuration are registered:
/// the library name followed by `js` or `css`.
pub fn template_name(cfg: &PluginImportConfig, kind: SourceKind) -> (r: String)
    ensures
        r@ == cfg.from_source@ + (if kind == SourceKind::Css { css_seq() } else { js_seq() }),
{
    proof {
        reveal_strlit("css");
        reveal_strlit("js");
    }
    match kind {
        SourceKind::Css => suffixed(&cfg.from_source, "css"),
        SourceKind::Js => suffixed(&cfg.from_source, "js"),
    }
}

/// The templates to register before rendering: for each configuration with
/// a style or script template, its name and text, in configuration order,
/// script before style.
pub fn template_entries(config: &Vec<PluginImportConfig>) -> (r: Vec<(String, String)>)
    ensures
        r@.map_values(|e: (String, String)| (e.0@, e.1@)) == spec_template_entries(config@, config@.len() as int),
{
    let mut out: Vec<(String, String)> = Vec::new();
    let mut k: usize = 0;
    while k < config.len()
        invariant
            k <= config@.len(),
            out@.map_values(|e: (String, String)| (e.0@, e.1@)) == spec_template_entries(config@, k as int),
        decreases config@.len() - k,
    {
        let ghost before = out@;
        let cfg = &config[k];
        match &cfg.replace_js {
            Some(js) => match &js.template {
                Some(t) => {
                    out.push((template_name(cfg, SourceKind::Js), t.clone()));
                },
                None => {},
            },
            None => {},
        }
        let ghost mid = out@;
        match &cfg.replace_css {
            Some(css) => match &css.template {
                Some(t) => {
                    out.push((template_name(cfg, SourceKind::Css), t.clone()));
                },
                None => {},
            },
            None => {},
        }
        assert(out@.map_values(|e: (String, String)| (e.0@, e.1@)) =~= spec_template_entries(config@, k + 1));
        k = k + 1;
    }
    out
}

pub open spec fn cfg_template_entries(cfg: PluginImportConfig) -> Seq<(Seq<char>, Seq<char>)> {
    (match cfg.replace_js {
        Some(js) => match js.template {
            Some(t) => seq![(cfg.from_source@ + js_seq(), t@)],
            None => Seq::empty(),
        },
        None => Seq::empty(),
    }) + (match cfg.replace_css {
        Some(css) => match css.template {
            Some(t) => seq![(cfg.from_source@ + css_seq(), t@)],
            None => Seq::empty(),
        },
        None => Seq::empty(),
    })
}

pub open spec fn spec_template_entries(config: Seq<PluginImportConfig>, n: int) -> Seq<(Seq<char>, Seq<char>)>
    decreases n,
{
    if n <= 0 {
        Seq::empty()
    } else {
        spec_template_entries(config, n - 1) + cfg_template_entries(config[n - 1])
    }
}

pub open spec fn reqs_view(v: Seq<SourceRequest>) -> Seq<SourceRequestView> {
    v.map_values(|q: SourceRequest| q@)
}

fn specifier_requests(
    cfg: &PluginImportConfig,
    ci: usize,
    s: &ImportSpecifier,
    refs: &Vec<Id>,
    i: usize,
    j: usize,
    out: &mut Vec<SourceRequest>,
)
    ensures
        reqs_view(final(out)@) == reqs_view(old(out)@) + spec_spec_requests(*cfg, ci as int, *s, refs@, i as int, j as int),
{
    match s {
        ImportSpecifier::Named(n) => {
            if id_in(refs, &n.local) {
                let (ident, _as_name) = named_parts(n);
                let ghost start = out@;
                match css_request_exec(cfg, ident.as_str()) {
                    Some(id) => {
                        let css = cfg.replace_css.as_ref().unwrap();
                        let template_name = match &css.template {
                            Some(_) => Some(template_name(cfg, SourceKind::Css)),
                            None => None,
                        };
                        out.push(SourceRequest {
                            item: i,
                            specifier: j,
                            kind: SourceKind::Css,
                            config_index: ci,
                            name: ident.clone(),
                            ident: id,
                            template_name,
                            has_replace_expr: css.has_replace_expr,
                        });
                    },
                    None => {},
                }
                let ghost mid = out@;
                match js_request_exec(cfg, ident.as_str()) {
                    Some(id) => {
                        let js = cfg.replace_js.as_ref().unwrap();
                        let template_name = match &js.template {
                            Some(_) => Some(template_name(cfg, SourceKind::Js)),
                            None => None,
                        };
                        out.push(SourceRequest {
                            item: i,
                            specifier: j,
                            kind: SourceKind::Js,
                            config_index: ci,
                            name: ident.clone(),
                            ident: id,
                            template_name,
                            has_replace_expr: js.has_replace_expr,
                        });
                    },
                    None => {},
                }
                assert(reqs_view(out@) =~= reqs_view(old(out)@) + spec_spec_requests(*cfg, ci as int, *s, refs@, i as int, j as int));
            } else {
                assert(reqs_view(out@) =~= reqs_view(old(out)@) + spec_spec_requests(*cfg, ci as int, *s, refs@, i as int, j as int));
            }
        },
        _ => {
            assert(reqs_view(out@) =~= reqs_view(old(out)@) + spec_spec_requests(*cfg, ci as int, *s, refs@, i as int, j as int));
        },
    }
}

impl ImportPlugin {
    /// The component names whose source paths the transform needs, in the
    /// order it consults them: for each import of a configured library, each
    /// referenced named specifier, its style path then its script path.
    pub fn source_requests(&self, module: &Module, referenced: &Vec<Id>) -> (r: Vec<SourceRequest>)
        ensures
            reqs_view(r@) == all_reqs(self.config@, module.body@, referenced@, module.body@.len() as int),
    {
        let mut out: Vec<SourceRequest> = Vec::new();
        let mut i: usize = 0;
        while i < module.body.len()
            invariant
                i <= module.body@.len(),
                reqs_view(out@) == all_reqs(self.config@, module.body@, referenced@, i as int),
            decreases module.body@.len() - i,
        {
            let ghost before = out@;
            match &module.body[i] {
                ModuleItem::Import(d) => {
                    match find_config_index(&self.config, d.src.as_str()) {
                        Some(ci) => {
                            let cfg = &self.config[ci];
                            let mut j: usize = 0;
                            while j < d.specifiers.len()
                                invariant
                                    j <= d.specifiers@.len(),
                                    ci < self.config@.len(),
                                    reqs_view(out@) == reqs_view(before) + req_list(*cfg, ci as int, d.specifiers@, referenced@, i as int, j as int),
                                decreases d.specifiers@.len() - j,
                            {
                                specifier_requests(cfg, ci, &d.specifiers[j], referenced, i, j, &mut out);
                                assert(reqs_view(out@) =~= reqs_view(before) + req_list(*cfg, ci as int, d.specifiers@, referenced@, i as int, j + 1));
                                j = j + 1;
                            }
                        },
                        None => {},
                    }
                },
                ModuleItem::Other(_) => {},
            }
            assert(reqs_view(out@) =~= all_reqs(self.config@, module.body@, referenced@, i + 1));
            i = i + 1;
        }
        out
    }
}

pub open spec fn strs_view(v: Seq<String>) -> Seq<Seq<char>> {
    v.map_values(|x: String| x@)
}

pub open spec fn es_view(v: Seq<EsSpec>) -> Seq<EsSpecView> {
    v.map_values(|x: EsSpec| x@)
}

pub open spec fn items_view(v: Seq<ModuleItem>) -> Seq<ModuleItemView> {
    v.map_values(|x: ModuleItem| x@)
}

pub proof fn lemma_strs_view_push(s: Seq<String>, x: String)
    ensures
        strs_view(s.push(x)) == strs_view(s).push(x@),
{
    assert(strs_view(s.push(x)) =~= strs_view(s).push(x@));
}

pub proof fn lemma_es_view_push(s: Seq<EsSpec>, x: EsSpec)
    ensures
        es_view(s.push(x)) == es_view(s).push(x@),
{
    assert(es_view(s.push(x)) =~= es_view(s).push(x@));
}

pub proof fn lemma_items_view_push(s: Seq<ModuleItem>, x: ModuleItem)
    ensures
        items_view(s.push(x)) == items_view(s).push(x@),
{
    assert(items_view(s.push(x)) =~= items_view(s).push(x@));
}

pub proof fn lemma_items_view_append(a: Seq<ModuleItem>, b: Seq<ModuleItem>)
    ensures
        items_view(a + b) == items_view(a) + items_view(b),
{
    assert(items_view(a + b) =~= items_view(a) + items_view(b));
}

pub open spec fn push_opt<A>(s: Seq<A>, o: Option<A>) -> Seq<A> {
    match o {
        Some(x) => s.push(x),
        None => s,
    }
}

pub proof fn lemma_push_opt_concat<A>(a: Seq<A>, b: Seq<A>, o: Option<A>)
    ensures
        push_opt(a + b, o) == a + push_opt(b, o),
{
    match o {
        Some(x) => {
            assert((a + b).push(x) =~= a + b.push(x));
        },
        None => {},
    }
}

pub open spec fn opt_item_view(o: Option<ModuleItem>) -> Option<ModuleItemView> {
    match o {
        Some(x) => Some(x@),
        None => None,
    }
}

fn answer_css(answers: &Vec<Vec<SourceAnswer>>, i: usize, j: usize) -> (r: Option<String>)
    ensures
        opt_str(r) == row_css(row_at(answers@, i as int), j as int),
{
    if i < answers.len() && j < answers[i].len() {
        opt_clone(&answers[i][j].css)
    } else {
        None
    }
}

fn answer_js(answers: &Vec<Vec<SourceAnswer>>, i: usize, j: usize) -> (r: Option<String>)
    ensures
        opt_str(r) == row_js(row_at(answers@, i as int), j as int),
{
    if i < answers.len() && j < answers[i].len() {
        opt_clone(&answers[i][j].js)
    } else {
        None
    }
}

/// Filters one specifier and records the imports it gives rise to.
fn process_specifier(
    cfg: &PluginImportConfig,
    s: &ImportSpecifier,
    refs: &Vec<Id>,
    trefs: &Vec<Id>,
    answers: &Vec<Vec<SourceAnswer>>,
    i: usize,
    j: usize,
    kept: &mut Vec<ImportSpecifier>,
    removed: &mut usize,
    css: &mut Vec<String>,
    es: &mut Vec<EsSpec>,
)
    requires
        *old(removed) <= j,
        j < usize::MAX,
    ensures
        specifiers_view(final(kept)@) == (if spec_removed(*cfg, *s, refs@, trefs@, row_js(row_at(answers@, i as int), j as int)) {
            specifiers_view(old(kept)@)
        } else {
            specifiers_view(old(kept)@).push(s@)
        }),
        *final(removed) == *old(removed) + (if spec_removed(*cfg, *s, refs@, trefs@, row_js(row_at(answers@, i as int), j as int)) { 1int } else { 0int }),
        strs_view(final(css)@) == push_opt(strs_view(old(css)@), spec_css_source(*cfg, *s, refs@, row_css(row_at(answers@, i as int), j as int))),
        es_view(final(es)@) == push_opt(es_view(old(es)@), spec_es_source(*cfg, *s, refs@, row_js(row_at(answers@, i as int), j as int))),
{
    let ghost row = row_at(answers@, i as int);
    match s {
        ImportSpecifier::Named(n) => {
            let (ident, as_name) = named_parts(n);
            if id_in(refs, &n.local) {
                match css_request_exec(cfg, ident.as_str()) {
                    Some(_) => match answer_css(answers, i, j) {
                        Some(src) => {
                            proof {
                                lemma_strs_view_push(css@, src);
                            }
                            css.push(src);
                        },
                        None => {},
                    },
                    None => {},
                }
                let mut drop = false;
                match js_request_exec(cfg, ident.as_str()) {
                    Some(_) => match answer_js(answers, i, j) {
                        Some(src) => {
                            let use_default_import = unwrap_bool(cfg.replace_js.as_ref().unwrap().transform_to_default_import, true);
                            let e = EsSpec {
                                source: src,
                                default_spec: ident,
                                as_name,
                                use_default_import,
                                mark: n.local.ctxt,
                            };
                            proof {
                                lemma_es_view_push(es@, e);
                            }
                            es.push(e);
                            drop = true;
                        },
                        None => {},
                    },
                    None => {},
                }
                if drop {
                    *removed = *removed + 1;
                } else {
                    let d = s.duplicate();
                    proof {
                        lemma_specifiers_view_push(kept@, d);
                    }
                    kept.push(d);
                }
            } else if id_in(trefs, &n.local) {
                let d = s.duplicate();
                proof {
                    lemma_specifiers_view_push(kept@, d);
                }
                kept.push(d);
            } else {
                *removed = *removed + 1;
            }
        },
        _ => {
            let d = s.duplicate();
            proof {
                lemma_specifiers_view_push(kept@, d);
            }
            kept.push(d);
        },
    }
}

proof fn lemma_removed_count_bound(
    cfg: PluginImportConfig,
    specs: Seq<ImportSpecifier>,
    refs: Seq<Id>,
    trefs: Seq<Id>,
    row: Seq<SourceAnswer>,
    n: int,
)
    requires
        n >= 0,
    ensures
        0 <= removed_count(cfg, specs, refs, trefs, row, n) <= n,
    decreases n,
{
    if n > 0 {
        lemma_removed_count_bound(cfg, specs, refs, trefs, row, n - 1);
    }
}

/// Filters one module item and records the imports it gives rise to.
fn process_item(
    config: &Vec<PluginImportConfig>,
    item: &ModuleItem,
    refs: &Vec<Id>,
    trefs: &Vec<Id>,
    answers: &Vec<Vec<SourceAnswer>>,
    i: usize,
    css: &mut Vec<String>,
    es: &mut Vec<EsSpec>,
) -> (r: Option<ModuleItem>)
    ensures
        opt_item_view(r) == spec_item_out(config@, *item, refs@, trefs@, row_at(answers@, i as int)),
        strs_view(final(css)@) == strs_view(old(css)@) + item_css(config@, *item, refs@, row_at(answers@, i as int)),
        es_view(final(es)@) == es_view(old(es)@) + item_es(config@, *item, refs@, row_at(answers@, i as int)),
{
    let ghost row = row_at(answers@, i as int);
    match item {
        ModuleItem::Import(d) => {
            match find_config_index(config, d.src.as_str()) {
                Some(ci) => {
                    let cfg = &config[ci];
                    let mut kept: Vec<ImportSpecifier> = Vec::new();
                    let mut removed: usize = 0;
                    let mut j: usize = 0;
                    let ghost css0 = css@;
                    let ghost es0 = es@;
                    while j < d.specifiers.len()
                        invariant
                            j <= d.specifiers@.len(),
                            row == row_at(answers@, i as int),
                            specifiers_view(kept@) == kept_specs(*cfg, d.specifiers@, refs@, trefs@, row, j as int),
                            removed == removed_count(*cfg, d.specifiers@, refs@, trefs@, row, j as int),
                            strs_view(css@) == strs_view(css0) + css_list(*cfg, d.specifiers@, refs@, row, j as int),
                            es_view(es@) == es_view(es0) + es_list(*cfg, d.specifiers@, refs@, row, j as int),
                        decreases d.specifiers@.len() - j,
                    {
                        proof {
                            lemma_removed_count_bound(*cfg, d.specifiers@, refs@, trefs@, row, j as int);
                        }
                        let ghost kept0 = kept@;
                        let ghost cssb = css@;
                        let ghost sj = d.specifiers@[j as int];
                        process_specifier(cfg, &d.specifiers[j], refs, trefs, answers, i, j, &mut kept, &mut removed, css, es);
                        assert(specifiers_view(kept@) == (if spec_removed(*cfg, sj, refs@, trefs@, row_js(row, j as int)) {
                            specifiers_view(kept0)
                        } else {
                            specifiers_view(kept0).push(sj@)
                        }));
                        assert(strs_view(css@) == push_opt(strs_view(cssb), spec_css_source(*cfg, sj, refs@, row_css(row, j as int))));
                        assert(kept_specs(*cfg, d.specifiers@, refs@, trefs@, row, j + 1) == (if spec_removed(*cfg, d.specifiers@[j as int], refs@, trefs@, row_js(row, j as int)) {
                            kept_specs(*cfg, d.specifiers@, refs@, trefs@, row, j as int)
                        } else {
                            kept_specs(*cfg, d.specifiers@, refs@, trefs@, row, j as int).push(d.specifiers@[j as int]@)
                        }));
                        proof {
                            lemma_push_opt_concat(strs_view(css0), css_list(*cfg, d.specifiers@, refs@, row, j as int), spec_css_source(*cfg, d.specifiers@[j as int], refs@, row_css(row, j as int)));
                            lemma_push_opt_concat(es_view(es0), es_list(*cfg, d.specifiers@, refs@, row, j as int), spec_es_source(*cfg, d.specifiers@[j as int], refs@, row_js(row, j as int)));
                        }
                        j = j + 1;
                    }
                    if removed == d.specifiers.len() {
                        None
                    } else {
                        Some(ModuleItem::Import(ImportDecl {
                            src: d.src.clone(),
                            specifiers: kept,
                            type_only: d.type_only,
                        }))
                    }
                },
                None => {
                    assert(strs_view(css@) =~= strs_view(old(css)@) + item_css(config@, *item, refs@, row));
                    assert(es_view(es@) =~= es_view(old(es)@) + item_es(config@, *item, refs@, row));
                    Some(ModuleItem::Import(d.duplicate()))
                },
            }
        },
        ModuleItem::Other(h) => {
            assert(strs_view(css@) =~= strs_view(old(css)@) + item_css(config@, *item, refs@, row));
            assert(es_view(es@) =~= es_view(old(es)@) + item_es(config@, *item, refs@, row));
            Some(ModuleItem::Other(*h))
        },
    }
}

/// The declaration added for a rewritten component.
fn es_import(e: &EsSpec) -> (r: ModuleItem)
    ensures
        r@ == es_import_view(e@),
{
    let sym = match &e.as_name {
        Some(a) => a.clone(),
        None => e.default_spec.clone(),
    };
    let local = Id { sym, ctxt: e.mark };
    let spec = if e.use_default_import {
        ImportSpecifier::Default(local)
    } else {
        ImportSpecifier::Named(ImportNamedSpecifier {
            local,
            imported: match &e.as_name {
                Some(_) => Some(ModuleExportName::Ident(Id { sym: e.default_spec.clone(), ctxt: 0 })),
                None => None,
            },
            is_type_only: false,
        })
    };
    let mut specifiers = Vec::new();
    specifiers.push(spec);
    let r = ModuleItem::Import(ImportDecl { src: e.source.clone(), specifiers, type_only: false });
    assert(specifiers_view(specifiers@) =~= match es_import_view(e@) {
        ModuleItemView::Import(d) => d.specifiers,
        _ => Seq::empty(),
    });
    r
}

impl ImportPlugin {
    /// Applies the transform. `referenced` and `type_referenced` are the
    /// bindings the module refers to as values and as types; `answers[i][j]`
    /// holds the source paths obtained for specifier `j` of item `i`.
    pub fn visit_mut_module(
        &self,
        module: &mut Module,
        referenced: &Vec<Id>,
        type_referenced: &Vec<Id>,
        answers: &Vec<Vec<SourceAnswer>>,
    )
        ensures
            final(module)@ == spec_transform(self.config@, old(module).body@, referenced@, type_referenced@, answers@),
    {
        let mut css: Vec<String> = Vec::new();
        let mut es: Vec<EsSpec> = Vec::new();
        let mut items: Vec<ModuleItem> = Vec::new();
        let n = module.body.len();
        let mut i: usize = 0;
        while i < n
            invariant
                n == module.body@.len(),
                i <= n,
                items_view(items@) == out_items(self.config@, module.body@, referenced@, type_referenced@, answers@, i as int),
                strs_view(css@) == all_css(self.config@, module.body@, referenced@, answers@, i as int),
                es_view(es@) == all_es(self.config@, module.body@, referenced@, answers@, i as int),
            decreases n - i,
        {
            let r = process_item(&self.config, &module.body[i], referenced, type_referenced, answers, i, &mut css, &mut es);
            match r {
                Some(x) => {
                    proof {
                        lemma_items_view_push(items@, x);
                    }
                    items.push(x);
                },
                None => {},
            }
            i = i + 1;
        }
        let ghost old_body = module.body@;
        let ghost cssv = strs_view(css@);
        let ghost esv = es_view(es@);
        let mut body: Vec<ModuleItem> = Vec::new();
        let nc = css.len();
        let mut k: usize = 0;
        while k < nc
            invariant
                nc == css@.len(),
                cssv == strs_view(css@),
                k <= nc,
                items_view(body@) == Seq::new(k as nat, |t: int| css_import_view(cssv[nc - 1 - t])),
            decreases nc - k,
        {
            let x = ModuleItem::Import(ImportDecl {
                src: css[nc - 1 - k].clone(),
                specifiers: Vec::new(),
                type_only: false,
            });
            assert(specifiers_view(Seq::<ImportSpecifier>::empty()) =~= Seq::<ImportSpecifierView>::empty());
            assert(x@ == css_import_view(cssv[nc - 1 - k]));
            proof {
                lemma_items_view_push(body@, x);
            }
            body.push(x);
            assert(items_view(body@) =~= Seq::new((k + 1) as nat, |t: int| css_import_view(cssv[nc - 1 - t])));
            k = k + 1;
        }
        let ne = es.len();
        let mut k: usize = 0;
        let ghost css_part = items_view(body@);
        while k < ne
            invariant
                ne == es@.len(),
                esv == es_view(es@),
                k <= ne,
                items_view(body@) == css_part + Seq::new(k as nat, |t: int| es_import_view(esv[ne - 1 - t])),
            decreases ne - k,
        {
            let x = es_import(&es[ne - 1 - k]);
            proof {
                lemma_items_view_push(body@, x);
            }
            body.push(x);
            assert(items_view(body@) =~= css_part + Seq::new((k + 1) as nat, |t: int| es_import_view(esv[ne - 1 - t])));
            k = k + 1;
        }
        let ghost prefix = items_view(body@);
        let ghost rest = items_view(items@);
        let ghost b0 = body@;
        let ghost i0 = items@;
        body.append(&mut items);
        proof {
            lemma_items_view_append(b0, i0);
        }
        module.body = body;
    }
}


/// The source path of a request: what the user function gave, when it gave
/// one, else the rendered template, if any.
pub open spec fn spec_pick_source(from_fn: Option<Seq<char>>, rendered: Option<Seq<char>>) -> Option<Seq<char>> {
    if from_fn is Some { from_fn } else { rendered }
}

/// The user function is consulted first; the template only when it gives
/// nothing.
pub fn pick_source(from_fn: Option<String>, rendered: Option<String>) -> (r: Option<String>)
    ensures
        opt_str(r) == spec_pick_source(opt_str(from_fn), opt_str(rendered)),
{
    match from_fn {
        Some(s) => Some(s),
        None => rendered,
    }
}

/// An answer by its two source paths, style and script.
pub open spec fn answer_view(a: SourceAnswer) -> (Option<Seq<char>>, Option<Seq<char>>) {
    (opt_str(a.css), opt_str(a.js))
}

pub open spec fn row_view(r: Seq<SourceAnswer>) -> Seq<(Option<Seq<char>>, Option<Seq<char>>)> {
    r.map_values(|a: SourceAnswer| answer_view(a))
}

pub open spec fn rows_view(rows: Seq<Vec<SourceAnswer>>) -> Seq<Seq<(Option<Seq<char>>, Option<Seq<char>>)>> {
    rows.map_values(|r: Vec<SourceAnswer>| row_view(r@))
}

/// One empty answer per specifier of each import declaration; none for
/// other items.
pub open spec fn empty_rows(body: Seq<ModuleItem>) -> Seq<Seq<(Option<Seq<char>>, Option<Seq<char>>)>> {
    body.map_values(|it: ModuleItem| match it {
        ModuleItem::Import(d) => Seq::new(d.specifiers@.len(), |j: int| (None::<Seq<char>>, None::<Seq<char>>)),
        ModuleItem::Other(_) => Seq::empty(),
    })
}

/// The answers with `src` put in the slot of request `r`, by its item,
/// specifier and kind; a request outside the table changes nothing.
pub open spec fn place(
    rows: Seq<Seq<(Option<Seq<char>>, Option<Seq<char>>)>>,
    r: SourceRequestView,
    src: Option<Seq<char>>,
) -> Seq<Seq<(Option<Seq<char>>, Option<Seq<char>>)>> {
    if 0 <= r.item < rows.len() && 0 <= r.specifier < rows[r.item].len() {
        let a = rows[r.item][r.specifier];
        rows.update(r.item, rows[r.item].update(r.specifier, if r.kind == SourceKind::Css { (src, a.1) } else { (a.0, src) }))
    } else {
        rows
    }
}

/// The answers after the first `n` requests were given their sources.
pub open spec fn spec_place_answers(
    body: Seq<ModuleItem>,
    reqs: Seq<SourceRequestView>,
    srcs: Seq<Option<Seq<char>>>,
    n: int,
) -> Seq<Seq<(Option<Seq<char>>, Option<Seq<char>>)>>
    decreases n,
{
    if n <= 0 {
        empty_rows(body)
    } else {
        place(spec_place_answers(body, reqs, srcs, n - 1), reqs[n - 1], srcs[n - 1])
    }
}

pub open spec fn opt_strs(v: Seq<Option<String>>) -> Seq<Option<Seq<char>>> {
    v.map_values(|o: Option<String>| opt_str(o))
}

/// The answers table for `visit_mut_module`: `sources[k]` is the source
/// path found for `requests[k]`, put in the slot of that request.
pub fn place_answers(module: &Module, requests: &Vec<SourceRequest>, sources: Vec<Option<String>>) -> (r: Vec<Vec<SourceAnswer>>)
    requires
        sources@.len() == requests@.len(),
    ensures
        rows_view(r@) == spec_place_answers(module.body@, reqs_view(requests@), opt_strs(sources@), requests@.len() as int),
{
    let mut rows: Vec<Vec<SourceAnswer>> = Vec::new();
    let mut i: usize = 0;
    while i < module.body.len()
        invariant
            i <= module.body@.len(),
            rows_view(rows@) == empty_rows(module.body@).take(i as int),
        decreases module.body@.len() - i,
    {
        let mut row: Vec<SourceAnswer> = Vec::new();
        let m = match &module.body[i] {
            ModuleItem::Import(d) => d.specifiers.len(),
            ModuleItem::Other(_) => 0,
        };
        let mut j: usize = 0;
        while j < m
            invariant
                j <= m,
                row_view(row@) == Seq::new(j as nat, |t: int| (None::<Seq<char>>, None::<Seq<char>>)),
            decreases m - j,
        {
            let ghost before = row@;
            row.push(SourceAnswer { css: None, js: None });
            assert(row_view(row@) =~= Seq::new((j + 1) as nat, |t: int| (None::<Seq<char>>, None::<Seq<char>>))) by {
                assert(row_view(row@) =~= row_view(before).push((None::<Seq<char>>, None::<Seq<char>>)));
            }
            j = j + 1;
        }
        let ghost before = rows@;
        rows.push(row);
        assert(rows_view(rows@) =~= empty_rows(module.body@).take(i + 1)) by {
            assert(rows_view(rows@) =~= rows_view(before).push(row_view(row@)));
            assert(row_view(row@) =~= empty_rows(module.body@)[i as int]);
        }
        i = i + 1;
    }
    assert(empty_rows(module.body@).take(module.body@.len() as int) =~= empty_rows(module.body@));
    let ghost reqs = reqs_view(requests@);
    let ghost srcs = opt_strs(sources@);
    let ghost orig = sources@;
    let n = requests.len();
    let mut rest = reversed(sources);
    let mut k: usize = 0;
    while k < n
        invariant
            n == requests@.len(),
            n == orig.len(),
            k <= n,
            reqs == reqs_view(requests@),
            srcs == opt_strs(orig),
            rest@ == Seq::new((n - k) as nat, |t: int| orig[n - 1 - t]),
            rows_view(rows@) == spec_place_answers(module.body@, reqs, srcs, k as int),
        decreases n - k,
    {
        let src = rest.pop().unwrap();
        assert(src == orig[k as int]);
        assert(rest@ =~= Seq::new((n - k - 1) as nat, |t: int| orig[n - 1 - t]));
        assert(srcs[k as int] == opt_str(src));
        let r = &requests[k];
        assert(reqs[k as int] == r@);
        let ghost rv0 = rows_view(rows@);
        if r.item < rows.len() && r.specifier < rows[r.item].len() {
            let mut row = rows.remove(r.item);
            let old_a = row.remove(r.specifier);
            let new_a = match r.kind {
                SourceKind::Css => SourceAnswer { css: src, js: old_a.js },
                SourceKind::Js => SourceAnswer { css: old_a.css, js: src },
            };
            let ghost row0 = row@;
            row.insert(r.specifier, new_a);
            let ghost rows0 = rows@;
            rows.insert(r.item, row);
            assert(row_view(row@) =~= rv0[r.item as int].update(r.specifier as int, answer_view(new_a)));
            assert(rows_view(rows@) =~= rv0.update(r.item as int, row_view(row@)));
        }
        k = k + 1;
    }
    rows
}

/// The template of the configuration that a request names, by its kind.
pub open spec fn request_template(config: Seq<PluginImportConfig>, r: SourceRequestView) -> Option<Seq<char>> {
    if 0 <= r.config_index < config.len() {
        let cfg = config[r.config_index];
        if r.kind == SourceKind::Css {
            match cfg.replace_css {
                Some(c) => opt_str(c.template),
                None => None,
            }
        } else {
            match cfg.replace_js {
                Some(j) => opt_str(j.template),
                None => None,
            }
        }
    } else {
        None
    }
}

/// What the user function gave for a request; it is consulted only where
/// the configuration has one.
pub open spec fn fn_answer(r: SourceRequestView, f: Option<Seq<char>>) -> Option<Seq<char>> {
    if r.has_replace_expr { f } else { None }
}

/// The source path of a request: the user function's, else the template
/// rendered with the converted component name.
pub open spec fn request_source(config: Seq<PluginImportConfig>, r: SourceRequestView, f: Option<Seq<char>>) -> Option<Seq<char>> {
    spec_pick_source(
        fn_answer(r, f),
        match request_template(config, r) {
            Some(t) => spec_render_template(t, r.ident),
            None => None,
        },
    )
}

/// The template of a request has to be rendered, and fails to.
pub open spec fn render_fails(config: Seq<PluginImportConfig>, r: SourceRequestView, f: Option<Seq<char>>) -> bool {
    &&& fn_answer(r, f) is None
    &&& request_template(config, r) matches Some(t)
    &&& spec_render_template(t, r.ident) is None
}

/// A template that did not render, and the name it was rendered with.
#[derive(Debug)]
pub struct RenderFailure {
    pub template: String,
    pub ident: String,
}

fn request_template_exec<'a>(config: &'a Vec<PluginImportConfig>, r: &SourceRequest) -> (t: Option<&'a String>)
    ensures
        match t {
            Some(x) => request_template(config@, r@) == Some(x@),
            None => request_template(config@, r@) is None,
        },
{
    if r.config_index >= config.len() {
        return None;
    }
    let cfg = &config[r.config_index];
    match r.kind {
        SourceKind::Css => match &cfg.replace_css {
            Some(c) => c.template.as_ref(),
            None => None,
        },
        SourceKind::Js => match &cfg.replace_js {
            Some(j) => j.template.as_ref(),
            None => None,
        },
    }
}

impl ImportPlugin {
    /// The answers table for `visit_mut_module`. `fn_results[k]` is what the
    /// user function of request `k` returned for its component name as
    /// written (ignored where the configuration has no user function);
    /// where it gave nothing, the template is rendered with the converted
    /// name. `Err` when a template that has to be rendered fails to.
    pub fn answers(&self, module: &Module, requests: &Vec<SourceRequest>, fn_results: &Vec<Option<String>>) -> (r: Result<Vec<Vec<SourceAnswer>>, RenderFailure>)
        requires
            fn_results@.len() == requests@.len(),
        ensures
            match r {
                Ok(rows) => {
                    &&& forall|k: int| 0 <= k < requests@.len() ==> !render_fails(self.config@, #[trigger] requests@[k]@, opt_str(fn_results@[k]))
                    &&& rows_view(rows@) == spec_place_answers(
                        module.body@,
                        reqs_view(requests@),
                        Seq::new(requests@.len(), |k: int| request_source(self.config@, requests@[k]@, opt_str(fn_results@[k]))),
                        requests@.len() as int,
                    )
                },
                Err(e) => exists|k: int| 0 <= k < requests@.len() && #[trigger] render_fails(self.config@, requests@[k]@, opt_str(fn_results@[k]))
                    && request_template(self.config@, requests@[k]@) == Some(e.template@) && e.ident@ == requests@[k].ident@,
            },
    {
        let renderer = CaseRenderer::new();
        let n = requests.len();
        let ghost want = Seq::new(n as nat, |k: int| request_source(self.config@, requests@[k]@, opt_str(fn_results@[k])));
        let mut sources: Vec<Option<String>> = Vec::new();
        let mut k: usize = 0;
        while k < n
            invariant
                n == requests@.len(),
                n == fn_results@.len(),
                k <= n,
                want == Seq::new(n as nat, |j: int| request_source(self.config@, requests@[j]@, opt_str(fn_results@[j]))),
                opt_strs(sources@) == want.take(k as int),
                forall|j: int| 0 <= j < k ==> !render_fails(self.config@, #[trigger] requests@[j]@, opt_str(fn_results@[j])),
            decreases n - k,
        {
            let req = &requests[k];
            let from_fn = if req.has_replace_expr { opt_clone(&fn_results[k]) } else { None };
            let rendered = if from_fn.is_some() {
                None
            } else {
                match request_template_exec(&self.config, req) {
                    Some(t) => match renderer.render(t.as_str(), &req.ident) {
                        Some(x) => Some(x),
                        None => {
                            assert(fn_answer(requests@[k as int]@, opt_str(fn_results@[k as int])) == opt_str(from_fn));
                            assert(render_fails(self.config@, requests@[k as int]@, opt_str(fn_results@[k as int])));
                            let e = RenderFailure { template: t.clone(), ident: req.ident.clone() };
                            assert(request_template(self.config@, requests@[k as int]@) == Some(e.template@));
                            return Err(e);
                        },
                    },
                    None => None,
                }
            };
            let src = pick_source(from_fn, rendered);
            let ghost before = sources@;
            sources.push(src);
            assert(opt_strs(sources@) =~= want.take(k + 1)) by {
                assert(opt_strs(sources@) =~= opt_strs(before).push(opt_str(src)));
            }
            k = k + 1;
        }
        assert(want.take(n as int) =~= want);
        Ok(place_answers(module, requests, sources))
    }
}

proof fn lemma_unmatched_prefix(
    config: Seq<PluginImportConfig>,
    body: Seq<ModuleItem>,
    refs: Seq<Id>,
    trefs: Seq<Id>,
    answers: Seq<Vec<SourceAnswer>>,
    n: int,
)
    requires
        0 <= n <= body.len(),
        forall|i: int| 0 <= i < body.len() ==> #[trigger] item_config(config, body[i]) is None,
    ensures
        all_css(config, body, refs, answers, n) == Seq::<Seq<char>>::empty(),
        all_es(config, body, refs, answers, n) == Seq::<EsSpecView>::empty(),
        out_items(config, body, refs, trefs, answers, n) == items_view(body.take(n)),
    decreases n,
{
    if n > 0 {
        lemma_unmatched_prefix(config, body, refs, trefs, answers, n - 1);
        assert(item_config(config, body[n - 1]) is None);
        assert(body.take(n) =~= body.take(n - 1).push(body[n - 1]));
        lemma_items_view_push(body.take(n - 1), body[n - 1]);
        assert(all_css(config, body, refs, answers, n) =~= Seq::<Seq<char>>::empty());
        assert(all_es(config, body, refs, answers, n) =~= Seq::<EsSpecView>::empty());
    } else {
        assert(body.take(0) =~= Seq::<ModuleItem>::empty());
        assert(items_view(body.take(0)) =~= Seq::<ModuleItemView>::empty());
    }
}

/// A module none of whose import declarations names a configured library
/// comes out of the transform exactly as it went in, whatever the
/// references and answers.
pub proof fn law_unmatched_module_unchanged(
    config: Seq<PluginImportConfig>,
    body: Seq<ModuleItem>,
    refs: Seq<Id>,
    trefs: Seq<Id>,
    answers: Seq<Vec<SourceAnswer>>,
)
    requires
        forall|i: int| 0 <= i < body.len() ==> #[trigger] item_config(config, body[i]) is None,
    ensures
        spec_transform(config, body, refs, trefs, answers) == items_view(body),
{
    let n = body.len() as int;
    lemma_unmatched_prefix(config, body, refs, trefs, answers, n);
    assert(body.take(n) =~= body);
    let css = all_css(config, body, refs, answers, n);
    let es = all_es(config, body, refs, answers, n);
    assert(Seq::new(css.len(), |k: int| css_import_view(css[css.len() - 1 - k])) =~= Seq::<ModuleItemView>::empty());
    assert(Seq::new(es.len(), |k: int| es_import_view(es[es.len() - 1 - k])) =~= Seq::<ModuleItemView>::empty());
    assert(spec_transform(config, body, refs, trefs, answers) =~= items_view(body));
}

} // verus!
