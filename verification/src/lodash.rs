//! Cherry-picks lodash: `import { map } from 'lodash'` and `_.map(...)`
//! become default imports of the module files (`import map from
//! 'lodash/map'`), and what is left of the package imports is dropped.
//!
//! Finding the packages and listing their files is done outside; the
//! transform takes the resulting tables (`Mappings`, and the packages by
//! import source) as plain values.

use vstd::prelude::*;
use crate::ast::{opt_export_name_view, Id, IdView, ImportDecl, ImportDeclView, ImportSpecifier, ImportSpecifierView, ModuleExportName, ModuleExportNameView};
use crate::text::{push_str, replace_all, spec_replace, push_char, push_decimal, spec_decimal, spec_to_lowercase, str_eq, seq_starts_with, strip_prefix, to_lowercase, to_owned_string};

verus! {

pub enum ResolveErrorKind {
    ModuleNotFound,
    ShouldIgnore,
}

/// A package that could not be resolved.
pub struct ResolveError {
    pub msg: String,
    pub kind: ResolveErrorKind,
}

pub open spec fn resolve_error_text(msg: Seq<char>, kind: ResolveErrorKind) -> Seq<char> {
    "Error ["@ + msg + "]: "@ + match kind {
        ResolveErrorKind::ModuleNotFound => "Module not found"@,
        ResolveErrorKind::ShouldIgnore => "This module found but should be ignored"@,
    }
}

impl ResolveError {
    pub fn new(msg: String, kind: ResolveErrorKind) -> (r: ResolveError)
        ensures
            r.msg == msg,
            r.kind == kind,
    {
        ResolveError { msg, kind }
    }

    /// `Error [<msg>]: Module not found`, or `... should be ignored`.
    pub fn to_string(&self) -> (r: String)
        ensures
            r@ == resolve_error_text(self.msg@, self.kind),
    {
        let mut s = String::new();
        push_str(&mut s, "Error [");
        push_str(&mut s, self.msg.as_str());
        push_str(&mut s, "]: ");
        match self.kind {
            ResolveErrorKind::ModuleNotFound => push_str(&mut s, "Module not found"),
            ResolveErrorKind::ShouldIgnore => push_str(&mut s, "This module found but should be ignored"),
        }
        assert(s@ =~= resolve_error_text(self.msg@, self.kind));
        s
    }
}

/// The working directory that packages are resolved from, and packages to
/// treat like lodash besides the lodash packages themselves.
pub struct PluginLodashConfig {
    pub cwd: String,
    pub ids: Vec<String>,
}

impl Default for PluginLodashConfig {
    fn default() -> (r: PluginLodashConfig)
        ensures
            r.cwd@ == Seq::<char>::empty(),
            r.ids@.len() == 0,
    {
        PluginLodashConfig { cwd: String::new(), ids: Vec::new() }
    }
}

pub open spec fn strs_view(v: Seq<String>) -> Seq<Seq<char>> {
    v.map_values(|s: String| s@)
}

/// The packages to cherry-pick: `lodash`, `lodash-es`, then the configured
/// ones, each once, in order. The deprecated `lodash-compat` is not among
/// the built-in ones.
pub open spec fn spec_lodash_ids(ids: Seq<Seq<char>>, n: int) -> Seq<Seq<char>>
    decreases n,
{
    if n <= 0 {
        seq!["lodash"@, "lodash-es"@]
    } else {
        let prev = spec_lodash_ids(ids, n - 1);
        if prev.contains(ids[n - 1]) { prev } else { prev.push(ids[n - 1]) }
    }
}

fn contains_string(v: &Vec<String>, s: &str) -> (r: bool)
    ensures
        r == strs_view(v@).contains(s@),
{
    let mut k: usize = 0;
    while k < v.len()
        invariant
            k <= v@.len(),
            forall|j: int| 0 <= j < k ==> v@[j]@ != s@,
        decreases v@.len() - k,
    {
        if str_eq(v[k].as_str(), s) {
            assert(strs_view(v@)[k as int] == s@);
            return true;
        }
        k = k + 1;
    }
    assert forall|j: int| 0 <= j < strs_view(v@).len() implies strs_view(v@)[j] != s@ by {
        assert(strs_view(v@)[j] == v@[j]@);
    }
    false
}

/// The package ids, as the plugin lists them before resolving them.
pub fn lodash_ids(config: &PluginLodashConfig) -> (r: Vec<String>)
    ensures
        strs_view(r@) == spec_lodash_ids(strs_view(config.ids@), config.ids@.len() as int),
{
    let mut ids: Vec<String> = Vec::new();
    ids.push(to_owned_string("lodash"));
    ids.push(to_owned_string("lodash-es"));
    let ghost cv = strs_view(config.ids@);
    assert(strs_view(ids@) =~= spec_lodash_ids(cv, 0));
    let mut k: usize = 0;
    while k < config.ids.len()
        invariant
            k <= config.ids@.len(),
            cv == strs_view(config.ids@),
            strs_view(ids@) == spec_lodash_ids(cv, k as int),
        decreases config.ids@.len() - k,
    {
        let id = &config.ids[k];
        assert(cv[k as int] == id@);
        if !contains_string(&ids, id.as_str()) {
            let ghost before = ids@;
            ids.push(id.clone());
            assert(strs_view(ids@) =~= strs_view(before).push(id@));
        }
        k = k + 1;
    }
    ids
}

/// The key under which a package of the mappings is found by import
/// source: the id, or `<id>/<base>` for a sub-directory.
pub open spec fn spec_pkg_key(id: Seq<char>, base: Seq<char>) -> Seq<char> {
    if base.len() == 0 { id } else { id + seq!['/'] + base }
}

pub fn pkg_key(id: &str, base: &str) -> (r: String)
    ensures
        r@ == spec_pkg_key(id@, base@),
{
    let mut s = to_owned_string(id);
    if base.unicode_len() > 0 {
        push_char(&mut s, '/');
        push_str(&mut s, base);
    }
    assert(s@ =~= spec_pkg_key(id@, base@));
    s
}

/// The position of the last `/` among the first `n` characters of `p`.
pub open spec fn last_slash(p: Seq<char>, n: int) -> Option<int>
    decreases n,
{
    if n <= 0 {
        None
    } else if p[n - 1] == '/' {
        Some(n - 1)
    } else {
        last_slash(p, n - 1)
    }
}

/// The text before the last `/` of `p`, empty when there is none.
pub open spec fn spec_dir_part(p: Seq<char>) -> Seq<char> {
    match last_slash(p, p.len() as int) {
        Some(i) => p.take(i),
        None => Seq::empty(),
    }
}

/// A component of `p` starts at `i`.
pub open spec fn component_start(p: Seq<char>, i: int) -> bool {
    i == 0 || p[i - 1] == '/'
}

/// A relative path of plain components joined by `/`: no `\` or `:`, no
/// empty component (so no leading, trailing or doubled `/`), and no
/// component that is `.` or `..`.
pub open spec fn plain_relative_path(p: Seq<char>) -> bool {
    &&& p.len() > 0
    &&& p.last() != '/'
    &&& forall|i: int| 0 <= i < p.len() ==> #[trigger] p[i] != '\\' && p[i] != ':'
    &&& forall|i: int| 0 <= i < p.len() && #[trigger] component_start(p, i) ==> p[i] != '/' && (p[i] == '.' ==> (
        i + 1 < p.len() && p[i + 1] != '/' && !(p[i + 1] == '.' && (i + 2 == p.len() || p[i + 2] == '/'))))
}

/// std's `PathBuf::pop` on the path `p`, read back as a string: the path
/// without its final component (`Path::parent`). The result is always a
/// prefix of `p`; for a relative path of plain components joined by `/`
/// (which every platform splits at `/` alone) it is the text before the
/// last `/`, or empty when there is none. Of other paths, whose components
/// depend on the platform's separators and prefixes, only the prefix is
/// said.
#[verifier::external_body]
fn path_parent(p: &str) -> (r: String)
    ensures
        seq_starts_with(p@, r@),
        plain_relative_path(p@) ==> r@ == spec_dir_part(p@),
{
    let mut b = std::path::PathBuf::from(p);
    b.pop();
    b.to_string_lossy().to_string()
}

/// The `main` entry of a package.json, `index.js` by default, without
/// a leading `./`.
pub open spec fn spec_main_entry(main: Option<Seq<char>>) -> Seq<char> {
    let m = match main {
        Some(m) => m,
        None => "index.js"@,
    };
    if seq_starts_with(m, "./"@) { m.skip(2) } else { m }
}

/// A package whose modules are cherry-picked.
pub struct Package {
    /// The directory of the package's main entry; it is searched first.
    pub main_path: String,
    pub id: String,
    pub base: String,
    pub pkg_path: String,
}

impl Package {
    /// The package `source` with its sub-directory `base`, whose root is
    /// `pkg_path` and whose package.json gives `main`.
    pub fn new(main: Option<String>, source: &str, base: &str, pkg_path: String) -> (r: Package)
        ensures
            seq_starts_with(spec_main_entry(opt_str(main)), r.main_path@),
            plain_relative_path(spec_main_entry(opt_str(main))) ==> r.main_path@ == spec_dir_part(
                spec_main_entry(opt_str(main)),
            ),
            r.id@ == source@,
            r.base@ == base@,
            r.pkg_path == pkg_path,
    {
        let m = match main {
            Some(m) => m,
            None => to_owned_string("index.js"),
        };
        proof {
            reveal_strlit("./");
        }
        let m = match strip_prefix(m.as_str(), "./") {
            Some(rest) => rest,
            None => m,
        };
        let main_path = path_parent(m.as_str());
        Package { main_path, id: to_owned_string(source), base: to_owned_string(base), pkg_path }
    }
}

pub open spec fn opt_str(o: Option<String>) -> Option<Seq<char>> {
    match o {
        Some(s) => Some(s@),
        None => None,
    }
}

/// Lower-cased module names of a directory and their paths, relative to
/// the package root and without the `.js` extension.
pub struct Pairs {
    pub entries: Vec<(String, String)>,
}

/// The directories of a package, relative to its root, and their modules.
pub struct ModuleMap {
    pub dirs: Vec<(String, Pairs)>,
}

/// The module maps of the packages, by package id.
pub struct Mappings {
    pub modules: Vec<(String, ModuleMap)>,
}

/// The value of the first entry whose key is `k`.
pub open spec fn lookup<V>(s: Seq<(String, V)>, k: Seq<char>) -> Option<V>
    decreases s.len(),
{
    if s.len() == 0 {
        None
    } else if s[0].0@ == k {
        Some(s[0].1)
    } else {
        lookup(s.drop_first(), k)
    }
}

/// The path of module `name` in the first directory that has it, among
/// those that are (`main`) or are not (`!main`) the main directory.
pub open spec fn search_dirs(dirs: Seq<(String, Pairs)>, main_path: Seq<char>, name: Seq<char>, main: bool) -> Option<Seq<char>>
    decreases dirs.len(),
{
    if dirs.len() == 0 {
        None
    } else {
        let found = if (dirs[0].0@ == main_path) == main {
            match lookup(dirs[0].1.entries@, name) {
                Some(p) => Some(p@),
                None => None,
            }
        } else {
            None
        };
        match found {
            Some(p) => Some(p),
            None => search_dirs(dirs.drop_first(), main_path, name, main),
        }
    }
}

/// Where module `name` of the package is: in its `base` directory when it
/// has one, else in the main directory first and in the others next. Names
/// are compared lower-cased.
pub open spec fn spec_find_module(pkg: Package, mappings: Mappings, name: Seq<char>) -> Option<Seq<char>> {
    let lname = spec_to_lowercase(name);
    match lookup(mappings.modules@, pkg.id@) {
        None => None,
        Some(mm) => if pkg.base@.len() > 0 {
            match lookup(mm.dirs@, pkg.base@) {
                Some(pairs) => match lookup(pairs.entries@, lname) {
                    Some(p) => Some(p@),
                    None => None,
                },
                None => None,
            }
        } else {
            match search_dirs(mm.dirs@, pkg.main_path@, lname, true) {
                Some(p) => Some(p),
                None => search_dirs(mm.dirs@, pkg.main_path@, lname, false),
            }
        },
    }
}

fn lookup_pairs<'a>(s: &'a Vec<(String, String)>, k: &str) -> (r: Option<&'a String>)
    ensures
        match lookup(s@, k@) {
            Some(v) => r == Some(&v),
            None => r is None,
        },
{
    let mut i: usize = 0;
    assert(s@.skip(0) =~= s@);
    while i < s.len()
        invariant
            i <= s@.len(),
            lookup(s@, k@) == lookup(s@.skip(i as int), k@),
        decreases s@.len() - i,
    {
        assert(s@.skip(i as int).drop_first() =~= s@.skip(i + 1));
        if str_eq(s[i].0.as_str(), k) {
            return Some(&s[i].1);
        }
        i = i + 1;
    }
    None
}

fn lookup_dirs<'a>(s: &'a Vec<(String, Pairs)>, k: &str) -> (r: Option<&'a Pairs>)
    ensures
        match lookup(s@, k@) {
            Some(v) => r == Some(&v),
            None => r is None,
        },
{
    let mut i: usize = 0;
    assert(s@.skip(0) =~= s@);
    while i < s.len()
        invariant
            i <= s@.len(),
            lookup(s@, k@) == lookup(s@.skip(i as int), k@),
        decreases s@.len() - i,
    {
        assert(s@.skip(i as int).drop_first() =~= s@.skip(i + 1));
        if str_eq(s[i].0.as_str(), k) {
            return Some(&s[i].1);
        }
        i = i + 1;
    }
    None
}

fn lookup_modules<'a>(s: &'a Vec<(String, ModuleMap)>, k: &str) -> (r: Option<&'a ModuleMap>)
    ensures
        match lookup(s@, k@) {
            Some(v) => r == Some(&v),
            None => r is None,
        },
{
    let mut i: usize = 0;
    assert(s@.skip(0) =~= s@);
    while i < s.len()
        invariant
            i <= s@.len(),
            lookup(s@, k@) == lookup(s@.skip(i as int), k@),
        decreases s@.len() - i,
    {
        assert(s@.skip(i as int).drop_first() =~= s@.skip(i + 1));
        if str_eq(s[i].0.as_str(), k) {
            return Some(&s[i].1);
        }
        i = i + 1;
    }
    None
}

fn search_dirs_exec<'a>(dirs: &'a Vec<(String, Pairs)>, main_path: &str, name: &str, main: bool) -> (r: Option<&'a String>)
    ensures
        match search_dirs(dirs@, main_path@, name@, main) {
            Some(p) => r is Some && r.unwrap()@ == p,
            None => r is None,
        },
{
    let mut i: usize = 0;
    assert(dirs@.skip(0) =~= dirs@);
    while i < dirs.len()
        invariant
            i <= dirs@.len(),
            search_dirs(dirs@, main_path@, name@, main) == search_dirs(dirs@.skip(i as int), main_path@, name@, main),
        decreases dirs@.len() - i,
    {
        assert(dirs@.skip(i as int).drop_first() =~= dirs@.skip(i + 1));
        assert(dirs@.skip(i as int)[0] == dirs@[i as int]);
        if str_eq(dirs[i].0.as_str(), main_path) == main {
            match lookup_pairs(&dirs[i].1.entries, name) {
                Some(p) => return Some(p),
                None => {},
            }
        }
        i = i + 1;
    }
    None
}

impl Package {
    /// Where module `name` of this package is, by the mappings.
    pub fn find_module<'a>(&self, mappings: &'a Mappings, name: &str) -> (r: Option<&'a String>)
        ensures
            match spec_find_module(*self, *mappings, name@) {
                Some(p) => r is Some && r.unwrap()@ == p,
                None => r is None,
            },
    {
        let module_map = match lookup_modules(&mappings.modules, self.id.as_str()) {
            Some(m) => m,
            None => return None,
        };
        let lname = to_lowercase(name);
        if self.base.unicode_len() > 0 {
            match lookup_dirs(&module_map.dirs, self.base.as_str()) {
                Some(pairs) => lookup_pairs(&pairs.entries, lname.as_str()),
                None => None,
            }
        } else {
            match search_dirs_exec(&module_map.dirs, self.main_path.as_str(), lname.as_str(), true) {
                Some(p) => Some(p),
                None => search_dirs_exec(&module_map.dirs, self.main_path.as_str(), lname.as_str(), false),
            }
        }
    }
}


/// The property of a member expression.
pub enum MemberProp {
    Ident(String),
    Other(u64),
}

pub enum MemberPropView {
    Ident(Seq<char>),
    Other(u64),
}

impl View for MemberProp {
    type V = MemberPropView;

    open spec fn view(&self) -> MemberPropView {
        match self {
            MemberProp::Ident(s) => MemberPropView::Ident(s@),
            MemberProp::Other(h) => MemberPropView::Other(*h),
        }
    }
}

/// An expression, as far as the transform reads it.
pub enum LExpr {
    Ident(Id),
    Member { obj: Box<LExpr>, prop: MemberProp },
    Call { callee: Box<LExpr>, args: Vec<LExpr> },
    /// `void 0`.
    Undefined,
    /// Any other expression, with its sub-expressions in visiting order.
    Node { kind: u64, children: Vec<LExpr> },
}

pub enum LExprView {
    Ident(IdView),
    Member { obj: Box<LExprView>, prop: MemberPropView },
    Call { callee: Box<LExprView>, args: Seq<LExprView> },
    Undefined,
    Node { kind: u64, children: Seq<LExprView> },
}

pub open spec fn lexpr_view(e: LExpr) -> LExprView
    decreases e, 0nat,
{
    match e {
        LExpr::Ident(id) => LExprView::Ident(id@),
        LExpr::Member { obj, prop } => LExprView::Member { obj: Box::new(lexpr_view(*obj)), prop: prop@ },
        LExpr::Call { callee, args } => LExprView::Call { callee: Box::new(lexpr_view(*callee)), args: lexprs_view(args@, args@.len()) },
        LExpr::Undefined => LExprView::Undefined,
        LExpr::Node { kind, children } => LExprView::Node { kind, children: lexprs_view(children@, children@.len()) },
    }
}

/// The views of the first `n` expressions of `s`.
pub open spec fn lexprs_view(s: Seq<LExpr>, n: nat) -> Seq<LExprView>
    decreases s, n,
{
    if n == 0 || n > s.len() {
        Seq::empty()
    } else {
        lexprs_view(s, (n - 1) as nat).push(lexpr_view(s[n - 1]))
    }
}

impl View for LExpr {
    type V = LExprView;

    open spec fn view(&self) -> LExprView {
        lexpr_view(*self)
    }
}

proof fn lemma_lexprs_view(s: Seq<LExpr>, n: nat)
    requires
        n <= s.len(),
    ensures
        lexprs_view(s, n).len() == n,
        forall|i: int| 0 <= i < n ==> #[trigger] lexprs_view(s, n)[i] == lexpr_view(s[i]),
    decreases n,
{
    if n > 0 {
        lemma_lexprs_view(s, (n - 1) as nat);
    }
}

/// For `f(a)(b)`, the function `f` whose result is called again, looking
/// through the callee chain first.
pub open spec fn spec_detect_curried_fn(e: LExprView) -> Option<IdView>
    decreases e,
{
    match e {
        LExprView::Call { callee, .. } => match spec_detect_curried_fn(*callee) {
            Some(id) => Some(id),
            None => match *callee {
                LExprView::Call { callee: inner, .. } => match *inner {
                    LExprView::Ident(id) => Some(id),
                    _ => None,
                },
                _ => None,
            },
        },
        _ => None,
    }
}

pub fn detect_curried_fn(expr: &LExpr) -> (r: Option<Id>)
    ensures
        opt_id(r) == spec_detect_curried_fn(expr@),
    decreases expr,
{
    proof {
        reveal_with_fuel(lexpr_view, 3);
    }
    match expr {
        LExpr::Call { callee, .. } => {
            match detect_curried_fn(callee) {
                Some(id) => Some(id),
                None => match &**callee {
                    LExpr::Call { callee: inner, .. } => match &**inner {
                        LExpr::Ident(id) => Some(id.duplicate()),
                        _ => None,
                    },
                    _ => None,
                },
            }
        },
        _ => None,
    }
}

pub open spec fn opt_id(o: Option<Id>) -> Option<IdView> {
    match o {
        Some(x) => Some(x@),
        None => None,
    }
}

/// Why the transform cannot go on.
#[derive(Debug, Clone, Copy, PartialEq, Eq, Structural)]
pub enum LodashError {
    /// An import source that the package table does not hold.
    PackageNotFound,
    /// A name that no module of the package provides.
    ModuleNotFound,
    /// `export { 'a' } from 'lodash'`: a string export name.
    StringExportName,
    /// A package binding used where it would be replaced by its own
    /// placeholder (`_()(_)`), which never ends.
    RecursivePlaceholder,
}

/// The default import of `local` from `src`.
pub open spec fn default_import(src: Seq<char>, local: IdView) -> ImportDeclView {
    ImportDeclView { src, specifiers: seq![ImportSpecifierView::Default(local)], type_only: false }
}

/// The last binding recorded for `id`.
pub open spec fn ns_lookup(ns: Seq<(IdView, Seq<char>)>, id: IdView) -> Option<Seq<char>>
    decreases ns.len(),
{
    if ns.len() == 0 {
        None
    } else if ns.last().0 == id {
        Some(ns.last().1)
    } else {
        ns_lookup(ns.drop_last(), id)
    }
}

/// The first import recorded for a (source, local name, imported name) key.
pub open spec fn names_lookup(names: Seq<((Seq<char>, Seq<char>, Seq<char>), IdView)>, key: (Seq<char>, Seq<char>, Seq<char>)) -> Option<IdView>
    decreases names.len(),
{
    if names.len() == 0 {
        None
    } else if names[0].0 == key {
        Some(names[0].1)
    } else {
        names_lookup(names.drop_first(), key)
    }
}

pub open spec fn set_insert(s: Seq<IdView>, x: IdView) -> Seq<IdView> {
    if s.contains(x) { s } else { s.push(x) }
}

/// The package tables and the top-level context.
pub struct LodashEnv {
    pub pkg_map: Seq<(String, Package)>,
    pub mappings: Mappings,
    pub top_level_ctxt: u32,
}

/// What the transform accumulates over a module.
pub struct LodashStateView {
    pub imported_names: Seq<((Seq<char>, Seq<char>, Seq<char>), IdView)>,
    pub namespace_map: Seq<(IdView, Seq<char>)>,
    pub imports: Seq<ImportDeclView>,
    pub exports: Seq<IdView>,
    pub lodash_vars: Seq<IdView>,
}

pub struct PluginLodash {
    pub cwd: String,
    /// The packages, by import source.
    pub pkg_map: Vec<(String, Package)>,
    pub mappings: Mappings,
    /// The syntax context of the module's top level.
    pub top_level_ctxt: u32,
    /// Imports added so far: source, local name, imported name, binding.
    pub imported_names: Vec<(String, String, String, Id)>,
    /// Bindings of whole packages (`import _ from 'lodash'`), last one wins.
    pub namespace_map: Vec<(Id, String)>,
    pub imports: Vec<ImportDecl>,
    pub exports: Vec<Id>,
    /// Bindings imported from the packages.
    pub lodash_vars: Vec<Id>,
}

pub open spec fn names_view(v: Seq<(String, String, String, Id)>) -> Seq<((Seq<char>, Seq<char>, Seq<char>), IdView)> {
    v.map_values(|x: (String, String, String, Id)| ((x.0@, x.1@, x.2@), x.3@))
}

pub open spec fn ns_view(v: Seq<(Id, String)>) -> Seq<(IdView, Seq<char>)> {
    v.map_values(|x: (Id, String)| (x.0@, x.1@))
}

pub open spec fn ids_view(v: Seq<Id>) -> Seq<IdView> {
    v.map_values(|x: Id| x@)
}

pub open spec fn decls_view(v: Seq<ImportDecl>) -> Seq<ImportDeclView> {
    v.map_values(|x: ImportDecl| x@)
}

impl PluginLodash {
    pub open spec fn state(&self) -> LodashStateView {
        LodashStateView {
            imported_names: names_view(self.imported_names@),
            namespace_map: ns_view(self.namespace_map@),
            imports: decls_view(self.imports@),
            exports: ids_view(self.exports@),
            lodash_vars: ids_view(self.lodash_vars@),
        }
    }

    /// The tables that the transform reads and never changes.
    pub open spec fn env(&self) -> LodashEnv {
        LodashEnv { pkg_map: self.pkg_map@, mappings: self.mappings, top_level_ctxt: self.top_level_ctxt }
    }

    pub open spec fn same_env(&self, other: &PluginLodash) -> bool {
        &&& self.cwd == other.cwd
        &&& self.env() == other.env()
    }
}

/// Adds (once per key) the default import of the module that provides the
/// imported name, and gives its binding.
pub open spec fn spec_add_import(
    env: LodashEnv,
    st: LodashStateView,
    source: Seq<char>,
    local: IdView,
    imported: Option<IdView>,
) -> Result<(LodashStateView, IdView), LodashError> {
    let iname = match imported {
        Some(i) => i.sym,
        None => local.sym,
    };
    match names_lookup(st.imported_names, (source, local.sym, iname)) {
        Some(id) => Ok((st, id)),
        None => match lookup(env.pkg_map, source) {
            None => Err(LodashError::PackageNotFound),
            Some(pkg) => match spec_find_module(pkg, env.mappings, iname) {
                None => Err(LodashError::ModuleNotFound),
                Some(path) => Ok((
                    LodashStateView {
                        imported_names: st.imported_names.push(((source, local.sym, iname), local)),
                        imports: st.imports.push(default_import(pkg.id@ + seq!['/'] + path, local)),
                        lodash_vars: set_insert(st.lodash_vars, local),
                        ..st
                    },
                    local,
                )),
            },
        },
    }
}

fn lookup_pkg<'a>(s: &'a Vec<(String, Package)>, k: &str) -> (r: Option<&'a Package>)
    ensures
        match lookup(s@, k@) {
            Some(v) => r == Some(&v),
            None => r is None,
        },
{
    let mut i: usize = 0;
    assert(s@.skip(0) =~= s@);
    while i < s.len()
        invariant
            i <= s@.len(),
            lookup(s@, k@) == lookup(s@.skip(i as int), k@),
        decreases s@.len() - i,
    {
        assert(s@.skip(i as int).drop_first() =~= s@.skip(i + 1));
        if str_eq(s[i].0.as_str(), k) {
            return Some(&s[i].1);
        }
        i = i + 1;
    }
    None
}

fn lookup_name(names: &Vec<(String, String, String, Id)>, source: &str, local: &str, imported: &str) -> (r: Option<Id>)
    ensures
        opt_id(r) == names_lookup(names_view(names@), (source@, local@, imported@)),
{
    let ghost nv = names_view(names@);
    let mut i: usize = 0;
    assert(nv.skip(0) =~= nv);
    while i < names.len()
        invariant
            nv == names_view(names@),
            i <= names@.len(),
            names_lookup(nv, (source@, local@, imported@)) == names_lookup(nv.skip(i as int), (source@, local@, imported@)),
        decreases names@.len() - i,
    {
        assert(nv.skip(i as int).drop_first() =~= nv.skip(i + 1));
        assert(nv.skip(i as int)[0] == nv[i as int]);
        let e = &names[i];
        if str_eq(e.0.as_str(), source) && str_eq(e.1.as_str(), local) && str_eq(e.2.as_str(), imported) {
            return Some(e.3.duplicate());
        }
        i = i + 1;
    }
    None
}

fn lookup_namespace(ns: &Vec<(Id, String)>, id: &Id) -> (r: Option<String>)
    ensures
        opt_str(r) == ns_lookup(ns_view(ns@), id@),
{
    let ghost nv = ns_view(ns@);
    let mut i: usize = ns.len();
    assert(nv.take(nv.len() as int) =~= nv);
    while i > 0
        invariant
            nv == ns_view(ns@),
            i <= ns@.len(),
            ns_lookup(nv, id@) == ns_lookup(nv.take(i as int), id@),
        decreases i,
    {
        assert(nv.take(i as int).drop_last() =~= nv.take(i - 1));
        assert(nv.take(i as int).last() == nv[i - 1]);
        if ns[i - 1].0.same(id) {
            return Some(ns[i - 1].1.clone());
        }
        i = i - 1;
    }
    None
}

fn contains_var(vars: &Vec<Id>, id: &Id) -> (r: bool)
    ensures
        r == ids_view(vars@).contains(id@),
{
    let mut k: usize = 0;
    while k < vars.len()
        invariant
            k <= vars@.len(),
            forall|j: int| 0 <= j < k ==> vars@[j]@ != id@,
        decreases vars@.len() - k,
    {
        if vars[k].same(id) {
            assert(ids_view(vars@)[k as int] == id@);
            return true;
        }
        k = k + 1;
    }
    assert forall|j: int| 0 <= j < ids_view(vars@).len() implies ids_view(vars@)[j] != id@ by {
        assert(ids_view(vars@)[j] == vars@[j]@);
    }
    false
}

fn join_path(id: &str, path: &str) -> (r: String)
    ensures
        r@ == id@ + seq!['/'] + path@,
{
    let mut s = to_owned_string(id);
    push_char(&mut s, '/');
    push_str(&mut s, path);
    s
}

impl PluginLodash {
    /// The transform with the package tables built by the caller.
    pub fn new(cwd: String, top_level_ctxt: u32, mappings: Mappings, pkg_map: Vec<(String, Package)>) -> (r: PluginLodash)
        ensures
            r.cwd == cwd,
            r.top_level_ctxt == top_level_ctxt,
            r.mappings == mappings,
            r.pkg_map == pkg_map,
            r.state() == (LodashStateView {
                imported_names: Seq::empty(),
                namespace_map: Seq::empty(),
                imports: Seq::empty(),
                exports: Seq::empty(),
                lodash_vars: Seq::empty(),
            }),
    {
        let r = PluginLodash {
            cwd,
            pkg_map,
            mappings,
            top_level_ctxt,
            imported_names: Vec::new(),
            namespace_map: Vec::new(),
            imports: Vec::new(),
            exports: Vec::new(),
            lodash_vars: Vec::new(),
        };
        assert(r.state().imported_names =~= Seq::empty());
        assert(r.state().namespace_map =~= Seq::empty());
        assert(r.state().imports =~= Seq::empty());
        assert(r.state().exports =~= Seq::empty());
        assert(r.state().lodash_vars =~= Seq::empty());
        r
    }

    /// Whether the import source is one of the packages.
    pub fn has_package(&self, source: &str) -> (r: bool)
        ensures
            r == (lookup(self.pkg_map@, source@) is Some),
    {
        lookup_pkg(&self.pkg_map, source).is_some()
    }

    /// Imports the module that provides `imported` (or `local`'s own name)
    /// under the binding `local`, once per key, and gives the binding.
    fn add_import(&mut self, source: &str, local: Id, imported: Option<Id>) -> (r: Result<Id, LodashError>)
        ensures
            final(self).same_env(old(self)),
            match spec_add_import(old(self).env(), old(self).state(), source@, local@, opt_id(imported)) {
                Ok((st, id)) => r matches Ok(x) && x@ == id && final(self).state() == st,
                Err(e) => r == Err::<Id, LodashError>(e),
            },
    {
        let iname: String = match &imported {
            Some(i) => i.sym.clone(),
            None => local.sym.clone(),
        };
        match lookup_name(&self.imported_names, source, local.sym.as_str(), iname.as_str()) {
            Some(id) => return Ok(id),
            None => {},
        }
        let pkg = match lookup_pkg(&self.pkg_map, source) {
            Some(p) => p,
            None => return Err(LodashError::PackageNotFound),
        };
        let import_path = match pkg.find_module(&self.mappings, iname.as_str()) {
            Some(p) => p,
            None => return Err(LodashError::ModuleNotFound),
        };
        let new_source = join_path(pkg.id.as_str(), import_path.as_str());
        let ghost st0 = self.state();
        let ghost ln = self.imported_names@;
        self.imported_names.push((to_owned_string(source), local.sym.clone(), iname, local.duplicate()));
        assert(names_view(self.imported_names@) =~= names_view(ln).push(((source@, local@.sym, iname@), local@)));
        let mut specifiers: Vec<ImportSpecifier> = Vec::new();
        specifiers.push(ImportSpecifier::Default(local.duplicate()));
        let decl = ImportDecl { src: new_source, specifiers, type_only: false };
        assert(decl@.specifiers =~= seq![ImportSpecifierView::Default(local@)]);
        let ghost li = self.imports@;
        self.imports.push(decl);
        assert(decls_view(self.imports@) =~= decls_view(li).push(decl@));
        if !contains_var(&self.lodash_vars, &local) {
            let ghost lv = self.lodash_vars@;
            self.lodash_vars.push(local.duplicate());
            assert(ids_view(self.lodash_vars@) =~= ids_view(lv).push(local@));
        }
        Ok(local)
    }
}


pub open spec fn imported_to_id(imported: Option<ModuleExportNameView>) -> Option<IdView> {
    match imported {
        Some(ModuleExportNameView::Ident(id)) => Some(id),
        _ => None,
    }
}

/// One specifier of an import from a package: `default` and whole-package
/// bindings are recorded as namespaces, the others are cherry-picked.
pub open spec fn import_spec(env: LodashEnv, st: LodashStateView, src: Seq<char>, s: ImportSpecifierView) -> Result<LodashStateView, LodashError> {
    match s {
        ImportSpecifierView::Named { local, imported, .. } => {
            let default_id = match imported {
                Some(ModuleExportNameView::Ident(id)) => if id.sym == "default"@ { Some(id) } else { None },
                _ => None,
            };
            match default_id {
                Some(id) => Ok(LodashStateView { namespace_map: st.namespace_map.push((id, src)), ..st }),
                None => match spec_add_import(env, st, src, local, imported_to_id(imported)) {
                    Ok((st1, _)) => Ok(st1),
                    Err(e) => Err(e),
                },
            }
        },
        ImportSpecifierView::Default(local) => Ok(LodashStateView { namespace_map: st.namespace_map.push((local, src)), ..st }),
        ImportSpecifierView::Namespace(local) => Ok(LodashStateView { namespace_map: st.namespace_map.push((local, src)), ..st }),
    }
}

/// The first `n` specifiers, in order; the first failure stops.
pub open spec fn import_specs(env: LodashEnv, st: LodashStateView, src: Seq<char>, specs: Seq<ImportSpecifierView>, n: int) -> Result<LodashStateView, LodashError>
    decreases n,
{
    if n <= 0 {
        Ok(st)
    } else {
        match import_specs(env, st, src, specs, n - 1) {
            Ok(st1) => import_spec(env, st1, src, specs[n - 1]),
            Err(e) => Err(e),
        }
    }
}

pub open spec fn spec_visit_import(env: LodashEnv, st: LodashStateView, d: ImportDeclView) -> Result<LodashStateView, LodashError> {
    if lookup(env.pkg_map, d.src) is Some {
        import_specs(env, st, d.src, d.specifiers, d.specifiers.len() as int)
    } else {
        Ok(st)
    }
}

proof fn lemma_import_specs_err(env: LodashEnv, st: LodashStateView, src: Seq<char>, specs: Seq<ImportSpecifierView>, k: int, n: int)
    requires
        0 <= k <= n,
        import_specs(env, st, src, specs, k) is Err,
    ensures
        import_specs(env, st, src, specs, n) == import_specs(env, st, src, specs, k),
    decreases n - k,
{
    if n > k {
        lemma_import_specs_err(env, st, src, specs, k, n - 1);
    }
}

/// `export { orig as exported }`.
pub enum ExportSpecifier {
    Named { orig: ModuleExportName, exported: Option<ModuleExportName> },
    Other(u64),
}

pub enum ExportSpecifierView {
    Named { orig: ModuleExportNameView, exported: Option<ModuleExportNameView> },
    Other(u64),
}

impl View for ExportSpecifier {
    type V = ExportSpecifierView;

    open spec fn view(&self) -> ExportSpecifierView {
        match self {
            ExportSpecifier::Named { orig, exported } => ExportSpecifierView::Named {
                orig: orig@,
                exported: match exported {
                    Some(e) => Some(e@),
                    None => None,
                },
            },
            ExportSpecifier::Other(h) => ExportSpecifierView::Other(*h),
        }
    }
}

pub open spec fn export_specs_view(v: Seq<ExportSpecifier>) -> Seq<ExportSpecifierView> {
    v.map_values(|x: ExportSpecifier| x@)
}

/// One specifier of `export { .. } from '<package>'`: the binding is
/// cherry-picked and exported.
pub open spec fn export_spec(env: LodashEnv, st: LodashStateView, src: Seq<char>, s: ExportSpecifierView) -> Result<LodashStateView, LodashError> {
    match s {
        ExportSpecifierView::Named { orig, exported } => {
            let (local, imported) = match exported {
                Some(e) => (e, Some(orig)),
                None => (orig, None),
            };
            match local {
                ModuleExportNameView::Str(_) => Err(LodashError::StringExportName),
                ModuleExportNameView::Ident(l) => match imported {
                    Some(ModuleExportNameView::Str(_)) => Err(LodashError::StringExportName),
                    _ => match spec_add_import(env, st, src, l, imported_to_id(imported)) {
                        Ok((st1, id)) => Ok(LodashStateView { exports: st1.exports.push(id), ..st1 }),
                        Err(e) => Err(e),
                    },
                },
            }
        },
        ExportSpecifierView::Other(_) => Ok(st),
    }
}

pub open spec fn export_specs(env: LodashEnv, st: LodashStateView, src: Seq<char>, specs: Seq<ExportSpecifierView>, n: int) -> Result<LodashStateView, LodashError>
    decreases n,
{
    if n <= 0 {
        Ok(st)
    } else {
        match export_specs(env, st, src, specs, n - 1) {
            Ok(st1) => export_spec(env, st1, src, specs[n - 1]),
            Err(e) => Err(e),
        }
    }
}

pub open spec fn spec_visit_export(env: LodashEnv, st: LodashStateView, specs: Seq<ExportSpecifierView>, src: Option<Seq<char>>) -> Result<LodashStateView, LodashError> {
    match src {
        Some(s) => if lookup(env.pkg_map, s) is Some {
            export_specs(env, st, s, specs, specs.len() as int)
        } else {
            Ok(st)
        },
        None => Ok(st),
    }
}

proof fn lemma_export_specs_err(env: LodashEnv, st: LodashStateView, src: Seq<char>, specs: Seq<ExportSpecifierView>, k: int, n: int)
    requires
        0 <= k <= n,
        export_specs(env, st, src, specs, k) is Err,
    ensures
        export_specs(env, st, src, specs, n) == export_specs(env, st, src, specs, k),
    decreases n - k,
{
    if n > k {
        lemma_export_specs_err(env, st, src, specs, k, n - 1);
    }
}

fn export_name_ident(n: &ModuleExportName) -> (r: Option<Id>)
    ensures
        match n@ {
            ModuleExportNameView::Ident(id) => r is Some && r.unwrap()@ == id,
            ModuleExportNameView::Str(_) => r is None,
        },
{
    match n {
        ModuleExportName::Ident(id) => Some(id.duplicate()),
        ModuleExportName::Str(_) => None,
    }
}

impl PluginLodash {
    fn push_namespace(&mut self, id: Id, src: &str)
        ensures
            final(self).same_env(old(self)),
            final(self).state() == (LodashStateView { namespace_map: old(self).state().namespace_map.push((id@, src@)), ..old(self).state() }),
    {
        let ghost before = self.namespace_map@;
        self.namespace_map.push((id, to_owned_string(src)));
        assert(ns_view(self.namespace_map@) =~= ns_view(before).push((id@, src@)));
    }

    /// An import from one of the packages: whole-package bindings are
    /// recorded, named ones are cherry-picked.
    pub fn visit_mut_import_decl(&mut self, import_decl: &ImportDecl) -> (r: Result<(), LodashError>)
        ensures
            final(self).same_env(old(self)),
            match spec_visit_import(old(self).env(), old(self).state(), import_decl@) {
                Ok(st) => r is Ok && final(self).state() == st,
                Err(e) => r == Err::<(), LodashError>(e),
            },
    {
        let src = import_decl.src.as_str();
        if !self.has_package(src) {
            return Ok(());
        }
        let ghost p0 = old(self).env();
        let ghost st0 = self.state();
        let ghost specs = import_decl@.specifiers;
        let n = import_decl.specifiers.len();
        let mut k: usize = 0;
        while k < n
            invariant
                n == specs.len(),
                specs == import_decl@.specifiers,
                src@ == import_decl@.src,
                k <= n,
                self.env() == p0,
                self.cwd == old(self).cwd,
                p0 == old(self).env(),
                st0 == old(self).state(),
                lookup(p0.pkg_map, src@) is Some,
                import_specs(p0, st0, src@, specs, k as int) == Ok::<LodashStateView, LodashError>(self.state()),
            decreases n - k,
        {
            let ghost stk = self.state();
            match &import_decl.specifiers[k] {
                ImportSpecifier::Named(named) => {
                    let is_default = match &named.imported {
                        Some(ModuleExportName::Ident(id)) => str_eq(id.sym.as_str(), "default"),
                        _ => false,
                    };
                    if is_default {
                        let id = match &named.imported {
                            Some(ModuleExportName::Ident(id)) => id.duplicate(),
                            _ => named.local.duplicate(),
                        };
                        self.push_namespace(id, src);
                    } else {
                        let imported = match &named.imported {
                            Some(ModuleExportName::Ident(id)) => Some(id.duplicate()),
                            _ => None,
                        };
                        let ghost pre = self.env();
                        let res = self.add_import(src, named.local.duplicate(), imported);
                        assert(spec_add_import(pre, stk, src@, named.local@, imported_to_id(opt_export_name_view(named.imported)))
                            == spec_add_import(p0, stk, src@, named.local@, imported_to_id(opt_export_name_view(named.imported))));
                        match res {
                            Ok(_) => {},
                            Err(e) => {
                                assert(import_specs(p0, st0, src@, specs, k + 1) == Err::<LodashStateView, LodashError>(e));
                                proof {
                                    lemma_import_specs_err(p0, st0, src@, specs, k + 1, n as int);
                                }
                                return Err(e);
                            },
                        }
                    }
                },
                ImportSpecifier::Default(local) => {
                    self.push_namespace(local.duplicate(), src);
                },
                ImportSpecifier::Namespace(local) => {
                    self.push_namespace(local.duplicate(), src);
                },
            }
            k = k + 1;
        }
        Ok(())
    }

    /// `export { map } from 'lodash'`: the bindings are cherry-picked and
    /// exported.
    pub fn visit_mut_named_export(&mut self, specifiers: &Vec<ExportSpecifier>, src: &Option<String>) -> (r: Result<(), LodashError>)
        ensures
            final(self).same_env(old(self)),
            match spec_visit_export(old(self).env(), old(self).state(), export_specs_view(specifiers@), opt_str(*src)) {
                Ok(st) => r is Ok && final(self).state() == st,
                Err(e) => r == Err::<(), LodashError>(e),
            },
    {
        let source = match src {
            Some(s) => s.as_str(),
            None => return Ok(()),
        };
        if !self.has_package(source) {
            return Ok(());
        }
        let ghost p0 = old(self).env();
        let ghost st0 = self.state();
        let ghost specs = export_specs_view(specifiers@);
        let n = specifiers.len();
        let mut k: usize = 0;
        while k < n
            invariant
                n == specs.len(),
                specs == export_specs_view(specifiers@),
                k <= n,
                self.env() == p0,
                self.cwd == old(self).cwd,
                p0 == old(self).env(),
                st0 == old(self).state(),
                lookup(p0.pkg_map, source@) is Some,
                opt_str(*src) == Some(source@),
                export_specs(p0, st0, source@, specs, k as int) == Ok::<LodashStateView, LodashError>(self.state()),
            decreases n - k,
        {
            assert(specs[k as int] == specifiers@[k as int]@);
            match &specifiers[k] {
                ExportSpecifier::Named { orig, exported } => {
                    let (local, imported) = match exported {
                        Some(e) => (e, Some(orig)),
                        None => (orig, None),
                    };
                    let l = export_name_ident(local);
                    let i = match imported {
                        Some(n) => match export_name_ident(n) {
                            Some(id) => Some(Some(id)),
                            None => None,
                        },
                        None => Some(None),
                    };
                    if l.is_none() || i.is_none() {
                        proof {
                            lemma_export_specs_err(p0, st0, source@, specs, k + 1, n as int);
                        }
                        return Err(LodashError::StringExportName);
                    }
                    let l = l.unwrap();
                    let i = i.unwrap();
                    match self.add_import(source, l, i) {
                        Ok(id) => {
                            let ghost before = self.exports@;
                            self.exports.push(id);
                            assert(ids_view(self.exports@) =~= ids_view(before).push(id@));
                        },
                        Err(e) => {
                            proof {
                                lemma_export_specs_err(p0, st0, source@, specs, k + 1, n as int);
                            }
                            return Err(e);
                        },
                    }
                },
                ExportSpecifier::Other(_) => {},
            }
            k = k + 1;
        }
        Ok(())
    }
}


/// The binding for `_.<prop>` when the `imported_names` table has `n`
/// entries.
pub open spec fn local_name(prop: Seq<char>, n: nat) -> Seq<char> {
    prop + seq!['#'] + spec_decimal(n)
}

/// `ns.prop` where `ns` binds a whole package and `prop` is a name: the
/// package source and the name.
pub open spec fn member_target(env: LodashEnv, st: LodashStateView, obj: LExprView, prop: MemberPropView) -> Option<(Seq<char>, Seq<char>)> {
    match obj {
        LExprView::Ident(id) => match prop {
            MemberPropView::Ident(ps) => match ns_lookup(st.namespace_map, id) {
                Some(src) => if lookup(env.pkg_map, src) is Some { Some((src, ps)) } else { None },
                None => None,
            },
            MemberPropView::Other(_) => None,
        },
        _ => None,
    }
}

/// The expression after the first pass: `_.map` becomes the binding of a
/// cherry-picked `map`, and the sub-expressions of what is not replaced are
/// visited in order.
pub open spec fn spec_main_expr(env: LodashEnv, st: LodashStateView, e: LExprView) -> Result<(LodashStateView, LExprView), LodashError>
    decreases e, 0nat,
{
    match e {
        LExprView::Member { obj, prop } => match member_target(env, st, *obj, prop) {
            Some((src, ps)) => match spec_add_import(
                env,
                st,
                src,
                IdView { sym: local_name(ps, st.imported_names.len()), ctxt: env.top_level_ctxt },
                Some(IdView { sym: ps, ctxt: 0 }),
            ) {
                Ok((st1, l)) => Ok((st1, LExprView::Ident(l))),
                Err(x) => Err(x),
            },
            None => match spec_main_expr(env, st, *obj) {
                Ok((st1, o)) => Ok((st1, LExprView::Member { obj: Box::new(o), prop })),
                Err(x) => Err(x),
            },
        },
        LExprView::Call { callee, args } => match spec_main_expr(env, st, *callee) {
            Ok((st1, c)) => match spec_main_exprs(env, st1, args, args.len()) {
                Ok((st2, a)) => Ok((st2, LExprView::Call { callee: Box::new(c), args: a })),
                Err(x) => Err(x),
            },
            Err(x) => Err(x),
        },
        LExprView::Node { kind, children } => match spec_main_exprs(env, st, children, children.len()) {
            Ok((st1, c)) => Ok((st1, LExprView::Node { kind, children: c })),
            Err(x) => Err(x),
        },
        _ => Ok((st, e)),
    }
}

/// The first `n` expressions, in order.
pub open spec fn spec_main_exprs(env: LodashEnv, st: LodashStateView, s: Seq<LExprView>, n: nat) -> Result<(LodashStateView, Seq<LExprView>), LodashError>
    decreases s, n,
{
    if n == 0 || n > s.len() {
        Ok((st, Seq::empty()))
    } else {
        match spec_main_exprs(env, st, s, (n - 1) as nat) {
            Ok((st1, prev)) => match spec_main_expr(env, st1, s[n - 1]) {
                Ok((st2, x)) => Ok((st2, prev.push(x))),
                Err(e) => Err(e),
            },
            Err(e) => Err(e),
        }
    }
}

proof fn lemma_main_exprs_err(env: LodashEnv, st: LodashStateView, s: Seq<LExprView>, k: nat, n: nat)
    requires
        k <= n <= s.len(),
        spec_main_exprs(env, st, s, k) is Err,
    ensures
        spec_main_exprs(env, st, s, n) == spec_main_exprs(env, st, s, k),
    decreases n - k,
{
    if n > k {
        lemma_main_exprs_err(env, st, s, k, (n - 1) as nat);
    }
}

proof fn lemma_lexprs_view_push(s: Seq<LExpr>, x: LExpr)
    ensures
        lexprs_view(s.push(x), s.len() + 1) == lexprs_view(s, s.len()).push(lexpr_view(x)),
{
    lemma_lexprs_view(s, s.len());
    lemma_lexprs_view(s.push(x), s.len() + 1);
    assert(lexprs_view(s.push(x), s.len() + 1) =~= lexprs_view(s, s.len()).push(lexpr_view(x)));
}

impl PluginLodash {
    fn main_exprs(&mut self, v: Vec<LExpr>) -> (r: Result<Vec<LExpr>, LodashError>)
        ensures
            final(self).same_env(old(self)),
            match spec_main_exprs(old(self).env(), old(self).state(), lexprs_view(v@, v@.len()), v@.len()) {
                Ok((st, xs)) => r matches Ok(w) && lexprs_view(w@, w@.len()) == xs && final(self).state() == st,
                Err(e) => r == Err::<Vec<LExpr>, LodashError>(e),
            },
        decreases v, 0nat,
    {
        let ghost vv = v;
        let ghost orig = v@;
        let ghost sv = lexprs_view(orig, orig.len());
        let ghost env0 = self.env();
        let ghost st0 = self.state();
        proof {
            lemma_lexprs_view(orig, orig.len());
        }
        let n = v.len();
        let mut rest = crate::ast::reversed(v);
        let mut out: Vec<LExpr> = Vec::new();
        let mut k: usize = 0;
        assert(lexprs_view(out@, 0) =~= Seq::<LExprView>::empty());
        while k < n
            invariant
                n == orig.len(),
                orig == vv@,
                sv == lexprs_view(orig, orig.len()),
                sv.len() == n,
                forall|i: int| 0 <= i < n ==> #[trigger] sv[i] == lexpr_view(orig[i]),
                k <= n,
                rest@ == Seq::new((n - k) as nat, |t: int| orig[n - 1 - t]),
                out@.len() == k,
                env0 == old(self).env(),
                st0 == old(self).state(),
                vv == v,
                self.env() == env0,
                self.cwd == old(self).cwd,
                spec_main_exprs(env0, st0, sv, k as nat) == Ok::<(LodashStateView, Seq<LExprView>), LodashError>((self.state(), lexprs_view(out@, out@.len()))),
            decreases n - k,
        {
            let x = rest.pop().unwrap();
            assert(x == orig[k as int]);
            assert(rest@ =~= Seq::new((n - k - 1) as nat, |t: int| orig[n - 1 - t]));
            proof {
                assert(decreases_to!(vv => vv[k as int]));
            }
            match self.main_expr(x) {
                Ok(y) => {
                    proof {
                        lemma_lexprs_view_push(out@, y);
                    }
                    out.push(y);
                },
                Err(e) => {
                    proof {
                        lemma_main_exprs_err(env0, st0, sv, (k + 1) as nat, n as nat);
                    }
                    return Err(e);
                },
            }
            k = k + 1;
        }
        Ok(out)
    }

    /// The first pass on an expression: `ns.name` with `ns` bound to a
    /// whole package becomes the binding of a cherry-picked `name`.
    pub fn main_expr(&mut self, e: LExpr) -> (r: Result<LExpr, LodashError>)
        ensures
            final(self).same_env(old(self)),
            match spec_main_expr(old(self).env(), old(self).state(), e@) {
                Ok((st, x)) => r matches Ok(y) && y@ == x && final(self).state() == st,
                Err(err) => r == Err::<LExpr, LodashError>(err),
            },
        decreases e, 1nat,
    {
        proof {
            reveal_with_fuel(lexpr_view, 2);
        }
        match e {
            LExpr::Member { obj, prop } => {
                let target: Option<(String, String)> = match &*obj {
                    LExpr::Ident(id) => match &prop {
                        MemberProp::Ident(ps) => match lookup_namespace(&self.namespace_map, id) {
                            Some(src) => if self.has_package(src.as_str()) { Some((src, ps.clone())) } else { None },
                            None => None,
                        },
                        MemberProp::Other(_) => None,
                    },
                    _ => None,
                };
                assert(member_target(self.env(), self.state(), lexpr_view(*obj), prop@) == match target {
                    Some((a, b)) => Some((a@, b@)),
                    None => None::<(Seq<char>, Seq<char>)>,
                });
                match target {
                    Some((src, ps)) => {
                        let mut name = ps.clone();
                        push_char(&mut name, '#');
                        push_decimal(&mut name, self.imported_names.len());
                        assert(name@ == local_name(ps@, self.state().imported_names.len()));
                        let local = Id { sym: name, ctxt: self.top_level_ctxt };
                        let imported = Id { sym: ps, ctxt: 0 };
                        match self.add_import(src.as_str(), local, Some(imported)) {
                            Ok(l) => Ok(LExpr::Ident(l)),
                            Err(x) => Err(x),
                        }
                    },
                    None => {
                        match self.main_expr(*obj) {
                            Ok(o) => Ok(LExpr::Member { obj: Box::new(o), prop }),
                            Err(x) => Err(x),
                        }
                    },
                }
            },
            LExpr::Call { callee, args } => {
                proof {
                    assert(decreases_to!(e => e->args));
                    lemma_lexprs_view(args@, args@.len());
                }
                let c = match self.main_expr(*callee) {
                    Ok(c) => c,
                    Err(x) => return Err(x),
                };
                match self.main_exprs(args) {
                    Ok(a) => Ok(LExpr::Call { callee: Box::new(c), args: a }),
                    Err(x) => Err(x),
                }
            },
            LExpr::Node { kind, children } => {
                proof {
                    assert(decreases_to!(e => e->children));
                    lemma_lexprs_view(children@, children@.len());
                }
                match self.main_exprs(children) {
                    Ok(c) => Ok(LExpr::Node { kind, children: c }),
                    Err(x) => Err(x),
                }
            },
            LExpr::Ident(id) => Ok(LExpr::Ident(id)),
            LExpr::Undefined => Ok(LExpr::Undefined),
        }
    }
}


pub open spec fn ns_has(ns: Seq<(IdView, Seq<char>)>, id: IdView) -> bool {
    ns_lookup(ns, id) is Some
}

/// `<c>.placeholder`.
pub open spec fn placeholder(c: IdView) -> LExprView {
    LExprView::Member { obj: Box::new(LExprView::Ident(c)), prop: MemberPropView::Ident("placeholder"@) }
}

/// The expression after the last pass: a package binding becomes `void 0`,
/// or the placeholder of the lodash function that is being called with it.
pub open spec fn spec_post_expr(ns: Seq<(IdView, Seq<char>)>, vars: Seq<IdView>, ctx: Option<IdView>, e: LExprView) -> Result<LExprView, LodashError>
    decreases e, 0nat,
{
    let ctx1 = match spec_detect_curried_fn(e) {
        Some(id) => Some(id),
        None => ctx,
    };
    match e {
        LExprView::Ident(id) => if ns_has(ns, id) {
            match ctx1 {
                Some(c) => if ns_has(ns, c) { Err(LodashError::RecursivePlaceholder) } else { Ok(placeholder(c)) },
                None => Ok(LExprView::Undefined),
            }
        } else {
            Ok(e)
        },
        LExprView::Member { obj, prop } => match spec_post_expr(ns, vars, ctx1, *obj) {
            Ok(o) => Ok(LExprView::Member { obj: Box::new(o), prop }),
            Err(x) => Err(x),
        },
        LExprView::Call { callee, args } => {
            let ctx2 = match *callee {
                LExprView::Ident(id) => if vars.contains(id) { Some(id) } else { ctx1 },
                _ => ctx1,
            };
            match spec_post_expr(ns, vars, ctx2, *callee) {
                Ok(c) => match spec_post_exprs(ns, vars, ctx2, args, args.len()) {
                    Ok(a) => Ok(LExprView::Call { callee: Box::new(c), args: a }),
                    Err(x) => Err(x),
                },
                Err(x) => Err(x),
            }
        },
        LExprView::Node { kind, children } => match spec_post_exprs(ns, vars, ctx1, children, children.len()) {
            Ok(c) => Ok(LExprView::Node { kind, children: c }),
            Err(x) => Err(x),
        },
        LExprView::Undefined => Ok(e),
    }
}

pub open spec fn spec_post_exprs(ns: Seq<(IdView, Seq<char>)>, vars: Seq<IdView>, ctx: Option<IdView>, s: Seq<LExprView>, n: nat) -> Result<Seq<LExprView>, LodashError>
    decreases s, n,
{
    if n == 0 || n > s.len() {
        Ok(Seq::empty())
    } else {
        match spec_post_exprs(ns, vars, ctx, s, (n - 1) as nat) {
            Ok(prev) => match spec_post_expr(ns, vars, ctx, s[n - 1]) {
                Ok(x) => Ok(prev.push(x)),
                Err(e) => Err(e),
            },
            Err(e) => Err(e),
        }
    }
}

proof fn lemma_post_exprs_err(ns: Seq<(IdView, Seq<char>)>, vars: Seq<IdView>, ctx: Option<IdView>, s: Seq<LExprView>, k: nat, n: nat)
    requires
        k <= n <= s.len(),
        spec_post_exprs(ns, vars, ctx, s, k) is Err,
    ensures
        spec_post_exprs(ns, vars, ctx, s, n) == spec_post_exprs(ns, vars, ctx, s, k),
    decreases n - k,
{
    if n > k {
        lemma_post_exprs_err(ns, vars, ctx, s, k, (n - 1) as nat);
    }
}

fn clone_opt_id(o: &Option<Id>) -> (r: Option<Id>)
    ensures
        opt_id(r) == opt_id(*o),
{
    match o {
        Some(x) => Some(x.duplicate()),
        None => None,
    }
}

impl PluginLodash {
    fn post_exprs(&self, ctx: &Option<Id>, v: Vec<LExpr>) -> (r: Result<Vec<LExpr>, LodashError>)
        ensures
            match spec_post_exprs(self.state().namespace_map, self.state().lodash_vars, opt_id(*ctx), lexprs_view(v@, v@.len()), v@.len()) {
                Ok(xs) => r matches Ok(w) && lexprs_view(w@, w@.len()) == xs,
                Err(e) => r == Err::<Vec<LExpr>, LodashError>(e),
            },
        decreases v, 0nat,
    {
        let ghost vv = v;
        let ghost orig = v@;
        let ghost sv = lexprs_view(orig, orig.len());
        let ghost ns = self.state().namespace_map;
        let ghost vars = self.state().lodash_vars;
        proof {
            lemma_lexprs_view(orig, orig.len());
        }
        let n = v.len();
        let mut rest = crate::ast::reversed(v);
        let mut out: Vec<LExpr> = Vec::new();
        let mut k: usize = 0;
        assert(lexprs_view(out@, 0) =~= Seq::<LExprView>::empty());
        while k < n
            invariant
                n == orig.len(),
                orig == vv@,
                vv == v,
                sv == lexprs_view(orig, orig.len()),
                sv.len() == n,
                forall|i: int| 0 <= i < n ==> #[trigger] sv[i] == lexpr_view(orig[i]),
                ns == self.state().namespace_map,
                vars == self.state().lodash_vars,
                k <= n,
                rest@ == Seq::new((n - k) as nat, |t: int| orig[n - 1 - t]),
                out@.len() == k,
                spec_post_exprs(ns, vars, opt_id(*ctx), sv, k as nat) == Ok::<Seq<LExprView>, LodashError>(lexprs_view(out@, out@.len())),
            decreases n - k,
        {
            let x = rest.pop().unwrap();
            assert(x == orig[k as int]);
            assert(rest@ =~= Seq::new((n - k - 1) as nat, |t: int| orig[n - 1 - t]));
            proof {
                assert(decreases_to!(vv => vv[k as int]));
            }
            match self.post_expr(ctx, x) {
                Ok(y) => {
                    proof {
                        lemma_lexprs_view_push(out@, y);
                    }
                    out.push(y);
                },
                Err(e) => {
                    proof {
                        lemma_post_exprs_err(ns, vars, opt_id(*ctx), sv, (k + 1) as nat, n as nat);
                    }
                    return Err(e);
                },
            }
            k = k + 1;
        }
        Ok(out)
    }

    /// The last pass on an expression, inside the lodash call `ctx` if any.
    pub fn post_expr(&self, ctx: &Option<Id>, e: LExpr) -> (r: Result<LExpr, LodashError>)
        ensures
            match spec_post_expr(self.state().namespace_map, self.state().lodash_vars, opt_id(*ctx), e@) {
                Ok(x) => r matches Ok(y) && y@ == x,
                Err(err) => r == Err::<LExpr, LodashError>(err),
            },
        decreases e, 1nat,
    {
        proof {
            reveal_with_fuel(lexpr_view, 2);
        }
        let ctx1 = match detect_curried_fn(&e) {
            Some(id) => Some(id),
            None => clone_opt_id(ctx),
        };
        match e {
            LExpr::Ident(id) => {
                if lookup_namespace(&self.namespace_map, &id).is_some() {
                    match ctx1 {
                        Some(c) => {
                            if lookup_namespace(&self.namespace_map, &c).is_some() {
                                Err(LodashError::RecursivePlaceholder)
                            } else {
                                let r = LExpr::Member { obj: Box::new(LExpr::Ident(c)), prop: MemberProp::Ident(to_owned_string("placeholder")) };
                                proof {
                                    reveal_strlit("placeholder");
                                }
                                Ok(r)
                            }
                        },
                        None => Ok(LExpr::Undefined),
                    }
                } else {
                    Ok(LExpr::Ident(id))
                }
            },
            LExpr::Member { obj, prop } => match self.post_expr(&ctx1, *obj) {
                Ok(o) => Ok(LExpr::Member { obj: Box::new(o), prop }),
                Err(x) => Err(x),
            },
            LExpr::Call { callee, args } => {
                proof {
                    assert(decreases_to!(e => e->args));
                    lemma_lexprs_view(args@, args@.len());
                }
                let ctx2 = match &*callee {
                    LExpr::Ident(id) => if contains_var(&self.lodash_vars, id) { Some(id.duplicate()) } else { ctx1 },
                    _ => ctx1,
                };
                let c = match self.post_expr(&ctx2, *callee) {
                    Ok(c) => c,
                    Err(x) => return Err(x),
                };
                match self.post_exprs(&ctx2, args) {
                    Ok(a) => Ok(LExpr::Call { callee: Box::new(c), args: a }),
                    Err(x) => Err(x),
                }
            },
            LExpr::Node { kind, children } => {
                proof {
                    assert(decreases_to!(e => e->children));
                    lemma_lexprs_view(children@, children@.len());
                }
                match self.post_exprs(&ctx1, children) {
                    Ok(c) => Ok(LExpr::Node { kind, children: c }),
                    Err(x) => Err(x),
                }
            },
            LExpr::Undefined => Ok(LExpr::Undefined),
        }
    }
}


/// A top-level item of a module.
pub enum LItem {
    Import(ImportDecl),
    /// `export { .. }`, with its source when it re-exports.
    ExportNamed { specifiers: Vec<ExportSpecifier>, src: Option<String> },
    /// Any other item, by the expressions in it, in visiting order.
    Code { kind: u64, exprs: Vec<LExpr> },
}

pub enum LItemView {
    Import(ImportDeclView),
    ExportNamed { specifiers: Seq<ExportSpecifierView>, src: Option<Seq<char>> },
    Code { kind: u64, exprs: Seq<LExprView> },
}

impl View for LItem {
    type V = LItemView;

    open spec fn view(&self) -> LItemView {
        match self {
            LItem::Import(d) => LItemView::Import(d@),
            LItem::ExportNamed { specifiers, src } => LItemView::ExportNamed { specifiers: export_specs_view(specifiers@), src: opt_str(*src) },
            LItem::Code { kind, exprs } => LItemView::Code { kind: *kind, exprs: lexprs_view(exprs@, exprs@.len()) },
        }
    }
}

pub open spec fn litems_view(v: Seq<LItem>) -> Seq<LItemView> {
    v.map_values(|x: LItem| x@)
}

/// The imports and re-exports of the first `n` items, in order.
pub open spec fn decl_pass(env: LodashEnv, st: LodashStateView, items: Seq<LItemView>, n: int) -> Result<LodashStateView, LodashError>
    decreases n,
{
    if n <= 0 {
        Ok(st)
    } else {
        match decl_pass(env, st, items, n - 1) {
            Ok(st1) => match items[n - 1] {
                LItemView::Import(d) => spec_visit_import(env, st1, d),
                LItemView::ExportNamed { specifiers, src } => spec_visit_export(env, st1, specifiers, src),
                LItemView::Code { .. } => Ok(st1),
            },
            Err(e) => Err(e),
        }
    }
}

/// The other items of the first `n`, their expressions through the first
/// pass.
pub open spec fn code_pass(env: LodashEnv, st: LodashStateView, items: Seq<LItemView>, n: int) -> Result<(LodashStateView, Seq<LItemView>), LodashError>
    decreases n,
{
    if n <= 0 {
        Ok((st, Seq::empty()))
    } else {
        match code_pass(env, st, items, n - 1) {
            Ok((st1, prev)) => match items[n - 1] {
                LItemView::Code { kind, exprs } => match spec_main_exprs(env, st1, exprs, exprs.len()) {
                    Ok((st2, xs)) => Ok((st2, prev.push(LItemView::Code { kind, exprs: xs }))),
                    Err(e) => Err(e),
                },
                x => Ok((st1, prev.push(x))),
            },
            Err(e) => Err(e),
        }
    }
}

/// An import or re-export of one of the packages, which the last pass
/// drops.
pub open spec fn is_package_decl(env: LodashEnv, item: LItemView) -> bool {
    match item {
        LItemView::Import(d) => lookup(env.pkg_map, d.src) is Some,
        LItemView::ExportNamed { src, .. } => match src {
            Some(s) => lookup(env.pkg_map, s) is Some,
            None => false,
        },
        LItemView::Code { .. } => false,
    }
}

/// The last pass over the first `n` items.
pub open spec fn post_pass(env: LodashEnv, st: LodashStateView, items: Seq<LItemView>, n: int) -> Result<Seq<LItemView>, LodashError>
    decreases n,
{
    if n <= 0 {
        Ok(Seq::empty())
    } else {
        match post_pass(env, st, items, n - 1) {
            Ok(prev) => if is_package_decl(env, items[n - 1]) {
                Ok(prev)
            } else {
                match items[n - 1] {
                    LItemView::Code { kind, exprs } => match spec_post_exprs(st.namespace_map, st.lodash_vars, None, exprs, exprs.len()) {
                        Ok(xs) => Ok(prev.push(LItemView::Code { kind, exprs: xs })),
                        Err(e) => Err(e),
                    },
                    x => Ok(prev.push(x)),
                }
            },
            Err(e) => Err(e),
        }
    }
}

/// `export { <id> }`.
pub open spec fn export_item(id: IdView) -> LItemView {
    LItemView::ExportNamed {
        specifiers: seq![ExportSpecifierView::Named { orig: ModuleExportNameView::Ident(id), exported: None }],
        src: None,
    }
}

/// The items of the module before the last pass: the added imports first,
/// the last added first, then the items, then an export of each
/// re-exported binding.
pub open spec fn assemble(st: LodashStateView, items: Seq<LItemView>) -> Seq<LItemView> {
    crate::ast::rev_seq(st.imports).map_values(|d: ImportDeclView| LItemView::Import(d)) + items + st.exports.map_values(
        |id: IdView| export_item(id),
    )
}

/// The module after the transform, and the state it leaves.
pub open spec fn spec_lodash_module(env: LodashEnv, st: LodashStateView, items: Seq<LItemView>) -> Result<(LodashStateView, Seq<LItemView>), LodashError> {
    match decl_pass(env, st, items, items.len() as int) {
        Ok(st1) => match code_pass(env, st1, items, items.len() as int) {
            Ok((st2, items2)) => {
                let all = assemble(st2, items2);
                match post_pass(env, st2, all, all.len() as int) {
                    Ok(out) => Ok((st2, out)),
                    Err(e) => Err(e),
                }
            },
            Err(e) => Err(e),
        },
        Err(e) => Err(e),
    }
}

proof fn lemma_decl_pass_err(env: LodashEnv, st: LodashStateView, items: Seq<LItemView>, k: int, n: int)
    requires
        0 <= k <= n,
        decl_pass(env, st, items, k) is Err,
    ensures
        decl_pass(env, st, items, n) == decl_pass(env, st, items, k),
    decreases n - k,
{
    if n > k {
        lemma_decl_pass_err(env, st, items, k, n - 1);
    }
}

proof fn lemma_code_pass_err(env: LodashEnv, st: LodashStateView, items: Seq<LItemView>, k: int, n: int)
    requires
        0 <= k <= n,
        code_pass(env, st, items, k) is Err,
    ensures
        code_pass(env, st, items, n) == code_pass(env, st, items, k),
    decreases n - k,
{
    if n > k {
        lemma_code_pass_err(env, st, items, k, n - 1);
    }
}

proof fn lemma_post_pass_err(env: LodashEnv, st: LodashStateView, items: Seq<LItemView>, k: int, n: int)
    requires
        0 <= k <= n,
        post_pass(env, st, items, k) is Err,
    ensures
        post_pass(env, st, items, n) == post_pass(env, st, items, k),
    decreases n - k,
{
    if n > k {
        lemma_post_pass_err(env, st, items, k, n - 1);
    }
}

impl PluginLodash {
    fn is_package_decl_exec(&self, item: &LItem) -> (r: bool)
        ensures
            r == is_package_decl(self.env(), item@),
    {
        match item {
            LItem::Import(d) => self.has_package(d.src.as_str()),
            LItem::ExportNamed { src, .. } => match src {
                Some(s) => self.has_package(s.as_str()),
                None => false,
            },
            LItem::Code { .. } => false,
        }
    }

    /// Cherry-picks the module: package imports and re-exports are read
    /// first, then the expressions of the other items; the added imports go
    /// to the top and the re-exported bindings are exported at the end;
    /// last, the package imports are dropped and the package bindings left
    /// are replaced.
    pub fn visit_mut_module(&mut self, module: &mut Vec<LItem>) -> (r: Result<(), LodashError>)
        ensures
            final(self).same_env(old(self)),
            match spec_lodash_module(old(self).env(), old(self).state(), litems_view(old(module)@)) {
                Ok((st, items)) => r is Ok && final(self).state() == st && litems_view(final(module)@) == items,
                Err(e) => r == Err::<(), LodashError>(e),
            },
    {
        let ghost env0 = self.env();
        let ghost st0 = self.state();
        let ghost iv = litems_view(module@);
        // The imports and re-exports.
        let mut i: usize = 0;
        while i < module.len()
            invariant
                iv == litems_view(module@),
                module@ == old(module)@,
                i <= module@.len(),
                env0 == old(self).env(),
                st0 == old(self).state(),
                self.env() == env0,
                self.cwd == old(self).cwd,
                decl_pass(env0, st0, iv, i as int) == Ok::<LodashStateView, LodashError>(self.state()),
            decreases module@.len() - i,
        {
            assert(iv[i as int] == module@[i as int]@);
            let res = match &module[i] {
                LItem::Import(d) => self.visit_mut_import_decl(d),
                LItem::ExportNamed { specifiers, src } => self.visit_mut_named_export(specifiers, src),
                LItem::Code { .. } => Ok(()),
            };
            match res {
                Ok(()) => {},
                Err(e) => {
                    proof {
                        lemma_decl_pass_err(env0, st0, iv, i + 1, iv.len() as int);
                    }
                    return Err(e);
                },
            }
            i = i + 1;
        }
        let ghost st1 = self.state();
        // The expressions of the other items.
        let mut body: Vec<LItem> = Vec::new();
        std::mem::swap(&mut body, module);
        let ghost orig = body@;
        let n = body.len();
        let mut rest = crate::ast::reversed(body);
        let mut items2: Vec<LItem> = Vec::new();
        let mut k: usize = 0;
        assert(litems_view(items2@) =~= Seq::<LItemView>::empty());
        while k < n
            invariant
                n == orig.len(),
                orig == old(module)@,
                iv == litems_view(orig),
                k <= n,
                rest@ == Seq::new((n - k) as nat, |t: int| orig[n - 1 - t]),
                env0 == old(self).env(),
                st0 == old(self).state(),
                decl_pass(env0, st0, iv, n as int) == Ok::<LodashStateView, LodashError>(st1),
                self.env() == env0,
                self.cwd == old(self).cwd,
                code_pass(env0, st1, iv, k as int) == Ok::<(LodashStateView, Seq<LItemView>), LodashError>((self.state(), litems_view(items2@))),
            decreases n - k,
        {
            let item = rest.pop().unwrap();
            assert(item == orig[k as int]);
            assert(rest@ =~= Seq::new((n - k - 1) as nat, |t: int| orig[n - 1 - t]));
            assert(iv[k as int] == item@);
            let x = match item {
                LItem::Code { kind, exprs } => {
                    proof {
                        lemma_lexprs_view(exprs@, exprs@.len());
                    }
                    match self.main_exprs(exprs) {
                        Ok(xs) => LItem::Code { kind, exprs: xs },
                        Err(e) => {
                            proof {
                                lemma_code_pass_err(env0, st1, iv, k + 1, n as int);
                            }
                            return Err(e);
                        },
                    }
                },
                other => other,
            };
            let ghost before = items2@;
            items2.push(x);
            assert(litems_view(items2@) =~= litems_view(before).push(x@));
            k = k + 1;
        }
        let ghost st2 = self.state();
        let ghost i2 = litems_view(items2@);
        // The added imports, the items, the exports.
        let mut all: Vec<LItem> = Vec::new();
        let mut j: usize = self.imports.len();
        let ghost imps = self.state().imports;
        let ghost ni = imps.len();
        while j > 0
            invariant
                j <= ni,
                ni == self.imports@.len(),
                imps == decls_view(self.imports@),
                all@.len() == ni - j,
                forall|t: int| 0 <= t < ni - j ==> #[trigger] litems_view(all@)[t] == LItemView::Import(imps[ni - 1 - t]),
            decreases j,
        {
            let ghost before = all@;
            let d = self.imports[j - 1].duplicate();
            all.push(LItem::Import(d));
            assert forall|t: int| 0 <= t < ni - j + 1 implies #[trigger] litems_view(all@)[t] == LItemView::Import(imps[ni - 1 - t]) by {
                if t < ni - j {
                    assert(litems_view(all@)[t] == all@[t]@);
                    assert(all@[t] == before[t]);
                    assert(litems_view(before)[t] == before[t]@);
                }
            }
            j = j - 1;
        }
        assert(litems_view(all@) =~= crate::ast::rev_seq(imps).map_values(|d: ImportDeclView| LItemView::Import(d)));
        let ghost head = litems_view(all@);
        let mut items2 = items2;
        all.append(&mut items2);
        assert(litems_view(all@) =~= head + i2);
        let ghost mid = litems_view(all@);
        let mut j: usize = 0;
        let ghost exps = self.state().exports;
        let ghost ml = mid.len();
        while j < self.exports.len()
            invariant
                j <= self.exports@.len(),
                exps == ids_view(self.exports@),
                ml == mid.len(),
                all@.len() == ml + j,
                forall|t: int| 0 <= t < ml ==> #[trigger] litems_view(all@)[t] == mid[t],
                forall|t: int| 0 <= t < j ==> #[trigger] litems_view(all@)[ml + t] == export_item(exps[t]),
            decreases self.exports@.len() - j,
        {
            let mut specifiers: Vec<ExportSpecifier> = Vec::new();
            specifiers.push(ExportSpecifier::Named { orig: ModuleExportName::Ident(self.exports[j].duplicate()), exported: None });
            let x = LItem::ExportNamed { specifiers, src: None };
            assert(x@ == export_item(exps[j as int])) by {
                assert(export_specs_view(specifiers@) =~= seq![ExportSpecifierView::Named { orig: ModuleExportNameView::Ident(exps[j as int]), exported: None }]);
            }
            let ghost before = all@;
            all.push(x);
            assert forall|t: int| 0 <= t < ml implies #[trigger] litems_view(all@)[t] == mid[t] by {
                assert(litems_view(all@)[t] == all@[t]@);
                assert(litems_view(before)[t] == before[t]@);
            }
            assert forall|t: int| 0 <= t < j + 1 implies #[trigger] litems_view(all@)[ml + t] == export_item(exps[t]) by {
                assert(litems_view(all@)[ml + t] == all@[ml + t]@);
                if t < j {
                    assert(litems_view(before)[ml + t] == before[ml + t]@);
                }
            }
            j = j + 1;
        }
        assert forall|t: int| 0 <= t < all@.len() implies #[trigger] litems_view(all@)[t] == (mid + exps.map_values(|id: IdView| export_item(id)))[t] by {
            if t >= ml {
                assert(litems_view(all@)[ml + (t - ml)] == export_item(exps[t - ml]));
            }
        }
        assert(litems_view(all@) =~= mid + exps.map_values(|id: IdView| export_item(id)));
        assert(litems_view(all@) == assemble(st2, i2));
        // The last pass.
        let ghost av = litems_view(all@);
        let ghost aorig = all@;
        let m = all.len();
        let mut rest = crate::ast::reversed(all);
        let mut out: Vec<LItem> = Vec::new();
        let mut k: usize = 0;
        assert(litems_view(out@) =~= Seq::<LItemView>::empty());
        while k < m
            invariant
                m == aorig.len(),
                iv == litems_view(old(module)@),
                env0 == old(self).env(),
                st0 == old(self).state(),
                self.cwd == old(self).cwd,
                decl_pass(env0, st0, iv, iv.len() as int) == Ok::<LodashStateView, LodashError>(st1),
                code_pass(env0, st1, iv, iv.len() as int) == Ok::<(LodashStateView, Seq<LItemView>), LodashError>((st2, i2)),
                av == litems_view(aorig),
                av == assemble(st2, i2),
                k <= m,
                rest@ == Seq::new((m - k) as nat, |t: int| aorig[m - 1 - t]),
                self.env() == env0,
                self.state() == st2,
                post_pass(env0, st2, av, k as int) == Ok::<Seq<LItemView>, LodashError>(litems_view(out@)),
            decreases m - k,
        {
            let item = rest.pop().unwrap();
            assert(item == aorig[k as int]);
            assert(rest@ =~= Seq::new((m - k - 1) as nat, |t: int| aorig[m - 1 - t]));
            assert(av[k as int] == item@);
            if !self.is_package_decl_exec(&item) {
                let x = match item {
                    LItem::Code { kind, exprs } => {
                        proof {
                            lemma_lexprs_view(exprs@, exprs@.len());
                        }
                        match self.post_exprs(&None, exprs) {
                            Ok(xs) => LItem::Code { kind, exprs: xs },
                            Err(e) => {
                                proof {
                                    lemma_post_pass_err(env0, st2, av, k + 1, m as int);
                                }
                                return Err(e);
                            },
                        }
                    },
                    other => other,
                };
                let ghost before = out@;
                out.push(x);
                assert(litems_view(out@) =~= litems_view(before).push(x@));
            }
            k = k + 1;
        }
        *module = out;
        Ok(())
    }
}


/// The (key, id, base) triples of the packages to build from the mappings:
/// one for each directory of each package, in order.
pub open spec fn spec_pkg_entries(modules: Seq<(String, ModuleMap)>, n: int) -> Seq<(Seq<char>, Seq<char>, Seq<char>)>
    decreases n,
{
    if n <= 0 {
        Seq::empty()
    } else {
        let id = modules[n - 1].0@;
        spec_pkg_entries(modules, n - 1) + modules[n - 1].1.dirs@.map_values(|d: (String, Pairs)| pkg_entry(id, d))
    }
}

pub open spec fn pkg_entry(id: Seq<char>, d: (String, Pairs)) -> (Seq<char>, Seq<char>, Seq<char>) {
    (spec_pkg_key(id, d.0@), id, d.0@)
}

pub open spec fn triples_view(v: Seq<(String, String, String)>) -> Seq<(Seq<char>, Seq<char>, Seq<char>)> {
    v.map_values(|t: (String, String, String)| (t.0@, t.1@, t.2@))
}

/// What `Package::new` must be called with for each package of the
/// mappings, and the key under which the result is found.
pub fn pkg_map_entries(mappings: &Mappings) -> (r: Vec<(String, String, String)>)
    ensures
        triples_view(r@) == spec_pkg_entries(mappings.modules@, mappings.modules@.len() as int),
{
    let mut out: Vec<(String, String, String)> = Vec::new();
    let mut i: usize = 0;
    assert(triples_view(out@) =~= Seq::empty());
    while i < mappings.modules.len()
        invariant
            i <= mappings.modules@.len(),
            triples_view(out@) == spec_pkg_entries(mappings.modules@, i as int),
        decreases mappings.modules@.len() - i,
    {
        let id = &mappings.modules[i].0;
        let dirs = &mappings.modules[i].1.dirs;
        let ghost start = triples_view(out@);
        assert(start == spec_pkg_entries(mappings.modules@, i as int));
        let mut j: usize = 0;
        assert(dirs@.map_values(|d: (String, Pairs)| pkg_entry(id@, d)).take(0) =~= Seq::empty());
        assert(triples_view(out@) =~= start + dirs@.map_values(|d: (String, Pairs)| pkg_entry(id@, d)).take(0));
        while j < dirs.len()
            invariant
                j <= dirs@.len(),
                id == &mappings.modules@[i as int].0,
                dirs == &mappings.modules@[i as int].1.dirs,
                triples_view(out@) == start + dirs@.map_values(|d: (String, Pairs)| pkg_entry(id@, d)).take(j as int),
            decreases dirs@.len() - j,
        {
            let base = &dirs[j].0;
            let key = pkg_key(id.as_str(), base.as_str());
            let ghost before = out@;
            out.push((key, id.clone(), base.clone()));
            assert(triples_view(out@) =~= triples_view(before).push((key@, id@, base@)));
            assert(dirs@.map_values(|d: (String, Pairs)| pkg_entry(id@, d))[j as int] == (key@, id@, base@));
            assert(dirs@.map_values(|d: (String, Pairs)| pkg_entry(id@, d)).take(j + 1) =~= dirs@.map_values(|d: (String, Pairs)| pkg_entry(id@, d)).take(j as int).push((key@, id@, base@)));
            assert(triples_view(out@) =~= start + dirs@.map_values(|d: (String, Pairs)| pkg_entry(id@, d)).take(j + 1));
            j = j + 1;
        }
        assert(dirs@.map_values(|d: (String, Pairs)| pkg_entry(id@, d)).take(dirs@.len() as int) =~= dirs@.map_values(|d: (String, Pairs)| pkg_entry(id@, d)));
        i = i + 1;
    }
    out
}

/// The transform for a module, from the configuration and the tables that
/// were built for it.
pub fn plugin_lodash(config: &PluginLodashConfig, top_level_ctxt: u32, mappings: Mappings, pkg_map: Vec<(String, Package)>) -> (r: PluginLodash)
    ensures
        r.cwd == config.cwd,
        r.top_level_ctxt == top_level_ctxt,
        r.mappings == mappings,
        r.pkg_map == pkg_map,
        r.state() == (LodashStateView {
            imported_names: Seq::empty(),
            namespace_map: Seq::empty(),
            imports: Seq::empty(),
            exports: Seq::empty(),
            lodash_vars: Seq::empty(),
        }),
{
    PluginLodash::new(config.cwd.clone(), top_level_ctxt, mappings, pkg_map)
}


pub open spec fn entries_view(v: Seq<(String, String)>) -> Seq<(Seq<char>, Seq<char>)> {
    v.map_values(|e: (String, String)| (e.0@, e.1@))
}

/// `i` is the first position of key `k`.
pub open spec fn first_key_at(s: Seq<(Seq<char>, Seq<char>)>, k: Seq<char>, i: int) -> bool {
    0 <= i < s.len() && s[i].0 == k && forall|j: int| 0 <= j < i ==> s[j].0 != k
}

/// The entries after `k` was set to `v`: the first entry with key `k`
/// gets the new value, so a later file of the same name replaces an
/// earlier one; a new key is added at the end.
pub open spec fn spec_set_entry(s: Seq<(Seq<char>, Seq<char>)>, k: Seq<char>, v: Seq<char>) -> Seq<(Seq<char>, Seq<char>)> {
    if exists|i: int| first_key_at(s, k, i) {
        s.update(choose|i: int| first_key_at(s, k, i), (k, v))
    } else {
        s.push((k, v))
    }
}

impl Pairs {
    /// Sets the path of module `name`, replacing the one it had.
    pub fn set_entry(&mut self, name: String, path: String)
        ensures
            entries_view(final(self).entries@) == spec_set_entry(entries_view(old(self).entries@), name@, path@),
    {
        let ghost ev = entries_view(self.entries@);
        let mut i: usize = 0;
        while i < self.entries.len()
            invariant
                i <= self.entries@.len(),
                ev == entries_view(self.entries@),
                self.entries@ == old(self).entries@,
                forall|j: int| 0 <= j < i ==> ev[j].0 != name@,
            decreases self.entries@.len() - i,
        {
            assert(ev[i as int] == (self.entries@[i as int].0@, self.entries@[i as int].1@));
            if str_eq(self.entries[i].0.as_str(), name.as_str()) {
                assert(first_key_at(ev, name@, i as int));
                proof {
                    let c = choose|c: int| first_key_at(ev, name@, c);
                    assert(c == i) by {
                        if c < i {
                            assert(ev[c].0 != name@);
                        } else if c > i {
                            assert(ev[i as int].0 != name@);
                        }
                    }
                }
                self.entries.set(i, (name, path));
                assert(entries_view(self.entries@) =~= spec_set_entry(ev, name@, path@)) by {
                    assert(entries_view(self.entries@) =~= ev.update(i as int, (name@, path@)));
                }
                return;
            }
            i = i + 1;
        }
        assert(!exists|c: int| first_key_at(ev, name@, c));
        self.entries.push((name, path));
        assert(entries_view(self.entries@) =~= ev.push((name@, path@)));
    }
}

/// The entry of a module file of a package directory: the file name
/// without `.js`, lower-cased, and the path relative to the package root
/// without its `.js` extension, with `separator` replaced by `/`.
pub open spec fn spec_module_pair(file_name: Seq<char>, relative: Seq<char>, separator: char) -> (Seq<char>, Seq<char>) {
    (
        spec_to_lowercase(spec_replace(file_name, ".js"@, Seq::empty())),
        spec_replace(relative.take(relative.len() - 3), seq![separator], seq!['/']),
    )
}

/// The `Pairs` entry of a `.js` file.
pub fn module_pair(file_name: &str, relative: &str, separator: char) -> (r: (String, String))
    requires
        relative@.len() >= 3,
        relative@.skip(relative@.len() - 3) == ".js"@,
    ensures
        (r.0@, r.1@) == spec_module_pair(file_name@, relative@, separator),
{
    proof {
        reveal_strlit(".js");
    }
    let name = replace_all(file_name, ".js", "");
    proof {
        reveal_strlit("");
    }
    let n = relative.unicode_len();
    let stem = to_owned_string(relative.substring_char(0, n - 3));
    assert(stem@ =~= relative@.take(relative@.len() - 3));
    let mut sep = String::new();
    push_char(&mut sep, separator);
    let path = replace_all(stem.as_str(), sep.as_str(), "/");
    proof {
        reveal_strlit("/");
        assert(sep@ =~= seq![separator]);
        assert("/"@ =~= seq!['/']);
        assert(""@ =~= Seq::<char>::empty());
    }
    (to_lowercase(name.as_str()), path)
}


proof fn lemma_post_pass_no_package_decls(env: LodashEnv, st: LodashStateView, items: Seq<LItemView>, n: int)
    ensures
        post_pass(env, st, items, n) matches Ok(out) ==> forall|i: int| 0 <= i < out.len() ==> !is_package_decl(env, #[trigger] out[i]),
    decreases n,
{
    if n > 0 {
        lemma_post_pass_no_package_decls(env, st, items, n - 1);
    }
}

/// Once the transform succeeds, no import or re-export of the packages is
/// left in the module.
pub proof fn law_package_decls_dropped(env: LodashEnv, st: LodashStateView, items: Seq<LItemView>)
    ensures
        spec_lodash_module(env, st, items) matches Ok((_, out)) ==> forall|i: int| 0 <= i < out.len() ==> !is_package_decl(env, #[trigger] out[i]),
{
    if let Ok(st1) = decl_pass(env, st, items, items.len() as int) {
        if let Ok((st2, items2)) = code_pass(env, st1, items, items.len() as int) {
            let all = assemble(st2, items2);
            lemma_post_pass_no_package_decls(env, st2, all, all.len() as int);
        }
    }
}


proof fn lemma_names_lookup_push_new(
    names: Seq<((Seq<char>, Seq<char>, Seq<char>), IdView)>,
    key: (Seq<char>, Seq<char>, Seq<char>),
    v: IdView,
)
    requires
        names_lookup(names, key) is None,
    ensures
        names_lookup(names.push((key, v)), key) == Some(v),
    decreases names.len(),
{
    if names.len() > 0 {
        assert(names.push((key, v)).drop_first() =~= names.drop_first().push((key, v)));
        lemma_names_lookup_push_new(names.drop_first(), key, v);
    }
}

/// Adding the import of a package binding a second time changes nothing:
/// it gives the binding the first call gave, and the state stays as the
/// first call left it. The first call adds at most one import, and when it
/// adds one, that is the default import of the providing module, bound to
/// `local`, which is then a package binding.
pub proof fn law_add_import_once(
    env: LodashEnv,
    st: LodashStateView,
    source: Seq<char>,
    local: IdView,
    imported: Option<IdView>,
)
    ensures
        match spec_add_import(env, st, source, local, imported) {
            Ok((st1, id)) => {
                &&& spec_add_import(env, st1, source, local, imported) == Ok::<(LodashStateView, IdView), LodashError>((st1, id))
                &&& (st1.imports == st.imports || (st1.imports.len() == st.imports.len() + 1
                    && st1.imports.drop_last() == st.imports
                    && st1.imports.last().specifiers == seq![ImportSpecifierView::Default(local)]
                    && id == local
                    && st1.lodash_vars.contains(local)))
            },
            Err(_) => true,
        },
{
    let iname = match imported {
        Some(i) => i.sym,
        None => local.sym,
    };
    let key = (source, local.sym, iname);
    match spec_add_import(env, st, source, local, imported) {
        Ok((st1, id)) => {
            if names_lookup(st.imported_names, key) is None {
                lemma_names_lookup_push_new(st.imported_names, key, local);
                assert(st1.imports.drop_last() =~= st.imports);
                assert(set_insert(st.lodash_vars, local).contains(local)) by {
                    if !st.lodash_vars.contains(local) {
                        assert(st.lodash_vars.push(local)[st.lodash_vars.len() as int] == local);
                    }
                }
            }
        },
        Err(_) => {},
    }
}


proof fn lemma_names_lookup_other_source(
    names: Seq<((Seq<char>, Seq<char>, Seq<char>), IdView)>,
    key: (Seq<char>, Seq<char>, Seq<char>),
)
    requires
        forall|k: int| 0 <= k < names.len() ==> (#[trigger] names[k]).0.0 != key.0,
    ensures
        names_lookup(names, key) is None,
    decreases names.len(),
{
    if names.len() > 0 {
        assert(names[0].0.0 != key.0);
        assert forall|k: int| 0 <= k < names.drop_first().len() implies (#[trigger] names.drop_first()[k]).0.0 != key.0 by {
            assert(names.drop_first()[k] == names[k + 1]);
        }
        lemma_names_lookup_other_source(names.drop_first(), key);
    }
}

/// A renamed import (`import { map as m } from 'lodash'`, or the binding
/// made for `_.map`) is cherry-picked by the name it imports, not by its
/// local name: when nothing was added for the package yet and the package
/// provides module `p` for the imported name, the default import of
/// `<package>/<p>` bound to the local name is added, and that local
/// binding is what the name now stands for.
pub proof fn law_add_import_by_imported_name(
    env: LodashEnv,
    st: LodashStateView,
    source: Seq<char>,
    local: IdView,
    imported: IdView,
    pkg: Package,
    p: Seq<char>,
)
    requires
        lookup(env.pkg_map, source) == Some(pkg),
        spec_find_module(pkg, env.mappings, imported.sym) == Some(p),
        forall|k: int| 0 <= k < st.imported_names.len() ==> (#[trigger] st.imported_names[k]).0.0 != source,
    ensures
        spec_add_import(env, st, source, local, Some(imported)) matches Ok((st1, id))
            && id == local
            && st1.imports == st.imports.push(default_import(pkg.id@ + seq!['/'] + p, local))
            && st1.lodash_vars.contains(local),
{
    lemma_names_lookup_other_source(st.imported_names, (source, local.sym, imported.sym));
    if !st.lodash_vars.contains(local) {
        assert(st.lodash_vars.push(local)[st.lodash_vars.len() as int] == local);
    }
}

} // verus!
