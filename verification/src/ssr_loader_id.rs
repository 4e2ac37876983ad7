//! Loader ids for server-side rendering: every loader handed to the
//! runtime's `useLoader`, `useStaticLoader` or `createContainer` is wrapped
//! so that it carries an id made of the file's MD5 digest and a counter.

use vstd::prelude::*;
use crate::ast::{Id, IdView, ImportDecl, ImportDeclView, ImportSpecifierView, ModuleExportNameView};
use crate::text::{push_char, push_decimal, push_hex, spec_decimal, spec_hex, str_eq, strip_prefix, seq_starts_with};

verus! {

/// Names under which the runtime exports the loader functions.
pub struct SSRLoaderIdConfig {
    pub runtime_package_name: String,
    pub function_use_loader_name: Option<String>,
    pub function_use_static_loader_name: Option<String>,
    pub function_create_container_name: Option<String>,
}

pub open spec fn opt_str_view(o: Option<String>) -> Option<Seq<char>> {
    match o {
        Some(s) => Some(s@),
        None => None,
    }
}

pub open spec fn opt_id_view(o: Option<Id>) -> Option<IdView> {
    match o {
        Some(x) => Some(x@),
        None => None,
    }
}

/// The MD5 digest of the UTF-8 encoding of a string.
pub uninterp spec fn spec_md5(s: Seq<char>) -> Seq<u8>;

/// md5's `compute` on the bytes of `s`: the 16 bytes of the digest, which
/// is `spec_md5` of the string.
#[verifier::external_body]
fn md5_compute(s: &str) -> (r: Vec<u8>)
    ensures
        r@ == spec_md5(s@),
        r@.len() == 16,
{
    md5::compute(s).0.to_vec()
}

/// The digest of a file name, taken relative to `cwd` when the name starts
/// with it.
pub open spec fn file_hash(filename: Seq<char>, cwd: Seq<char>) -> Seq<u8> {
    if seq_starts_with(filename, cwd) {
        spec_md5(filename.skip(cwd.len() as int))
    } else {
        spec_md5(filename)
    }
}

/// Hashes the file name, relative to `cwd` where it starts with it.
pub fn hash_file_name(filename: &str, cwd: &str) -> (r: Vec<u8>)
    ensures
        r@ == file_hash(filename@, cwd@),
        r@.len() == 16,
{
    match strip_prefix(filename, cwd) {
        Some(name) => md5_compute(name.as_str()),
        None => md5_compute(filename),
    }
}

/// The id of the loader numbered `idx`: the digest in lowercase hexadecimal,
/// an underscore and the number.
pub open spec fn loader_id(hash: Seq<u8>, idx: nat) -> Seq<char> {
    spec_hex(hash) + seq!['_'] + spec_decimal(idx)
}

/// Builds a loader id.
pub fn format_loader_id(hash: &Vec<u8>, idx: usize) -> (r: String)
    ensures
        r@ == loader_id(hash@, idx as nat),
{
    let mut s = String::new();
    push_hex(&mut s, hash);
    push_char(&mut s, '_');
    push_decimal(&mut s, idx);
    assert(s@ =~= loader_id(hash@, idx as nat));
    s
}

/// A statement of a function body, as far as the loader check reads it.
pub enum BodyStmt {
    /// A variable declaration, with the name of its first declarator when
    /// that is a plain identifier.
    Var { first_name: Option<String> },
    /// A `return`, with its argument when that is an identifier.
    Return { arg_ident: Option<String> },
    Other(u64),
}

pub enum BodyStmtView {
    Var { first_name: Option<Seq<char>> },
    Return { arg_ident: Option<Seq<char>> },
    Other(u64),
}

impl View for BodyStmt {
    type V = BodyStmtView;

    open spec fn view(&self) -> BodyStmtView {
        match self {
            BodyStmt::Var { first_name } => BodyStmtView::Var { first_name: opt_str_view(*first_name) },
            BodyStmt::Return { arg_ident } => BodyStmtView::Return { arg_ident: opt_str_view(*arg_ident) },
            BodyStmt::Other(h) => BodyStmtView::Other(*h),
        }
    }
}

/// A function expression, with the statements of its body.
pub struct FnExpr {
    pub body: Option<Vec<BodyStmt>>,
}

pub struct FnExprView {
    pub body: Option<Seq<BodyStmtView>>,
}

impl View for FnExpr {
    type V = FnExprView;

    open spec fn view(&self) -> FnExprView {
        FnExprView {
            body: match self.body {
                Some(v) => Some(v@.map_values(|s: BodyStmt| s@)),
                None => None,
            },
        }
    }
}

/// An expression handed over as a loader.
pub enum LoaderExpr {
    Fn(FnExpr),
    Ident(Id),
    Member(u64),
    Arrow(u64),
    Call(u64),
    /// `(function() { var innerLoader = <loader>; innerLoader.id = "<id>";
    /// return innerLoader; })()`, a call expression.
    SelfInvoke { loader: Box<LoaderExpr>, id: String },
    Other(u64),
}

pub enum LoaderExprView {
    Fn(FnExprView),
    Ident(IdView),
    Member(u64),
    Arrow(u64),
    Call(u64),
    SelfInvoke { loader: Box<LoaderExprView>, id: Seq<char> },
    Other(u64),
}

pub open spec fn loader_view(e: LoaderExpr) -> LoaderExprView
    decreases e,
{
    match e {
        LoaderExpr::Fn(f) => LoaderExprView::Fn(f@),
        LoaderExpr::Ident(id) => LoaderExprView::Ident(id@),
        LoaderExpr::Member(h) => LoaderExprView::Member(h),
        LoaderExpr::Arrow(h) => LoaderExprView::Arrow(h),
        LoaderExpr::Call(h) => LoaderExprView::Call(h),
        LoaderExpr::SelfInvoke { loader, id } => LoaderExprView::SelfInvoke {
            loader: Box::new(loader_view(*loader)),
            id: id@,
        },
        LoaderExpr::Other(h) => LoaderExprView::Other(h),
    }
}

impl View for LoaderExpr {
    type V = LoaderExprView;

    open spec fn view(&self) -> LoaderExprView {
        loader_view(*self)
    }
}

/// The key of an object property.
pub enum PropKey {
    Ident(String),
    Str(String),
    Other(u64),
}

pub enum PropKeyView {
    Ident(Seq<char>),
    Str(Seq<char>),
    Other(u64),
}

impl View for PropKey {
    type V = PropKeyView;

    open spec fn view(&self) -> PropKeyView {
        match self {
            PropKey::Ident(s) => PropKeyView::Ident(s@),
            PropKey::Str(s) => PropKeyView::Str(s@),
            PropKey::Other(h) => PropKeyView::Other(*h),
        }
    }
}

/// A property of an object literal.
pub enum ObjectProp {
    Method { key: PropKey, function: FnExpr },
    KeyValue { key: PropKey, value: LoaderExpr },
    Other(u64),
}

pub enum ObjectPropView {
    Method { key: PropKeyView, function: FnExprView },
    KeyValue { key: PropKeyView, value: LoaderExprView },
    Other(u64),
}

impl View for ObjectProp {
    type V = ObjectPropView;

    open spec fn view(&self) -> ObjectPropView {
        match self {
            ObjectProp::Method { key, function } => ObjectPropView::Method { key: key@, function: function@ },
            ObjectProp::KeyValue { key, value } => ObjectPropView::KeyValue { key: key@, value: value@ },
            ObjectProp::Other(h) => ObjectPropView::Other(*h),
        }
    }
}

pub open spec fn props_view(p: Seq<ObjectProp>) -> Seq<ObjectPropView> {
    p.map_values(|x: ObjectProp| x@)
}

/// An argument of a call: an object literal or another expression.
pub enum Arg {
    Expr(LoaderExpr),
    Object(Vec<ObjectProp>),
}

pub enum ArgView {
    Expr(LoaderExprView),
    Object(Seq<ObjectPropView>),
}

impl View for Arg {
    type V = ArgView;

    open spec fn view(&self) -> ArgView {
        match self {
            Arg::Expr(e) => ArgView::Expr(e@),
            Arg::Object(p) => ArgView::Object(props_view(p@)),
        }
    }
}

/// What is called: an identifier or something else.
pub enum Callee {
    Ident(Id),
    Other(u64),
}

pub enum CalleeView {
    Ident(IdView),
    Other(u64),
}

impl View for Callee {
    type V = CalleeView;

    open spec fn view(&self) -> CalleeView {
        match self {
            Callee::Ident(id) => CalleeView::Ident(id@),
            Callee::Other(h) => CalleeView::Other(*h),
        }
    }
}

pub struct CallExpr {
    pub callee: Callee,
    pub args: Vec<Arg>,
}

pub struct CallExprView {
    pub callee: CalleeView,
    pub args: Seq<ArgView>,
}

pub open spec fn args_view(a: Seq<Arg>) -> Seq<ArgView> {
    a.map_values(|x: Arg| x@)
}

impl View for CallExpr {
    type V = CallExprView;

    open spec fn view(&self) -> CallExprView {
        CallExprView { callee: self.callee@, args: args_view(self.args@) }
    }
}


impl SSRLoaderIdConfig {
    pub fn duplicate(&self) -> (r: SSRLoaderIdConfig)
        ensures
            r == *self,
    {
        SSRLoaderIdConfig {
            runtime_package_name: self.runtime_package_name.clone(),
            function_use_loader_name: clone_opt_str(&self.function_use_loader_name),
            function_use_static_loader_name: clone_opt_str(&self.function_use_static_loader_name),
            function_create_container_name: clone_opt_str(&self.function_create_container_name),
        }
    }
}

impl Default for SSRLoaderIdConfig {
    fn default() -> (r: SSRLoaderIdConfig)
        ensures
            r.runtime_package_name@ == Seq::<char>::empty(),
            r.function_use_loader_name is None,
            r.function_use_static_loader_name is None,
            r.function_create_container_name is None,
    {
        SSRLoaderIdConfig {
            runtime_package_name: String::new(),
            function_use_loader_name: None,
            function_use_static_loader_name: None,
            function_create_container_name: None,
        }
    }
}

fn clone_opt_str(o: &Option<String>) -> (r: Option<String>)
    ensures
        r == *o,
{
    match o {
        Some(s) => Some(s.clone()),
        None => None,
    }
}

fn clone_opt_id(o: &Option<Id>) -> (r: Option<Id>)
    ensures
        opt_id_view(r) == opt_id_view(*o),
{
    match o {
        Some(x) => Some(x.duplicate()),
        None => None,
    }
}

/// A function expression whose body starts with `var innerLoader = ...`
/// and has `return innerLoader` as its third statement: a loader that was
/// wrapped already.
pub open spec fn is_inner_loader(f: FnExprView) -> bool {
    match f.body {
        Some(s) => {
            &&& s.len() >= 3
            &&& (s[0] matches BodyStmtView::Var { first_name: Some(n) } && n == "innerLoader"@)
            &&& (s[2] matches BodyStmtView::Return { arg_ident: Some(m) } && m == "innerLoader"@)
        },
        None => false,
    }
}

pub open spec fn is_duplicate_inner_loader(e: LoaderExprView) -> bool {
    match e {
        LoaderExprView::Fn(f) => is_inner_loader(f),
        _ => false,
    }
}

fn is_inner_loader_fn(f: &FnExpr) -> (r: bool)
    ensures
        r == is_inner_loader(f@),
{
    match &f.body {
        None => false,
        Some(stmts) => {
            if stmts.len() < 3 {
                return false;
            }
            let first = match &stmts[0] {
                BodyStmt::Var { first_name: Some(n) } => str_eq(n.as_str(), "innerLoader"),
                _ => false,
            };
            let ret = match &stmts[2] {
                BodyStmt::Return { arg_ident: Some(n) } => str_eq(n.as_str(), "innerLoader"),
                _ => false,
            };
            first && ret
        },
    }
}

/// The loader wrapped so that it carries `id`.
pub open spec fn wrap(e: LoaderExprView, id: Seq<char>) -> LoaderExprView {
    LoaderExprView::SelfInvoke { loader: Box::new(e), id }
}

/// The part of the state that the transform reads and changes.
pub struct LoaderStateView {
    pub idx: nat,
    pub hash: Seq<u8>,
    pub use_loader: Option<IdView>,
    pub create_container: Option<IdView>,
    pub use_static_loader: Option<IdView>,
}

/// The counter of loaders, the file's digest and the local names of the
/// runtime's loader functions found so far.
pub struct SSRLoaderIdState {
    pub idx: usize,
    pub hash: Vec<u8>,
    pub use_loader: Option<Id>,
    pub create_container: Option<Id>,
    pub use_static_loader: Option<Id>,
}

impl View for SSRLoaderIdState {
    type V = LoaderStateView;

    open spec fn view(&self) -> LoaderStateView {
        LoaderStateView {
            idx: self.idx as nat,
            hash: self.hash@,
            use_loader: opt_id_view(self.use_loader),
            create_container: opt_id_view(self.create_container),
            use_static_loader: opt_id_view(self.use_static_loader),
        }
    }
}

/// The local binding and the exported name of a named import specifier.
pub open spec fn named_import(s: ImportSpecifierView) -> Option<(IdView, Seq<char>)> {
    match s {
        ImportSpecifierView::Named { local, imported, .. } => Some((
            local,
            match imported {
                Some(ModuleExportNameView::Ident(id)) => id.sym,
                _ => local.sym,
            },
        )),
        _ => None,
    }
}

/// A slot that is still empty takes `local` when `name` is the wanted one.
pub open spec fn claim(slot: Option<IdView>, wanted: Option<Seq<char>>, name: Seq<char>, local: IdView) -> Option<IdView> {
    match wanted {
        Some(w) => if name == w && slot is None { Some(local) } else { slot },
        None => slot,
    }
}

pub open spec fn specifier_step(config: SSRLoaderIdConfig, st: LoaderStateView, s: ImportSpecifierView) -> LoaderStateView {
    match named_import(s) {
        Some((local, name)) => LoaderStateView {
            use_loader: claim(st.use_loader, opt_str_view(config.function_use_loader_name), name, local),
            use_static_loader: claim(st.use_static_loader, opt_str_view(config.function_use_static_loader_name), name, local),
            create_container: claim(st.create_container, opt_str_view(config.function_create_container_name), name, local),
            ..st
        },
        None => st,
    }
}

/// The state after the first `n` specifiers.
pub open spec fn specifiers_step(config: SSRLoaderIdConfig, st: LoaderStateView, specs: Seq<ImportSpecifierView>, n: int) -> LoaderStateView
    decreases n,
{
    if n <= 0 {
        st
    } else {
        specifier_step(config, specifiers_step(config, st, specs, n - 1), specs[n - 1])
    }
}

/// A function that is asked for has been found.
pub open spec fn slot_filled(slot: Option<IdView>, wanted: Option<String>) -> bool {
    wanted is Some ==> slot is Some
}

/// An import from the runtime package records the local names of the loader
/// functions that were not found before.
pub open spec fn import_step(config: SSRLoaderIdConfig, st: LoaderStateView, d: ImportDeclView) -> LoaderStateView {
    if d.src != config.runtime_package_name@ {
        st
    } else if slot_filled(st.use_loader, config.function_use_loader_name)
        && slot_filled(st.use_static_loader, config.function_use_static_loader_name)
        && slot_filled(st.create_container, config.function_create_container_name) {
        st
    } else {
        specifiers_step(config, st, d.specifiers, d.specifiers.len() as int)
    }
}

/// `call` calls the function bound to `name` with at least one argument.
pub open spec fn calls(call: CallExprView, name: Option<IdView>) -> bool {
    &&& name is Some
    &&& call.callee == CalleeView::Ident(name.unwrap())
    &&& call.args.len() > 0
}

/// An argument that can be given an id: a function, call, identifier,
/// member or arrow expression.
pub open spec fn is_loadable(a: ArgView) -> bool {
    match a {
        ArgView::Expr(e) => !(e is Other),
        ArgView::Object(_) => false,
    }
}

/// A loader call whose first argument cannot be given an id is refused.
pub open spec fn loader_call_ok(call: CallExprView, name: Option<IdView>) -> bool {
    calls(call, name) ==> is_loadable(call.args[0])
}

/// A call of a loader function has its first argument wrapped with the
/// next id, unless it is wrapped already.
pub open spec fn loader_call_step(hash: Seq<u8>, idx: nat, call: CallExprView, name: Option<IdView>) -> (CallExprView, nat) {
    if calls(call, name) {
        match call.args[0] {
            ArgView::Expr(e) => if is_duplicate_inner_loader(e) {
                (call, idx)
            } else {
                (CallExprView { args: call.args.update(0, ArgView::Expr(wrap(e, loader_id(hash, idx)))), ..call }, idx + 1)
            },
            ArgView::Object(_) => (call, idx),
        }
    } else {
        (call, idx)
    }
}

/// `loader` and `staticLoader`, as identifier or string keys.
pub open spec fn is_loader_key(k: PropKeyView) -> bool {
    match k {
        PropKeyView::Ident(n) => n == "loader"@ || n == "staticLoader"@,
        PropKeyView::Str(n) => n == "loader"@ || n == "staticLoader"@,
        PropKeyView::Other(_) => false,
    }
}

/// A loader property of the container options gets the next id.
pub open spec fn prop_step(hash: Seq<u8>, p: ObjectPropView, idx: nat) -> (ObjectPropView, nat) {
    match p {
        ObjectPropView::Method { key, function } => if is_loader_key(key) && !is_inner_loader(function) {
            (ObjectPropView::KeyValue { key, value: wrap(LoaderExprView::Fn(function), loader_id(hash, idx)) }, idx + 1)
        } else {
            (p, idx)
        },
        ObjectPropView::KeyValue { key, value } => if is_loader_key(key) && !is_duplicate_inner_loader(value) {
            (ObjectPropView::KeyValue { key, value: wrap(value, loader_id(hash, idx)) }, idx + 1)
        } else {
            (p, idx)
        },
        ObjectPropView::Other(_) => (p, idx),
    }
}

/// The first `n` properties, handled in order, and the next id number.
pub open spec fn props_step(hash: Seq<u8>, props: Seq<ObjectPropView>, idx: nat, n: int) -> (Seq<ObjectPropView>, nat)
    decreases n,
{
    if n <= 0 {
        (Seq::empty(), idx)
    } else {
        let (prev, j) = props_step(hash, props, idx, n - 1);
        let (q, k) = prop_step(hash, props[n - 1], j);
        (prev.push(q), k)
    }
}

/// A `createContainer` call whose first argument is an object literal has
/// its loader properties wrapped.
pub open spec fn container_call_step(hash: Seq<u8>, idx: nat, call: CallExprView, name: Option<IdView>) -> (CallExprView, nat) {
    if calls(call, name) {
        match call.args[0] {
            ArgView::Object(props) => {
                let (ps, j) = props_step(hash, props, idx, props.len() as int);
                (CallExprView { args: call.args.update(0, ArgView::Object(ps)), ..call }, j)
            },
            ArgView::Expr(_) => (call, idx),
        }
    } else {
        (call, idx)
    }
}

pub open spec fn container_call_matches(call: CallExprView, name: Option<IdView>) -> bool {
    calls(call, name) && call.args[0] is Object
}

/// How many ids a call may take at most.
pub open spec fn ids_bound(call: CallExprView) -> nat {
    if call.args.len() > 0 {
        match call.args[0] {
            ArgView::Object(p) => p.len(),
            ArgView::Expr(_) => 2,
        }
    } else {
        0
    }
}

/// One call of the module: both loader functions, then `createContainer`.
pub open spec fn call_step(st: LoaderStateView, call: CallExprView) -> (CallExprView, nat) {
    let (c1, i1) = loader_call_step(st.hash, st.idx, call, st.use_loader);
    let (c2, i2) = loader_call_step(st.hash, i1, c1, st.use_static_loader);
    container_call_step(st.hash, i2, c2, st.create_container)
}

proof fn lemma_props_step_bounds(hash: Seq<u8>, props: Seq<ObjectPropView>, idx: nat, n: int)
    requires
        0 <= n <= props.len(),
    ensures
        idx <= props_step(hash, props, idx, n).1 <= idx + n,
        props_step(hash, props, idx, n).0.len() == n,
    decreases n,
{
    if n > 0 {
        lemma_props_step_bounds(hash, props, idx, n - 1);
    }
}

pub struct PluginSSRLoaderId {
    pub config: SSRLoaderIdConfig,
    pub state: SSRLoaderIdState,
}

impl PluginSSRLoaderId {
    /// A fresh transform for the file `filename`; its ids are built from
    /// the digest of the file name relative to `cwd`.
    pub fn new(filename: String, cwd: &str, config: SSRLoaderIdConfig) -> (r: PluginSSRLoaderId)
        ensures
            r.config == config,
            r.state@ == (LoaderStateView {
                idx: 0,
                hash: file_hash(filename@, cwd@),
                use_loader: None,
                create_container: None,
                use_static_loader: None,
            }),
    {
        let hash = hash_file_name(filename.as_str(), cwd);
        PluginSSRLoaderId {
            config,
            state: SSRLoaderIdState { idx: 0, hash, use_loader: None, create_container: None, use_static_loader: None },
        }
    }

    /// The next id.
    pub fn generate_id(&mut self) -> (r: String)
        requires
            old(self).state.idx < usize::MAX,
        ensures
            r@ == loader_id(old(self).state.hash@, old(self).state.idx as nat),
            final(self).state@ == (LoaderStateView { idx: old(self).state@.idx + 1, ..old(self).state@ }),
            final(self).config == old(self).config,
    {
        let number = self.state.idx;
        self.state.idx = self.state.idx + 1;
        format_loader_id(&self.state.hash, number)
    }

    /// The loader, wrapped so that it carries the next id.
    pub fn create_loader_expression(&mut self, loader: LoaderExpr) -> (r: LoaderExpr)
        requires
            old(self).state.idx < usize::MAX,
        ensures
            r@ == wrap(loader@, loader_id(old(self).state.hash@, old(self).state.idx as nat)),
            final(self).state@ == (LoaderStateView { idx: old(self).state@.idx + 1, ..old(self).state@ }),
            final(self).config == old(self).config,
    {
        let id = self.generate_id();
        LoaderExpr::SelfInvoke { loader: Box::new(loader), id }
    }

    /// `Some` exactly for a loader that was wrapped already.
    pub fn check_is_duplicate_inner_loader(&self, loader: &LoaderExpr) -> (r: Option<()>)
        ensures
            r is Some <==> is_duplicate_inner_loader(loader@),
    {
        match loader {
            LoaderExpr::Fn(f) => if is_inner_loader_fn(f) { Some(()) } else { None },
            _ => None,
        }
    }
}


fn claim_slot(slot: &mut Option<Id>, wanted: &Option<String>, name: &str, local: &Id)
    ensures
        opt_id_view(*final(slot)) == claim(opt_id_view(*old(slot)), opt_str_view(*wanted), name@, local@),
{
    match wanted {
        Some(w) => {
            if slot.is_none() && str_eq(name, w.as_str()) {
                *slot = Some(local.duplicate());
            }
        },
        None => {},
    }
}

fn is_loader_key_exec(k: &PropKey) -> (r: bool)
    ensures
        r == is_loader_key(k@),
{
    match k {
        PropKey::Ident(n) => str_eq(n.as_str(), "loader") || str_eq(n.as_str(), "staticLoader"),
        PropKey::Str(n) => str_eq(n.as_str(), "loader") || str_eq(n.as_str(), "staticLoader"),
        PropKey::Other(_) => false,
    }
}

fn callee_is(call: &CallExpr, name: &Id) -> (r: bool)
    ensures
        r == (call.callee@ == CalleeView::Ident(name@)),
{
    match &call.callee {
        Callee::Ident(id) => id.same(name),
        Callee::Other(_) => false,
    }
}

impl PluginSSRLoaderId {
    /// Records the local names under which an import from the runtime
    /// package binds the loader functions.
    pub fn visit_mut_import_decl(&mut self, import_decl: &ImportDecl)
        ensures
            final(self).state@ == import_step(old(self).config, old(self).state@, import_decl@),
            final(self).config == old(self).config,
    {
        if !str_eq(import_decl.src.as_str(), self.config.runtime_package_name.as_str()) {
            return;
        }
        let has_use_loader = self.config.function_use_loader_name.is_none() || self.state.use_loader.is_some();
        let has_use_static_loader = self.config.function_use_static_loader_name.is_none() || self.state.use_static_loader.is_some();
        let has_create_container = self.config.function_create_container_name.is_none() || self.state.create_container.is_some();
        if has_use_loader && has_use_static_loader && has_create_container {
            return;
        }
        let ghost st0 = self.state@;
        let ghost specs = import_decl@.specifiers;
        let mut k: usize = 0;
        while k < import_decl.specifiers.len()
            invariant
                k <= import_decl.specifiers@.len(),
                specs == import_decl@.specifiers,
                self.config == old(self).config,
                self.state@ == specifiers_step(self.config, st0, specs, k as int),
            decreases import_decl.specifiers@.len() - k,
        {
            match &import_decl.specifiers[k] {
                crate::ast::ImportSpecifier::Named(n) => {
                    let name: &String = match &n.imported {
                        Some(crate::ast::ModuleExportName::Ident(id)) => &id.sym,
                        _ => &n.local.sym,
                    };
                    claim_slot(&mut self.state.use_loader, &self.config.function_use_loader_name, name.as_str(), &n.local);
                    claim_slot(&mut self.state.use_static_loader, &self.config.function_use_static_loader_name, name.as_str(), &n.local);
                    claim_slot(&mut self.state.create_container, &self.config.function_create_container_name, name.as_str(), &n.local);
                },
                _ => {},
            }
            k = k + 1;
        }
    }

    /// Wraps the first argument of a call of the loader function bound to
    /// `import_func_name`; `Some` exactly when the call is one.
    pub fn modify_loader_call_expr(&mut self, call_expr: &mut CallExpr, import_func_name: &Option<Id>) -> (r: Option<()>)
        requires
            loader_call_ok(old(call_expr)@, opt_id_view(*import_func_name)),
            calls(old(call_expr)@, opt_id_view(*import_func_name)) ==> old(self).state.idx < usize::MAX,
        ensures
            r is Some <==> calls(old(call_expr)@, opt_id_view(*import_func_name)),
            ({
                let (c, j) = loader_call_step(old(self).state@.hash, old(self).state@.idx, old(call_expr)@, opt_id_view(*import_func_name));
                &&& final(call_expr)@ == c
                &&& final(self).state@ == (LoaderStateView { idx: j, ..old(self).state@ })
            }),
            final(self).config == old(self).config,
    {
        let func_name = match import_func_name {
            Some(n) => n,
            None => return None,
        };
        if !callee_is(call_expr, func_name) {
            return None;
        }
        if call_expr.args.len() == 0 {
            return None;
        }
        let ghost old_args = call_expr.args@;
        let mut args: Vec<Arg> = Vec::new();
        std::mem::swap(&mut args, &mut call_expr.args);
        let a0 = args.remove(0);
        let new0 = match a0 {
            Arg::Expr(e) => {
                if self.check_is_duplicate_inner_loader(&e).is_none() {
                    Arg::Expr(self.create_loader_expression(e))
                } else {
                    Arg::Expr(e)
                }
            },
            other => other,
        };
        args.insert(0, new0);
        assert(args_view(args@) =~= args_view(old_args).update(0, new0@));
        assert(new0@ == args_view(old_args)[0] ==> args_view(args@) =~= args_view(old_args));
        call_expr.args = args;
        Some(())
    }

    fn process_prop(&mut self, p: ObjectProp) -> (r: ObjectProp)
        requires
            old(self).state.idx < usize::MAX,
        ensures
            ({
                let (q, j) = prop_step(old(self).state@.hash, p@, old(self).state@.idx);
                &&& r@ == q
                &&& final(self).state@ == (LoaderStateView { idx: j, ..old(self).state@ })
            }),
            final(self).config == old(self).config,
    {
        match p {
            ObjectProp::Method { key, function } => {
                if is_loader_key_exec(&key) && !is_inner_loader_fn(&function) {
                    let value = self.create_loader_expression(LoaderExpr::Fn(function));
                    ObjectProp::KeyValue { key, value }
                } else {
                    ObjectProp::Method { key, function }
                }
            },
            ObjectProp::KeyValue { key, value } => {
                if is_loader_key_exec(&key) && self.check_is_duplicate_inner_loader(&value).is_none() {
                    let value = self.create_loader_expression(value);
                    ObjectProp::KeyValue { key, value }
                } else {
                    ObjectProp::KeyValue { key, value }
                }
            },
            ObjectProp::Other(h) => ObjectProp::Other(h),
        }
    }

    /// Wraps the `loader` and `staticLoader` properties of the options of a
    /// call of the container function bound to `import_func_name`; `Some`
    /// exactly when the call is one and its first argument is an object.
    pub fn modify_create_container_call_expr(&mut self, call_expr: &mut CallExpr, import_func_name: &Option<Id>) -> (r: Option<()>)
        requires
            container_call_matches(old(call_expr)@, opt_id_view(*import_func_name)) ==> old(self).state.idx
                + ids_bound(old(call_expr)@) <= usize::MAX,
        ensures
            r is Some <==> container_call_matches(old(call_expr)@, opt_id_view(*import_func_name)),
            ({
                let (c, j) = container_call_step(old(self).state@.hash, old(self).state@.idx, old(call_expr)@, opt_id_view(*import_func_name));
                &&& final(call_expr)@ == c
                &&& final(self).state@ == (LoaderStateView { idx: j, ..old(self).state@ })
            }),
            final(self).config == old(self).config,
    {
        let func_name = match import_func_name {
            Some(n) => n,
            None => return None,
        };
        if !callee_is(call_expr, func_name) {
            return None;
        }
        if call_expr.args.len() == 0 {
            return None;
        }
        let is_object = match &call_expr.args[0] {
            Arg::Object(_) => true,
            Arg::Expr(_) => false,
        };
        if !is_object {
            return None;
        }
        let ghost old_args = call_expr.args@;
        let ghost st0 = self.state@;
        let mut args: Vec<Arg> = Vec::new();
        std::mem::swap(&mut args, &mut call_expr.args);
        let a0 = args.remove(0);
        let props = match a0 {
            Arg::Object(p) => p,
            Arg::Expr(_) => Vec::new(),
        };
        let ghost pv = props_view(props@);
        let ghost orig = props@;
        let n = props.len();
        let mut rest = crate::ast::reversed(props);
        let mut out: Vec<ObjectProp> = Vec::new();
        let mut k: usize = 0;
        while k < n
            invariant
                n == orig.len(),
                pv == props_view(orig),
                k <= n,
                rest@ == Seq::new((n - k) as nat, |t: int| orig[n - 1 - t]),
                st0.idx + n <= usize::MAX,
                self.config == old(self).config,
                ({
                    let (ps, j) = props_step(st0.hash, pv, st0.idx, k as int);
                    &&& props_view(out@) == ps
                    &&& self.state@ == (LoaderStateView { idx: j, ..st0 })
                }),
            decreases n - k,
        {
            let p = rest.pop().unwrap();
            assert(p == orig[k as int]);
            assert(rest@ =~= Seq::new((n - k - 1) as nat, |t: int| orig[n - 1 - t]));
            proof {
                lemma_props_step_bounds(st0.hash, pv, st0.idx, k as int);
            }
            let q = self.process_prop(p);
            let ghost before = out@;
            out.push(q);
            assert(props_view(out@) =~= props_view(before).push(q@));
            k = k + 1;
        }
        let ghost new0 = ArgView::Object(props_view(out@));
        args.insert(0, Arg::Object(out));
        assert(args_view(args@) =~= args_view(old_args).update(0, new0));
        call_expr.args = args;
        Some(())
    }

    /// A call expression of the module: the two loader functions, then the
    /// container function.
    pub fn visit_mut_call_expr(&mut self, call_expr: &mut CallExpr)
        requires
            loader_call_ok(old(call_expr)@, old(self).state@.use_loader),
            loader_call_ok(old(call_expr)@, old(self).state@.use_static_loader),
            old(self).state.idx + ids_bound(old(call_expr)@) <= usize::MAX,
        ensures
            ({
                let (c, j) = call_step(old(self).state@, old(call_expr)@);
                &&& final(call_expr)@ == c
                &&& final(self).state@ == (LoaderStateView { idx: j, ..old(self).state@ })
            }),
            final(self).config == old(self).config,
    {
        let use_loader = clone_opt_id(&self.state.use_loader);
        let use_static_loader = clone_opt_id(&self.state.use_static_loader);
        let create_container = clone_opt_id(&self.state.create_container);
        let ghost c0 = call_expr@;
        self.modify_loader_call_expr(call_expr, &use_loader);
        assert(call_expr@.callee == c0.callee);
        assert(call_expr@.args.len() == c0.args.len());
        assert(loader_call_ok(call_expr@, opt_id_view(use_static_loader)));
        self.modify_loader_call_expr(call_expr, &use_static_loader);
        self.modify_create_container_call_expr(call_expr, &create_container);
    }
}

/// The transform for one file, built from its name and the working
/// directory.
pub fn plugin_ssr_loader_id(config: &SSRLoaderIdConfig, filename: &str, cwd: &str) -> (r: PluginSSRLoaderId)
    ensures
        r.config == *config,
        r.state@ == (LoaderStateView {
            idx: 0,
            hash: file_hash(filename@, cwd@),
            use_loader: None,
            create_container: None,
            use_static_loader: None,
        }),
{
    PluginSSRLoaderId::new(crate::text::to_owned_string(filename), cwd, config.duplicate())
}


/// Loaders numbered differently in one file get different ids.
pub proof fn law_loader_ids_distinct(hash: Seq<u8>, i: nat, j: nat)
    requires
        i != j,
    ensures
        loader_id(hash, i) != loader_id(hash, j),
{
    let p = spec_hex(hash) + seq!['_'];
    if loader_id(hash, i) == loader_id(hash, j) {
        assert(loader_id(hash, i).skip(p.len() as int) =~= spec_decimal(i));
        assert(loader_id(hash, j).skip(p.len() as int) =~= spec_decimal(j));
        crate::text::law_decimal_injective(i, j);
    }
}

} // verus!
