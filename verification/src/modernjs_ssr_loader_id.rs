//! Loader ids for Modern.js: every call of the `useLoader` that a module
//! imports from `@modern-js/runtime` gets its first argument wrapped with an
//! id made of the file's MD5 digest and a counter that starts at zero for
//! each module.

use vstd::prelude::*;
use crate::ast::{Id, IdView, ImportDecl, ImportDeclView, ImportSpecifier, ImportSpecifierView, ModuleExportName, ModuleExportNameView};
use crate::ssr_loader_id::{
    Callee, CalleeView, LoaderExpr, LoaderExprView, file_hash, format_loader_id, hash_file_name, loader_id, opt_id_view, wrap,
};
use crate::text::str_eq;

verus! {

/// A call, with its arguments taken as whole expressions.
pub struct UseLoaderCall {
    pub callee: Callee,
    pub args: Vec<LoaderExpr>,
}

pub struct UseLoaderCallView {
    pub callee: CalleeView,
    pub args: Seq<LoaderExprView>,
}

impl View for UseLoaderCall {
    type V = UseLoaderCallView;

    open spec fn view(&self) -> UseLoaderCallView {
        UseLoaderCallView { callee: self.callee@, args: self.args@.map_values(|e: LoaderExpr| e@) }
    }
}

/// What the transform meets in a module, in the order it visits it: the
/// imports and the outermost calls.
pub enum ModuleItem {
    Import(ImportDecl),
    Call(UseLoaderCall),
    Other(u64),
}

pub enum ModuleItemView {
    Import(ImportDeclView),
    Call(UseLoaderCallView),
    Other(u64),
}

impl View for ModuleItem {
    type V = ModuleItemView;

    open spec fn view(&self) -> ModuleItemView {
        match self {
            ModuleItem::Import(d) => ModuleItemView::Import(d@),
            ModuleItem::Call(c) => ModuleItemView::Call(c@),
            ModuleItem::Other(h) => ModuleItemView::Other(*h),
        }
    }
}

pub open spec fn items_view(v: Seq<ModuleItem>) -> Seq<ModuleItemView> {
    v.map_values(|x: ModuleItem| x@)
}

/// The name under which a named specifier imports: its `imported` name
/// when that is an identifier, its local name when there is none.
pub open spec fn imported_name(s: ImportSpecifierView) -> Option<Seq<char>> {
    match s {
        ImportSpecifierView::Named { local, imported, .. } => match imported {
            Some(ModuleExportNameView::Ident(id)) => Some(id.sym),
            Some(ModuleExportNameView::Str(_)) => None,
            None => Some(local.sym),
        },
        _ => None,
    }
}

/// The local binding of `useLoader` after the first `n` specifiers of an
/// import from the runtime; the last one wins.
pub open spec fn specs_use_loader(specs: Seq<ImportSpecifierView>, found: Option<IdView>, n: int) -> Option<IdView>
    decreases n,
{
    if n <= 0 {
        found
    } else {
        let prev = specs_use_loader(specs, found, n - 1);
        if imported_name(specs[n - 1]) == Some("useLoader"@) {
            match specs[n - 1] {
                ImportSpecifierView::Named { local, .. } => Some(local),
                _ => prev,
            }
        } else {
            prev
        }
    }
}

pub open spec fn import_use_loader(d: ImportDeclView, found: Option<IdView>) -> Option<IdView> {
    if d.src == "@modern-js/runtime"@ {
        specs_use_loader(d.specifiers, found, d.specifiers.len() as int)
    } else {
        found
    }
}

/// The binding of `useLoader` after the first `n` items.
pub open spec fn find_use_loader(items: Seq<ModuleItemView>, n: int) -> Option<IdView>
    decreases n,
{
    if n <= 0 {
        None
    } else {
        let prev = find_use_loader(items, n - 1);
        match items[n - 1] {
            ModuleItemView::Import(d) => import_use_loader(d, prev),
            _ => prev,
        }
    }
}

/// A call of `use_loader` with an argument has that argument wrapped with
/// the next id.
pub open spec fn call_step(hash: Seq<u8>, use_loader: IdView, c: UseLoaderCallView, idx: nat) -> (UseLoaderCallView, nat) {
    if c.callee == CalleeView::Ident(use_loader) && c.args.len() > 0 {
        (UseLoaderCallView { args: c.args.update(0, wrap(c.args[0], loader_id(hash, idx))), ..c }, idx + 1)
    } else {
        (c, idx)
    }
}

/// The first `n` items after the calls among them were handled, and the
/// next id number.
pub open spec fn items_step(hash: Seq<u8>, use_loader: IdView, items: Seq<ModuleItemView>, n: int) -> (Seq<ModuleItemView>, nat)
    decreases n,
{
    if n <= 0 {
        (Seq::empty(), 0)
    } else {
        let (prev, j) = items_step(hash, use_loader, items, n - 1);
        match items[n - 1] {
            ModuleItemView::Call(c) => {
                let (d, k) = call_step(hash, use_loader, c, j);
                (prev.push(ModuleItemView::Call(d)), k)
            },
            x => (prev.push(x), j),
        }
    }
}

proof fn lemma_items_step_bounds(hash: Seq<u8>, use_loader: IdView, items: Seq<ModuleItemView>, n: int)
    requires
        0 <= n <= items.len(),
    ensures
        items_step(hash, use_loader, items, n).1 <= n,
        items_step(hash, use_loader, items, n).0.len() == n,
    decreases n,
{
    if n > 0 {
        lemma_items_step_bounds(hash, use_loader, items, n - 1);
    }
}

/// The module after the transform: unchanged when it does not import
/// `useLoader` from the runtime.
pub open spec fn spec_transform(filename: Seq<char>, cwd: Seq<char>, items: Seq<ModuleItemView>) -> Seq<ModuleItemView> {
    match find_use_loader(items, items.len() as int) {
        Some(ul) => items_step(file_hash(filename, cwd), ul, items, items.len() as int).0,
        None => items,
    }
}

pub struct PluginModernJsSSRLoaderId {
    pub filename: String,
    pub cwd: String,
    pub hash: Option<Vec<u8>>,
    pub use_loader_local: Option<Id>,
    pub idx: usize,
}

pub open spec fn opt_hash_view(o: Option<Vec<u8>>) -> Option<Seq<u8>> {
    match o {
        Some(h) => Some(h@),
        None => None,
    }
}

fn clone_hash(h: &Vec<u8>) -> (r: Vec<u8>)
    ensures
        r@ == h@,
{
    let mut r: Vec<u8> = Vec::new();
    let mut k: usize = 0;
    while k < h.len()
        invariant
            k <= h@.len(),
            r@ == h@.take(k as int),
        decreases h@.len() - k,
    {
        r.push(h[k]);
        assert(r@ =~= h@.take(k + 1));
        k = k + 1;
    }
    assert(h@.take(h@.len() as int) =~= h@);
    r
}

fn named_use_loader(s: &ImportSpecifier) -> (r: Option<&Id>)
    ensures
        match r {
            Some(id) => imported_name(s@) == Some("useLoader"@) && s@ is Named && id@ == s.local_view(),
            None => imported_name(s@) != Some("useLoader"@),
        },
{
    match s {
        ImportSpecifier::Named(n) => {
            let is_use_loader = match &n.imported {
                Some(ModuleExportName::Ident(id)) => str_eq(id.sym.as_str(), "useLoader"),
                Some(ModuleExportName::Str(_)) => false,
                None => str_eq(n.local.sym.as_str(), "useLoader"),
            };
            if is_use_loader { Some(&n.local) } else { None }
        },
        _ => None,
    }
}

/// Finds the local binding of the runtime's `useLoader`.
fn analyze_use_loader(items: &Vec<ModuleItem>) -> (r: Option<Id>)
    ensures
        opt_id_view(r) == find_use_loader(items_view(items@), items@.len() as int),
{
    let ghost v = items_view(items@);
    let mut found: Option<Id> = None;
    let mut i: usize = 0;
    while i < items.len()
        invariant
            v == items_view(items@),
            i <= items@.len(),
            opt_id_view(found) == find_use_loader(v, i as int),
        decreases items@.len() - i,
    {
        match &items[i] {
            ModuleItem::Import(d) => {
                if str_eq(d.src.as_str(), "@modern-js/runtime") {
                    let ghost before = found;
                    let ghost specs = d@.specifiers;
                    let mut k: usize = 0;
                    while k < d.specifiers.len()
                        invariant
                            specs == d@.specifiers,
                            k <= d.specifiers@.len(),
                            opt_id_view(found) == specs_use_loader(specs, opt_id_view(before), k as int),
                        decreases d.specifiers@.len() - k,
                    {
                        match named_use_loader(&d.specifiers[k]) {
                            Some(id) => {
                                found = Some(id.duplicate());
                            },
                            None => {},
                        }
                        k = k + 1;
                    }
                }
            },
            _ => {},
        }
        i = i + 1;
    }
    found
}

impl PluginModernJsSSRLoaderId {
    pub fn reset_state(&mut self)
        ensures
            final(self).hash is None,
            final(self).use_loader_local is None,
            final(self).idx == 0,
            final(self).filename@ == old(self).filename@,
            final(self).cwd@ == old(self).cwd@,
    {
        self.hash = None;
        self.use_loader_local = None;
        self.idx = 0;
    }

    /// The digest of the file name relative to the working directory,
    /// computed once.
    pub fn get_hash(&mut self) -> (r: Vec<u8>)
        ensures
            r@ == match opt_hash_view(old(self).hash) {
                Some(h) => h,
                None => file_hash(old(self).filename@, old(self).cwd@),
            },
            opt_hash_view(final(self).hash) == Some(r@),
            final(self).use_loader_local == old(self).use_loader_local,
            final(self).idx == old(self).idx,
            final(self).filename@ == old(self).filename@,
            final(self).cwd@ == old(self).cwd@,
    {
        match &self.hash {
            Some(h) => clone_hash(h),
            None => {
                let h = hash_file_name(self.filename.as_str(), self.cwd.as_str());
                self.hash = Some(clone_hash(&h));
                h
            },
        }
    }

    /// The next id.
    pub fn get_id(&mut self) -> (r: String)
        requires
            old(self).idx < usize::MAX,
        ensures
            r@ == loader_id(
                match opt_hash_view(old(self).hash) {
                    Some(h) => h,
                    None => file_hash(old(self).filename@, old(self).cwd@),
                },
                old(self).idx as nat,
            ),
            final(self).idx == old(self).idx + 1,
            opt_hash_view(final(self).hash) == Some(match opt_hash_view(old(self).hash) {
                Some(h) => h,
                None => file_hash(old(self).filename@, old(self).cwd@),
            }),
            final(self).use_loader_local == old(self).use_loader_local,
            final(self).filename@ == old(self).filename@,
            final(self).cwd@ == old(self).cwd@,
    {
        let idx = self.idx;
        self.idx = self.idx + 1;
        let h = self.get_hash();
        format_loader_id(&h, idx)
    }

    /// The loader, wrapped so that it carries the next id.
    pub fn get_self_invoke_expr(&mut self, loader: LoaderExpr) -> (r: LoaderExpr)
        requires
            old(self).idx < usize::MAX,
        ensures
            r@ == wrap(
                loader@,
                loader_id(
                    match opt_hash_view(old(self).hash) {
                        Some(h) => h,
                        None => file_hash(old(self).filename@, old(self).cwd@),
                    },
                    old(self).idx as nat,
                ),
            ),
            final(self).idx == old(self).idx + 1,
            opt_hash_view(final(self).hash) == Some(match opt_hash_view(old(self).hash) {
                Some(h) => h,
                None => file_hash(old(self).filename@, old(self).cwd@),
            }),
            final(self).use_loader_local == old(self).use_loader_local,
            final(self).filename@ == old(self).filename@,
            final(self).cwd@ == old(self).cwd@,
    {
        let id = self.get_id();
        LoaderExpr::SelfInvoke { loader: Box::new(loader), id }
    }
}


impl PluginModernJsSSRLoaderId {
    /// The digest that the ids are built from: the one computed already,
    /// or that of the file name.
    pub open spec fn current_hash(self) -> Seq<u8> {
        match opt_hash_view(self.hash) {
            Some(h) => h,
            None => file_hash(self.filename@, self.cwd@),
        }
    }

    /// A call of the recorded `useLoader` with an argument has that argument
    /// wrapped with the next id; calls nested in it are not visited.
    pub fn visit_mut_call_expr(&mut self, call_expr: &mut UseLoaderCall)
        requires
            old(self).idx < usize::MAX,
        ensures
            match opt_id_view(old(self).use_loader_local) {
                Some(ul) => {
                    let (c, j) = call_step(old(self).current_hash(), ul, old(call_expr)@, old(self).idx as nat);
                    &&& final(call_expr)@ == c
                    &&& final(self).idx == j
                },
                None => final(call_expr)@ == old(call_expr)@ && final(self).idx == old(self).idx,
            },
            final(self).current_hash() == old(self).current_hash(),
            final(self).hash is Some || final(self).hash == old(self).hash,
            final(self).use_loader_local == old(self).use_loader_local,
            final(self).filename@ == old(self).filename@,
            final(self).cwd@ == old(self).cwd@,
    {
        let matches = match &self.use_loader_local {
            Some(ul) => match &call_expr.callee {
                Callee::Ident(id) => id.same(ul),
                Callee::Other(_) => false,
            },
            None => false,
        };
        if matches && call_expr.args.len() > 0 {
            let ghost old_args = call_expr@.args;
            let mut args: Vec<LoaderExpr> = Vec::new();
            std::mem::swap(&mut args, &mut call_expr.args);
            let a0 = args.remove(0);
            let w = self.get_self_invoke_expr(a0);
            let ghost wv = w@;
            args.insert(0, w);
            assert(args@.map_values(|e: LoaderExpr| e@) =~= old_args.update(0, wv));
            call_expr.args = args;
        }
    }

    /// Resets the state, finds the runtime's `useLoader` and, when the
    /// module imports it, wraps the first argument of each of its calls,
    /// numbering them from zero.
    pub fn visit_mut_module(&mut self, module: &mut Vec<ModuleItem>)
        requires
            old(module)@.len() < usize::MAX,
        ensures
            items_view(final(module)@) == spec_transform(old(self).filename@, old(self).cwd@, items_view(old(module)@)),
            opt_id_view(final(self).use_loader_local) == find_use_loader(items_view(old(module)@), old(module)@.len() as int),
            match find_use_loader(items_view(old(module)@), old(module)@.len() as int) {
                Some(ul) => {
                    &&& opt_hash_view(final(self).hash) == Some(file_hash(old(self).filename@, old(self).cwd@))
                    &&& final(self).idx == items_step(
                        file_hash(old(self).filename@, old(self).cwd@),
                        ul,
                        items_view(old(module)@),
                        old(module)@.len() as int,
                    ).1
                },
                None => final(self).hash is None && final(self).idx == 0,
            },
            final(self).filename@ == old(self).filename@,
            final(self).cwd@ == old(self).cwd@,
    {
        self.reset_state();
        let found = analyze_use_loader(module);
        let ul = match found {
            Some(ul) => ul,
            None => return,
        };
        let h = self.get_hash();
        self.hash = Some(h);
        self.use_loader_local = Some(ul);
        let ghost hash = file_hash(self.filename@, self.cwd@);
        let ghost ulv = opt_id_view(self.use_loader_local).unwrap();
        let mut body: Vec<ModuleItem> = Vec::new();
        std::mem::swap(&mut body, module);
        let ghost orig = body@;
        let ghost v = items_view(orig);
        let n = body.len();
        let mut rest = crate::ast::reversed(body);
        let mut out: Vec<ModuleItem> = Vec::new();
        let mut i: usize = 0;
        while i < n
            invariant
                n == orig.len(),
                n < usize::MAX,
                v == items_view(orig),
                i <= n,
                rest@ == Seq::new((n - i) as nat, |t: int| orig[n - 1 - t]),
                opt_hash_view(self.hash) == Some(hash),
                hash == file_hash(self.filename@, self.cwd@),
                self.filename@ == old(self).filename@,
                self.cwd@ == old(self).cwd@,
                opt_id_view(self.use_loader_local) == Some(ulv),
                ({
                    let (ps, j) = items_step(hash, ulv, v, i as int);
                    &&& items_view(out@) == ps
                    &&& self.idx == j
                }),
            decreases n - i,
        {
            let item = rest.pop().unwrap();
            assert(item == orig[i as int]);
            assert(rest@ =~= Seq::new((n - i - 1) as nat, |t: int| orig[n - 1 - t]));
            proof {
                lemma_items_step_bounds(hash, ulv, v, i as int);
            }
            let x = match item {
                ModuleItem::Call(c) => {
                    let mut c = c;
                    self.visit_mut_call_expr(&mut c);
                    ModuleItem::Call(c)
                },
                other => other,
            };
            let ghost before = out@;
            out.push(x);
            assert(items_view(out@) =~= items_view(before).push(x@));
            i = i + 1;
        }
        *module = out;
    }
}

/// The transform for one file, built from its name and the working
/// directory.
pub fn plugin_modernjs_ssr_loader_id(filename: &str, cwd: &str) -> (r: PluginModernJsSSRLoaderId)
    ensures
        r.filename@ == filename@,
        r.cwd@ == cwd@,
        r.hash is None,
        r.use_loader_local is None,
        r.idx == 0,
{
    PluginModernJsSSRLoaderId {
        filename: crate::text::to_owned_string(filename),
        cwd: crate::text::to_owned_string(cwd),
        hash: None,
        use_loader_local: None,
        idx: 0,
    }
}


proof fn lemma_no_runtime_import(items: Seq<ModuleItemView>, n: int)
    requires
        0 <= n <= items.len(),
        forall|i: int| 0 <= i < items.len() ==> !(#[trigger] items[i] matches ModuleItemView::Import(d) && d.src == "@modern-js/runtime"@),
    ensures
        find_use_loader(items, n) is None,
    decreases n,
{
    if n > 0 {
        lemma_no_runtime_import(items, n - 1);
        assert(!(items[n - 1] matches ModuleItemView::Import(d) && d.src == "@modern-js/runtime"@));
    }
}

/// Only `useLoader` imported from the runtime package is handled: a module
/// none of whose imports comes from `@modern-js/runtime` is left exactly
/// as it is, whatever its calls are named.
pub proof fn law_module_without_runtime_import_unchanged(filename: Seq<char>, cwd: Seq<char>, items: Seq<ModuleItemView>)
    requires
        forall|i: int| 0 <= i < items.len() ==> !(#[trigger] items[i] matches ModuleItemView::Import(d) && d.src == "@modern-js/runtime"@),
    ensures
        spec_transform(filename, cwd, items) == items,
{
    lemma_no_runtime_import(items, items.len() as int);
}

} // verus!
