//! Plain-value models of the parts of a JavaScript module that the transforms
//! read and write: identifiers with their syntax context, and import
//! declarations.

use vstd::prelude::*;
use crate::text::{str_eq, to_owned_string};

verus! {

/// An identifier: its symbol and the syntax context that tells apart
/// equally named bindings.
pub struct Id {
    pub sym: String,
    pub ctxt: u32,
}

pub struct IdView {
    pub sym: Seq<char>,
    pub ctxt: u32,
}

impl View for Id {
    type V = IdView;

    open spec fn view(&self) -> IdView {
        IdView { sym: self.sym@, ctxt: self.ctxt }
    }
}

impl Id {
    pub fn new(sym: &str, ctxt: u32) -> (r: Id)
        ensures
            r@ == (IdView { sym: sym@, ctxt }),
    {
        Id { sym: to_owned_string(sym), ctxt }
    }

    pub fn duplicate(&self) -> (r: Id)
        ensures
            r@ == self@,
    {
        Id { sym: self.sym.clone(), ctxt: self.ctxt }
    }

    /// Same symbol and same syntax context.
    pub fn same(&self, other: &Id) -> (r: bool)
        ensures
            r == (self@ == other@),
    {
        self.ctxt == other.ctxt && str_eq(self.sym.as_str(), other.sym.as_str())
    }
}

/// `id` is one of `ids`.
pub open spec fn contains_id(ids: Seq<Id>, id: IdView) -> bool {
    exists|k: int| 0 <= k < ids.len() && ids[k]@ == id
}

/// Whether `id` is one of `ids`.
pub fn id_in(ids: &Vec<Id>, id: &Id) -> (r: bool)
    ensures
        r == contains_id(ids@, id@),
{
    let mut k: usize = 0;
    while k < ids.len()
        invariant
            k <= ids@.len(),
            forall|j: int| 0 <= j < k ==> ids@[j]@ != id@,
        decreases ids@.len() - k,
    {
        if ids[k].same(id) {
            return true;
        }
        k = k + 1;
    }
    false
}

/// `s` is one of `list`.
pub open spec fn contains_str(list: Seq<String>, s: Seq<char>) -> bool {
    exists|k: int| 0 <= k < list.len() && list[k]@ == s
}

/// Whether `s` is one of `list`.
pub fn str_in(list: &Vec<String>, s: &str) -> (r: bool)
    ensures
        r == contains_str(list@, s@),
{
    let mut k: usize = 0;
    while k < list.len()
        invariant
            k <= list@.len(),
            forall|j: int| 0 <= j < k ==> list@[j]@ != s@,
        decreases list@.len() - k,
    {
        if str_eq(list[k].as_str(), s) {
            return true;
        }
        k = k + 1;
    }
    false
}

/// The name under which a binding is exported or imported.
pub enum ModuleExportName {
    Ident(Id),
    Str(String),
}

pub enum ModuleExportNameView {
    Ident(IdView),
    Str(Seq<char>),
}

impl View for ModuleExportName {
    type V = ModuleExportNameView;

    open spec fn view(&self) -> ModuleExportNameView {
        match self {
            ModuleExportName::Ident(id) => ModuleExportNameView::Ident(id@),
            ModuleExportName::Str(s) => ModuleExportNameView::Str(s@),
        }
    }
}

pub open spec fn opt_export_name_view(n: Option<ModuleExportName>) -> Option<ModuleExportNameView> {
    match n {
        Some(x) => Some(x@),
        None => None,
    }
}

impl ModuleExportName {
    pub fn duplicate(&self) -> (r: ModuleExportName)
        ensures
            r@ == self@,
    {
        match self {
            ModuleExportName::Ident(id) => ModuleExportName::Ident(id.duplicate()),
            ModuleExportName::Str(s) => ModuleExportName::Str(s.clone()),
        }
    }
}

/// `import { imported as local } from '...'`.
pub struct ImportNamedSpecifier {
    pub local: Id,
    pub imported: Option<ModuleExportName>,
    pub is_type_only: bool,
}

pub enum ImportSpecifier {
    Named(ImportNamedSpecifier),
    Default(Id),
    Namespace(Id),
}

pub enum ImportSpecifierView {
    Named { local: IdView, imported: Option<ModuleExportNameView>, is_type_only: bool },
    Default(IdView),
    Namespace(IdView),
}

impl View for ImportSpecifier {
    type V = ImportSpecifierView;

    open spec fn view(&self) -> ImportSpecifierView {
        match self {
            ImportSpecifier::Named(n) => ImportSpecifierView::Named {
                local: n.local@,
                imported: opt_export_name_view(n.imported),
                is_type_only: n.is_type_only,
            },
            ImportSpecifier::Default(id) => ImportSpecifierView::Default(id@),
            ImportSpecifier::Namespace(id) => ImportSpecifierView::Namespace(id@),
        }
    }
}

impl ImportSpecifier {
    /// The local binding the specifier introduces.
    pub open spec fn local_view(self) -> IdView {
        match self {
            ImportSpecifier::Named(n) => n.local@,
            ImportSpecifier::Default(id) => id@,
            ImportSpecifier::Namespace(id) => id@,
        }
    }

    pub fn local(&self) -> (r: &Id)
        ensures
            r@ == self.local_view(),
    {
        match self {
            ImportSpecifier::Named(n) => &n.local,
            ImportSpecifier::Default(id) => id,
            ImportSpecifier::Namespace(id) => id,
        }
    }

    pub fn duplicate(&self) -> (r: ImportSpecifier)
        ensures
            r@ == self@,
    {
        match self {
            ImportSpecifier::Named(n) => ImportSpecifier::Named(ImportNamedSpecifier {
                local: n.local.duplicate(),
                imported: match &n.imported {
                    Some(x) => Some(x.duplicate()),
                    None => None,
                },
                is_type_only: n.is_type_only,
            }),
            ImportSpecifier::Default(id) => ImportSpecifier::Default(id.duplicate()),
            ImportSpecifier::Namespace(id) => ImportSpecifier::Namespace(id.duplicate()),
        }
    }
}

pub open spec fn specifiers_view(s: Seq<ImportSpecifier>) -> Seq<ImportSpecifierView> {
    s.map_values(|x: ImportSpecifier| x@)
}

pub proof fn lemma_specifiers_view_push(s: Seq<ImportSpecifier>, x: ImportSpecifier)
    ensures
        specifiers_view(s.push(x)) == specifiers_view(s).push(x@),
{
    assert(specifiers_view(s.push(x)) =~= specifiers_view(s).push(x@));
}

/// `import <specifiers> from '<src>'`.
pub struct ImportDecl {
    pub src: String,
    pub specifiers: Vec<ImportSpecifier>,
    pub type_only: bool,
}

pub struct ImportDeclView {
    pub src: Seq<char>,
    pub specifiers: Seq<ImportSpecifierView>,
    pub type_only: bool,
}

impl View for ImportDecl {
    type V = ImportDeclView;

    open spec fn view(&self) -> ImportDeclView {
        ImportDeclView {
            src: self.src@,
            specifiers: specifiers_view(self.specifiers@),
            type_only: self.type_only,
        }
    }
}

impl ImportDecl {
    pub fn duplicate(&self) -> (r: ImportDecl)
        ensures
            r@ == self@,
    {
        let mut specifiers: Vec<ImportSpecifier> = Vec::new();
        let mut k: usize = 0;
        while k < self.specifiers.len()
            invariant
                k <= self.specifiers@.len(),
                specifiers_view(specifiers@) == specifiers_view(self.specifiers@.take(k as int)),
            decreases self.specifiers@.len() - k,
        {
            let ghost prev = specifiers@;
            let d = self.specifiers[k].duplicate();
            specifiers.push(d);
            proof {
                lemma_specifiers_view_push(prev, d);
                lemma_specifiers_view_push(self.specifiers@.take(k as int), self.specifiers@[k as int]);
                assert(self.specifiers@.take(k + 1) =~= self.specifiers@.take(k as int).push(self.specifiers@[k as int]));
            }
            k = k + 1;
        }
        assert(self.specifiers@.take(self.specifiers@.len() as int) =~= self.specifiers@);
        ImportDecl { src: self.src.clone(), specifiers, type_only: self.type_only }
    }
}

/// `s` in reverse order.
pub open spec fn rev_seq<A>(s: Seq<A>) -> Seq<A> {
    Seq::new(s.len(), |k: int| s[s.len() - 1 - k])
}

/// The elements of `v` in reverse order (moved, not copied).
pub fn reversed<T>(v: Vec<T>) -> (r: Vec<T>)
    ensures
        r@ == rev_seq(v@),
{
    let ghost orig = v@;
    let mut v = v;
    let mut r: Vec<T> = Vec::new();
    while v.len() > 0
        invariant
            v@ == orig.take(v@.len() as int),
            v@.len() <= orig.len(),
            r@ == Seq::new((orig.len() - v@.len()) as nat, |k: int| orig[orig.len() - 1 - k]),
        decreases v@.len(),
    {
        let x = v.pop().unwrap();
        r.push(x);
        assert(v@ =~= orig.take(v@.len() as int));
        assert(r@ =~= Seq::new((orig.len() - v@.len()) as nat, |k: int| orig[orig.len() - 1 - k]));
    }
    assert(r@ =~= rev_seq(orig));
    r
}

} // verus!
