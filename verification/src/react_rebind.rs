//! Moving every identifier named `React` into one syntax context, so that
//! they all refer to the `React` binding that the automatic import adds.

use vstd::prelude::*;
use crate::ast::{
    reversed, Id, IdView, ImportDecl, ImportDeclView, ImportNamedSpecifier, ImportSpecifier,
    ImportSpecifierView, ModuleExportName, ModuleExportNameView, specifiers_view,
};
use crate::react_utils::{
    decls_view, ids_view, items_view, lemma_stmts_view, members_view, opt_expr_view, opt_id_view, stmt_view, stmts_view, Class, ClassMember,
    ClassMemberView, ClassView, Expr, ExprView, ModuleItem, ModuleItemView, Stmt, StmtView, VarDeclarator,
    VarDeclaratorView,
};
use crate::text::str_eq;

verus! {

/// An identifier named `React` is moved into context `ctxt`; any other is
/// kept.
pub open spec fn rebind_id(ctxt: u32, id: IdView) -> IdView {
    if id.sym == "React"@ {
        IdView { sym: id.sym, ctxt }
    } else {
        id
    }
}

pub open spec fn rebind_ids(ctxt: u32, s: Seq<IdView>) -> Seq<IdView> {
    s.map_values(|x: IdView| rebind_id(ctxt, x))
}

pub open spec fn rebind_opt_id(ctxt: u32, o: Option<IdView>) -> Option<IdView> {
    match o {
        Some(x) => Some(rebind_id(ctxt, x)),
        None => None,
    }
}

/// Every identifier of the expression rebound.
pub open spec fn rebind_expr(ctxt: u32, e: ExprView) -> ExprView
    decreases e,
{
    match e {
        ExprView::Handle { handle, idents } => ExprView::Handle { handle, idents: rebind_ids(ctxt, idents) },
        ExprView::Ident(id) => ExprView::Ident(rebind_id(ctxt, id)),
        ExprView::EmptyObject => e,
        ExprView::Member { obj, prop } => ExprView::Member { obj: Box::new(rebind_expr(ctxt, *obj)), prop },
        ExprView::Assign { left, right } => ExprView::Assign {
            left: Box::new(rebind_expr(ctxt, *left)),
            right: Box::new(rebind_expr(ctxt, *right)),
        },
        ExprView::ProdGuard { value, fallback } => ExprView::ProdGuard { value: Box::new(rebind_expr(ctxt, *value)), fallback },
        ExprView::Invalid => e,
    }
}

pub open spec fn rebind_opt_expr(ctxt: u32, o: Option<ExprView>) -> Option<ExprView> {
    match o {
        Some(e) => Some(rebind_expr(ctxt, e)),
        None => None,
    }
}

pub open spec fn rebind_member(ctxt: u32, m: ClassMemberView) -> ClassMemberView {
    match m {
        ClassMemberView::ClassProp { key, value, is_static } => ClassMemberView::ClassProp {
            key,
            value: rebind_opt_expr(ctxt, value),
            is_static,
        },
        ClassMemberView::PrivateProp { key, value, is_static } => ClassMemberView::PrivateProp {
            key,
            value: rebind_opt_expr(ctxt, value),
            is_static,
        },
        ClassMemberView::Other(_) => m,
    }
}

pub open spec fn rebind_class(ctxt: u32, c: ClassView) -> ClassView {
    ClassView {
        is_react_component: c.is_react_component,
        members: c.members.map_values(|m: ClassMemberView| rebind_member(ctxt, m)),
    }
}

pub open spec fn rebind_decl(ctxt: u32, d: VarDeclaratorView) -> VarDeclaratorView {
    VarDeclaratorView { name: d.name, init: rebind_opt_expr(ctxt, d.init) }
}

pub open spec fn rebind_stmt(ctxt: u32, s: StmtView) -> StmtView
    decreases s, 0nat,
{
    match s {
        StmtView::Expr(e) => StmtView::Expr(rebind_expr(ctxt, e)),
        StmtView::ClassDecl { ident, class } => StmtView::ClassDecl {
            ident: rebind_id(ctxt, ident),
            class: rebind_class(ctxt, class),
        },
        StmtView::VarDecl(d) => StmtView::VarDecl(d.map_values(|x: VarDeclaratorView| rebind_decl(ctxt, x))),
        StmtView::Block(ss) => StmtView::Block(rebind_stmts(ctxt, ss, ss.len())),
        StmtView::Empty => s,
        StmtView::Other(_) => s,
    }
}

/// The first `n` statements of a block, rebound.
pub open spec fn rebind_stmts(ctxt: u32, ss: Seq<StmtView>, n: nat) -> Seq<StmtView>
    decreases ss, n,
{
    if n == 0 || n > ss.len() {
        Seq::empty()
    } else {
        rebind_stmts(ctxt, ss, (n - 1) as nat).push(rebind_stmt(ctxt, ss[n - 1]))
    }
}

proof fn lemma_rebind_stmts(ctxt: u32, ss: Seq<StmtView>, n: nat)
    requires
        n <= ss.len(),
    ensures
        rebind_stmts(ctxt, ss, n).len() == n,
        forall|i: int| 0 <= i < n ==> #[trigger] rebind_stmts(ctxt, ss, n)[i] == rebind_stmt(ctxt, ss[i]),
    decreases n,
{
    if n > 0 {
        lemma_rebind_stmts(ctxt, ss, (n - 1) as nat);
    }
}

pub open spec fn rebind_spec(ctxt: u32, s: ImportSpecifierView) -> ImportSpecifierView {
    match s {
        ImportSpecifierView::Named { local, imported, is_type_only } => ImportSpecifierView::Named {
            local: rebind_id(ctxt, local),
            imported: match imported {
                Some(ModuleExportNameView::Ident(id)) => Some(ModuleExportNameView::Ident(rebind_id(ctxt, id))),
                other => other,
            },
            is_type_only,
        },
        ImportSpecifierView::Default(id) => ImportSpecifierView::Default(rebind_id(ctxt, id)),
        ImportSpecifierView::Namespace(id) => ImportSpecifierView::Namespace(rebind_id(ctxt, id)),
    }
}

pub open spec fn rebind_import(ctxt: u32, d: ImportDeclView) -> ImportDeclView {
    ImportDeclView {
        src: d.src,
        specifiers: d.specifiers.map_values(|s: ImportSpecifierView| rebind_spec(ctxt, s)),
        type_only: d.type_only,
    }
}

/// A module item with every identifier named `React` in it moved into
/// context `ctxt`.
pub open spec fn rebind_item(ctxt: u32, it: ModuleItemView) -> ModuleItemView {
    match it {
        ModuleItemView::Stmt(s) => ModuleItemView::Stmt(rebind_stmt(ctxt, s)),
        ModuleItemView::ExportClass { ident, class } => ModuleItemView::ExportClass {
            ident: rebind_id(ctxt, ident),
            class: rebind_class(ctxt, class),
        },
        ModuleItemView::ExportDefaultClass { ident, class } => ModuleItemView::ExportDefaultClass {
            ident: rebind_opt_id(ctxt, ident),
            class: rebind_class(ctxt, class),
        },
        ModuleItemView::ExportDefaultClassExpr { ident, class } => ModuleItemView::ExportDefaultClassExpr {
            ident: rebind_opt_id(ctxt, ident),
            class: rebind_class(ctxt, class),
        },
        ModuleItemView::Import(d) => ModuleItemView::Import(rebind_import(ctxt, d)),
        ModuleItemView::Other(_) => it,
    }
}

pub open spec fn rebind_items(ctxt: u32, s: Seq<ModuleItemView>) -> Seq<ModuleItemView> {
    s.map_values(|x: ModuleItemView| rebind_item(ctxt, x))
}

fn rebind_id_exec(ctxt: u32, id: Id) -> (r: Id)
    ensures
        r@ == rebind_id(ctxt, id@),
{
    if str_eq(id.sym.as_str(), "React") {
        Id { sym: id.sym, ctxt }
    } else {
        id
    }
}

fn rebind_opt_id_exec(ctxt: u32, o: Option<Id>) -> (r: Option<Id>)
    ensures
        opt_id_view(r) == rebind_opt_id(ctxt, opt_id_view(o)),
{
    match o {
        Some(x) => Some(rebind_id_exec(ctxt, x)),
        None => None,
    }
}

fn rebind_ids_exec(ctxt: u32, v: Vec<Id>) -> (r: Vec<Id>)
    ensures
        ids_view(r@) == rebind_ids(ctxt, ids_view(v@)),
{
    let ghost orig = v@;
    let n = v.len();
    let mut rest = reversed(v);
    let mut out: Vec<Id> = Vec::new();
    let mut k: usize = 0;
    while k < n
        invariant
            n == orig.len(),
            k <= n,
            rest@ == Seq::new((n - k) as nat, |t: int| orig[n - 1 - t]),
            ids_view(out@) == Seq::new(k as nat, |t: int| rebind_id(ctxt, orig[t]@)),
        decreases n - k,
    {
        let x = rest.pop().unwrap();
        assert(x == orig[k as int]);
        assert(rest@ =~= Seq::new((n - k - 1) as nat, |t: int| orig[n - 1 - t]));
        let y = rebind_id_exec(ctxt, x);
        let ghost before = out@;
        out.push(y);
        assert(ids_view(out@) =~= Seq::new((k + 1) as nat, |t: int| rebind_id(ctxt, orig[t]@))) by {
            assert(ids_view(out@) =~= ids_view(before).push(y@));
        }
        k = k + 1;
    }
    assert(ids_view(out@) =~= rebind_ids(ctxt, ids_view(orig)));
    out
}

fn rebind_expr_exec(ctxt: u32, e: Expr) -> (r: Expr)
    ensures
        r@ == rebind_expr(ctxt, e@),
    decreases e,
{
    match e {
        Expr::Handle { handle, idents } => Expr::Handle { handle, idents: rebind_ids_exec(ctxt, idents) },
        Expr::Ident(id) => Expr::Ident(rebind_id_exec(ctxt, id)),
        Expr::EmptyObject => Expr::EmptyObject,
        Expr::Member { obj, prop } => Expr::Member { obj: Box::new(rebind_expr_exec(ctxt, *obj)), prop },
        Expr::Assign { left, right } => Expr::Assign {
            left: Box::new(rebind_expr_exec(ctxt, *left)),
            right: Box::new(rebind_expr_exec(ctxt, *right)),
        },
        Expr::ProdGuard { value, fallback } => Expr::ProdGuard { value: Box::new(rebind_expr_exec(ctxt, *value)), fallback },
        Expr::Invalid => Expr::Invalid,
    }
}

fn rebind_opt_expr_exec(ctxt: u32, o: Option<Expr>) -> (r: Option<Expr>)
    ensures
        opt_expr_view(r) == rebind_opt_expr(ctxt, opt_expr_view(o)),
{
    match o {
        Some(e) => Some(rebind_expr_exec(ctxt, e)),
        None => None,
    }
}

fn rebind_member_exec(ctxt: u32, m: ClassMember) -> (r: ClassMember)
    ensures
        r@ == rebind_member(ctxt, m@),
{
    match m {
        ClassMember::ClassProp { key, value, is_static } => ClassMember::ClassProp {
            key,
            value: rebind_opt_expr_exec(ctxt, value),
            is_static,
        },
        ClassMember::PrivateProp { key, value, is_static } => ClassMember::PrivateProp {
            key,
            value: rebind_opt_expr_exec(ctxt, value),
            is_static,
        },
        ClassMember::Other(h) => ClassMember::Other(h),
    }
}

fn rebind_class_exec(ctxt: u32, c: Class) -> (r: Class)
    ensures
        r@ == rebind_class(ctxt, c@),
{
    let ghost orig = c.members@;
    let n = c.members.len();
    let mut rest = reversed(c.members);
    let mut out: Vec<ClassMember> = Vec::new();
    let mut k: usize = 0;
    while k < n
        invariant
            n == orig.len(),
            k <= n,
            rest@ == Seq::new((n - k) as nat, |t: int| orig[n - 1 - t]),
            members_view(out@) == Seq::new(k as nat, |t: int| rebind_member(ctxt, orig[t]@)),
        decreases n - k,
    {
        let x = rest.pop().unwrap();
        assert(x == orig[k as int]);
        assert(rest@ =~= Seq::new((n - k - 1) as nat, |t: int| orig[n - 1 - t]));
        let y = rebind_member_exec(ctxt, x);
        let ghost before = out@;
        out.push(y);
        assert(members_view(out@) =~= Seq::new((k + 1) as nat, |t: int| rebind_member(ctxt, orig[t]@))) by {
            assert(members_view(out@) =~= members_view(before).push(y@));
        }
        k = k + 1;
    }
    let r = Class { is_react_component: c.is_react_component, members: out };
    assert(r@.members =~= rebind_class(ctxt, c@).members);
    r
}

fn rebind_decls_exec(ctxt: u32, v: Vec<VarDeclarator>) -> (r: Vec<VarDeclarator>)
    ensures
        decls_view(r@) == decls_view(v@).map_values(|x: VarDeclaratorView| rebind_decl(ctxt, x)),
{
    let ghost orig = v@;
    let n = v.len();
    let mut rest = reversed(v);
    let mut out: Vec<VarDeclarator> = Vec::new();
    let mut k: usize = 0;
    while k < n
        invariant
            n == orig.len(),
            k <= n,
            rest@ == Seq::new((n - k) as nat, |t: int| orig[n - 1 - t]),
            decls_view(out@) == Seq::new(k as nat, |t: int| rebind_decl(ctxt, orig[t]@)),
        decreases n - k,
    {
        let x = rest.pop().unwrap();
        assert(x == orig[k as int]);
        assert(rest@ =~= Seq::new((n - k - 1) as nat, |t: int| orig[n - 1 - t]));
        let y = VarDeclarator { name: x.name, init: rebind_opt_expr_exec(ctxt, x.init) };
        let ghost before = out@;
        out.push(y);
        assert(decls_view(out@) =~= Seq::new((k + 1) as nat, |t: int| rebind_decl(ctxt, orig[t]@))) by {
            assert(decls_view(out@) =~= decls_view(before).push(y@));
        }
        k = k + 1;
    }
    assert(decls_view(out@) =~= decls_view(orig).map_values(|x: VarDeclaratorView| rebind_decl(ctxt, x)));
    out
}

fn rebind_stmt_exec(ctxt: u32, s: Stmt) -> (r: Stmt)
    ensures
        r@ == rebind_stmt(ctxt, s@),
    decreases s, 1nat,
{
    match s {
        Stmt::Expr(e) => Stmt::Expr(rebind_expr_exec(ctxt, e)),
        Stmt::ClassDecl { ident, class } => Stmt::ClassDecl {
            ident: rebind_id_exec(ctxt, ident),
            class: rebind_class_exec(ctxt, class),
        },
        Stmt::VarDecl(d) => Stmt::VarDecl(rebind_decls_exec(ctxt, d)),
        Stmt::Block(v) => {
            proof {
                lemma_stmts_view(v@, v@.len());
            }
            Stmt::Block(rebind_block_exec(ctxt, v, Ghost(s)))
        },
        Stmt::Empty => Stmt::Empty,
        Stmt::Other(h) => Stmt::Other(h),
    }
}

fn rebind_block_exec(ctxt: u32, v: Vec<Stmt>, Ghost(whole): Ghost<Stmt>) -> (r: Vec<Stmt>)
    requires
        whole == Stmt::Block(v),
    ensures
        stmts_view(r@, r@.len()) == rebind_stmts(ctxt, stmts_view(v@, v@.len()), v@.len()),
    decreases whole, 0nat,
{
    let ghost ch = v;
    let ghost orig = v@;
    let ghost sv = stmts_view(orig, orig.len());
    proof {
        lemma_stmts_view(orig, orig.len());
    }
    let n = v.len();
    let mut rest = reversed(v);
    let mut out: Vec<Stmt> = Vec::new();
    let mut k: usize = 0;
    while k < n
        invariant
            n == orig.len(),
            orig == ch@,
            whole == Stmt::Block(ch),
            sv == stmts_view(orig, orig.len()),
            forall|i: int| 0 <= i < n ==> #[trigger] sv[i] == stmt_view(orig[i]),
            k <= n,
            rest@ == Seq::new((n - k) as nat, |t: int| orig[n - 1 - t]),
            out@.len() == k,
            forall|i: int| 0 <= i < k ==> #[trigger] out@[i]@ == rebind_stmt(ctxt, sv[i]),
        decreases n - k,
    {
        let x = rest.pop().unwrap();
        assert(x == orig[k as int]);
        assert(rest@ =~= Seq::new((n - k - 1) as nat, |t: int| orig[n - 1 - t]));
        proof {
            assert(decreases_to!(whole => whole->Block_0));
            assert(decreases_to!(ch => ch[k as int]));
        }
        let y = rebind_stmt_exec(ctxt, x);
        out.push(y);
        k = k + 1;
    }
    proof {
        lemma_stmts_view(out@, out@.len());
        lemma_rebind_stmts(ctxt, sv, n as nat);
        assert forall|i: int| 0 <= i < n implies #[trigger] stmts_view(out@, out@.len())[i] == rebind_stmts(ctxt, sv, n as nat)[i] by {
            assert(stmts_view(out@, out@.len())[i] == stmt_view(out@[i]));
            assert(out@[i]@ == rebind_stmt(ctxt, sv[i]));
        }
        assert(stmts_view(out@, out@.len()) =~= rebind_stmts(ctxt, sv, n as nat));
    }
    out
}

fn rebind_spec_exec(ctxt: u32, s: ImportSpecifier) -> (r: ImportSpecifier)
    ensures
        r@ == rebind_spec(ctxt, s@),
{
    match s {
        ImportSpecifier::Named(n) => {
            let imported = match n.imported {
                Some(ModuleExportName::Ident(id)) => Some(ModuleExportName::Ident(rebind_id_exec(ctxt, id))),
                Some(ModuleExportName::Str(t)) => Some(ModuleExportName::Str(t)),
                None => None,
            };
            ImportSpecifier::Named(ImportNamedSpecifier {
                local: rebind_id_exec(ctxt, n.local),
                imported,
                is_type_only: n.is_type_only,
            })
        },
        ImportSpecifier::Default(id) => ImportSpecifier::Default(rebind_id_exec(ctxt, id)),
        ImportSpecifier::Namespace(id) => ImportSpecifier::Namespace(rebind_id_exec(ctxt, id)),
    }
}

fn rebind_import_exec(ctxt: u32, d: ImportDecl) -> (r: ImportDecl)
    ensures
        r@ == rebind_import(ctxt, d@),
{
    let ghost orig = d.specifiers@;
    let n = d.specifiers.len();
    let mut rest = reversed(d.specifiers);
    let mut out: Vec<ImportSpecifier> = Vec::new();
    let mut k: usize = 0;
    while k < n
        invariant
            n == orig.len(),
            k <= n,
            rest@ == Seq::new((n - k) as nat, |t: int| orig[n - 1 - t]),
            specifiers_view(out@) == Seq::new(k as nat, |t: int| rebind_spec(ctxt, orig[t]@)),
        decreases n - k,
    {
        let x = rest.pop().unwrap();
        assert(x == orig[k as int]);
        assert(rest@ =~= Seq::new((n - k - 1) as nat, |t: int| orig[n - 1 - t]));
        let y = rebind_spec_exec(ctxt, x);
        let ghost before = out@;
        out.push(y);
        assert(specifiers_view(out@) =~= Seq::new((k + 1) as nat, |t: int| rebind_spec(ctxt, orig[t]@))) by {
            assert(specifiers_view(out@) =~= specifiers_view(before).push(y@));
        }
        k = k + 1;
    }
    let r = ImportDecl { src: d.src, specifiers: out, type_only: d.type_only };
    assert(r@.specifiers =~= rebind_import(ctxt, d@).specifiers);
    r
}

fn rebind_item_exec(ctxt: u32, it: ModuleItem) -> (r: ModuleItem)
    ensures
        r@ == rebind_item(ctxt, it@),
{
    match it {
        ModuleItem::Stmt(s) => ModuleItem::Stmt(rebind_stmt_exec(ctxt, s)),
        ModuleItem::ExportClass { ident, class } => ModuleItem::ExportClass {
            ident: rebind_id_exec(ctxt, ident),
            class: rebind_class_exec(ctxt, class),
        },
        ModuleItem::ExportDefaultClass { ident, class } => ModuleItem::ExportDefaultClass {
            ident: rebind_opt_id_exec(ctxt, ident),
            class: rebind_class_exec(ctxt, class),
        },
        ModuleItem::ExportDefaultClassExpr { ident, class } => ModuleItem::ExportDefaultClassExpr {
            ident: rebind_opt_id_exec(ctxt, ident),
            class: rebind_class_exec(ctxt, class),
        },
        ModuleItem::Import(d) => ModuleItem::Import(rebind_import_exec(ctxt, d)),
        ModuleItem::Other(h) => ModuleItem::Other(h),
    }
}

/// Every identifier named `React` in the items moved into context `ctxt`.
pub fn rebind_react(ctxt: u32, v: Vec<ModuleItem>) -> (r: Vec<ModuleItem>)
    ensures
        items_view(r@) == rebind_items(ctxt, items_view(v@)),
{
    let ghost orig = v@;
    let n = v.len();
    let mut rest = reversed(v);
    let mut out: Vec<ModuleItem> = Vec::new();
    let mut k: usize = 0;
    while k < n
        invariant
            n == orig.len(),
            k <= n,
            rest@ == Seq::new((n - k) as nat, |t: int| orig[n - 1 - t]),
            items_view(out@) == Seq::new(k as nat, |t: int| rebind_item(ctxt, orig[t]@)),
        decreases n - k,
    {
        let x = rest.pop().unwrap();
        assert(x == orig[k as int]);
        assert(rest@ =~= Seq::new((n - k - 1) as nat, |t: int| orig[n - 1 - t]));
        let y = rebind_item_exec(ctxt, x);
        let ghost before = out@;
        out.push(y);
        assert(items_view(out@) =~= Seq::new((k + 1) as nat, |t: int| rebind_item(ctxt, orig[t]@))) by {
            assert(items_view(out@) =~= items_view(before).push(y@));
        }
        k = k + 1;
    }
    assert(items_view(out@) =~= rebind_items(ctxt, items_view(orig)));
    out
}

} // verus!
