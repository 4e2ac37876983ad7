//! React helpers: the automatic `import React from 'react'`, and the removal
//! (or guarding) of `propTypes` declarations on React components.

use vstd::prelude::*;
use crate::ast::{
    reversed, rev_seq, contains_id, id_in, Id, IdView, ImportDecl, ImportDeclView, ImportSpecifier,
    ImportSpecifierView, lemma_specifiers_view_push, specifiers_view,
};
use crate::pattern::{any_is_match, any_match, Pattern};
use crate::text::{str_eq, to_owned_string};

verus! {

/// What happens to a `propTypes` declaration.
#[derive(Clone, Copy, PartialEq, Eq, Structural, Debug)]
pub enum Mode {
    /// Delete it.
    Removal,
    /// Keep it behind `process.env.NODE_ENV !== "production" ? … : {}`.
    Wrap,
    /// Keep the whole assignment behind the same condition.
    UnsafeWrap,
}

/// `"remove"`, `"unwrap"` (also written `"wrap"`) and `"unsafe-wrap"` name
/// the modes; any other text means removal.
pub open spec fn spec_mode_from(s: Seq<char>) -> Mode {
    if s == "unwrap"@ || s == "wrap"@ {
        Mode::Wrap
    } else if s == "unsafe-wrap"@ {
        Mode::UnsafeWrap
    } else {
        Mode::Removal
    }
}

impl From<String> for Mode {
    fn from(mode: String) -> (r: Mode) {
        proof {
            reveal_strlit("remove");
            reveal_strlit("unwrap");
            reveal_strlit("wrap");
            reveal_strlit("unsafe-wrap");
        }
        let r = if str_eq(mode.as_str(), "remove") {
            Mode::Removal
        } else if str_eq(mode.as_str(), "unwrap") || str_eq(mode.as_str(), "wrap") {
            Mode::Wrap
        } else if str_eq(mode.as_str(), "unsafe-wrap") {
            Mode::UnsafeWrap
        } else {
            Mode::Removal
        };
        assert("remove"@.len() == 6);
        assert("wrap"@.len() == 4);
        assert("remove"@ != "wrap"@);
        assert("remove"@ != "unsafe-wrap"@);
        assert("remove"@[0] != "unwrap"@[0]);
        assert("remove"@ != "unwrap"@);
        assert(r == spec_mode_from(mode@));
        r
    }
}

impl vstd::std_specs::convert::FromSpecImpl<String> for Mode {
    open spec fn obeys_from_spec() -> bool {
        true
    }

    open spec fn from_spec(v: String) -> Mode {
        spec_mode_from(v@)
    }
}

impl Default for Mode {
    fn default() -> (r: Mode)
        ensures
            r == Mode::Removal,
    {
        Mode::Removal
    }
}

/// Options of the `propTypes` removal.
pub struct ReactRemovePropTypeConfig {
    pub mode: Mode,
    pub remove_import: bool,
    pub ignore_filenames: Vec<Pattern>,
    pub additional_libraries: Vec<Pattern>,
    pub class_name_matchers: Vec<Pattern>,
}

impl Default for ReactRemovePropTypeConfig {
    fn default() -> (r: Self)
        ensures
            r.mode == Mode::Removal,
            r.remove_import,
            r.ignore_filenames@.len() == 0,
            r.additional_libraries@.len() == 0,
            r.class_name_matchers@.len() == 0,
    {
        ReactRemovePropTypeConfig {
            mode: Mode::Removal,
            remove_import: true,
            ignore_filenames: Vec::new(),
            additional_libraries: Vec::new(),
            class_name_matchers: Vec::new(),
        }
    }
}

/// The library `name` provides prop-type checkers: it is `prop-types`, or
/// one of the additional library patterns matches it.
pub open spec fn spec_is_match_library(config: ReactRemovePropTypeConfig, name: Seq<char>) -> bool {
    name == "prop-types"@ || any_match(config.additional_libraries@, name)
}

impl ReactRemovePropTypeConfig {
    /// Whether imports from `name` provide prop-type checkers.
    pub fn is_match_library(&self, name: &str) -> (r: bool)
        ensures
            r == spec_is_match_library(*self, name@),
    {
        if str_eq(name, "prop-types") {
            return true;
        }
        any_is_match(&self.additional_libraries, name)
    }
}

/// Options of the React helpers.
pub struct ReactUtilsConfig {
    pub auto_import_react: bool,
    pub rm_effect: bool,
    pub rm_prop_types: Option<ReactRemovePropTypeConfig>,
}

/// The passes `react_utils` chains, in order.
#[derive(Clone, Copy, PartialEq, Eq, Structural, Debug)]
pub enum ReactPass {
    AutoImportReact,
    RemoveEffect,
    RemovePropTypes,
}

/// The passes the options enable, in the order they run.
pub open spec fn spec_react_utils(config: ReactUtilsConfig) -> Seq<ReactPass> {
    (if config.auto_import_react { seq![ReactPass::AutoImportReact] } else { Seq::empty() })
        + (if config.rm_effect { seq![ReactPass::RemoveEffect] } else { Seq::empty() })
        + (if config.rm_prop_types is Some { seq![ReactPass::RemovePropTypes] } else { Seq::empty() })
}

/// The passes enabled by the options, in the order they run.
pub fn react_utils(config: &ReactUtilsConfig) -> (r: Vec<ReactPass>)
    ensures
        r@ == spec_react_utils(*config),
{
    let mut r: Vec<ReactPass> = Vec::new();
    if config.auto_import_react {
        r.push(ReactPass::AutoImportReact);
    }
    if config.rm_effect {
        r.push(ReactPass::RemoveEffect);
    }
    if config.rm_prop_types.is_some() {
        r.push(ReactPass::RemovePropTypes);
    }
    assert(r@ =~= spec_react_utils(*config));
    r
}

/// `removeImport` only goes with the `remove` mode.
pub open spec fn spec_prop_types_config_ok(config: ReactRemovePropTypeConfig) -> bool {
    !(config.remove_import && config.mode != Mode::Removal)
}

/// Checks the options of the `propTypes` removal where they are read:
/// `Err` with the message when `removeImport` is combined with a mode
/// other than `remove`, options that `react_remove_prop_types` refuses.
pub fn check_prop_types_config(config: &ReactRemovePropTypeConfig) -> (r: Result<(), String>)
    ensures
        r is Ok == spec_prop_types_config_ok(*config),
        match r {
            Ok(_) => true,
            Err(m) => m@ == "react-remove-prop-type: removeImport = true and mode != \"remove\" can not be used at the same time."@,
        },
{
    if config.remove_import && config.mode != Mode::Removal {
        Err(to_owned_string("react-remove-prop-type: removeImport = true and mode != \"remove\" can not be used at the same time."))
    } else {
        Ok(())
    }
}

/// The `propTypes` removal with its options, which must not combine
/// `removeImport` with a mode other than `remove` (see
/// `check_prop_types_config`).
pub fn react_remove_prop_types(config: ReactRemovePropTypeConfig) -> (r: ReactRemovePropTypes)
    requires
        spec_prop_types_config_ok(config),
    ensures
        r.config == config,
{
    ReactRemovePropTypes { config }
}

/// Whether a module needs `import React from 'react'`: no import from
/// `react` has a default specifier.
pub open spec fn spec_needs_react_import(imports: Seq<ImportDecl>) -> bool {
    !exists|i: int, j: int|
        0 <= i < imports.len() && imports[i].src@ == "react"@ && 0 <= j < imports[i].specifiers@.len()
            && imports[i].specifiers@[j] is Default
}

/// Whether `import React from 'react'` must be added to a module whose
/// import declarations are `imports`.
pub fn needs_react_import(imports: &Vec<ImportDecl>) -> (r: bool)
    ensures
        r == spec_needs_react_import(imports@),
{
    proof {
        reveal_strlit("react");
    }
    let mut i: usize = 0;
    while i < imports.len()
        invariant
            i <= imports@.len(),
            forall|a: int, b: int|
                0 <= a < i && imports@[a].src@ == "react"@ && 0 <= b < imports@[a].specifiers@.len()
                    ==> !(imports@[a].specifiers@[b] is Default),
        decreases imports@.len() - i,
    {
        if str_eq(imports[i].src.as_str(), "react") {
            let mut j: usize = 0;
            while j < imports[i].specifiers.len()
                invariant
                    i < imports@.len(),
                    imports@[i as int].src@ == "react"@,
                    j <= imports@[i as int].specifiers@.len(),
                    forall|b: int| 0 <= b < j ==> !(imports@[i as int].specifiers@[b] is Default),
                decreases imports@[i as int].specifiers@.len() - j,
            {
                if let ImportSpecifier::Default(_) = &imports[i].specifiers[j] {
                    return false;
                }
                j = j + 1;
            }
        }
        i = i + 1;
    }
    true
}

/// The declaration `import React from 'react'`, its local binding placed in
/// syntax context `ctxt`.
pub fn react_import(ctxt: u32) -> (r: ImportDecl)
    ensures
        r@ == (ImportDeclView {
            src: "react"@,
            specifiers: seq![ImportSpecifierView::Default(IdView { sym: "React"@, ctxt })],
            type_only: false,
        }),
{
    let mut specifiers = Vec::new();
    specifiers.push(ImportSpecifier::Default(Id::new("React", ctxt)));
    let r = ImportDecl { src: to_owned_string("react"), specifiers, type_only: false };
    assert(r@.specifiers =~= seq![ImportSpecifierView::Default(IdView { sym: "React"@, ctxt })]);
    r
}

/// The value a guarded `propTypes` falls back to in production.
#[derive(Clone, Copy, PartialEq, Eq, Structural, Debug)]
pub enum Fallback {
    /// `{}`
    EmptyObject,
    /// `void 0`
    Void,
}

/// The property of a member expression.
pub enum MemberProp {
    Ident(String),
    Other(u64),
}

/// The expressions the `propTypes` removal inspects or builds; any other
/// expression is an opaque handle.
pub enum Expr {
    /// An expression the removal does not look into, with the identifiers
    /// that occur in it.
    Handle { handle: u64, idents: Vec<Id> },
    Ident(Id),
    /// `{}`
    EmptyObject,
    /// `obj.prop`
    Member { obj: Box<Expr>, prop: MemberProp },
    /// `left = right`
    Assign { left: Box<Expr>, right: Box<Expr> },
    /// `process.env.NODE_ENV !== "production" ? value : fallback`
    ProdGuard { value: Box<Expr>, fallback: Fallback },
    /// An expression that was removed.
    Invalid,
}

pub enum MemberPropView {
    Ident(Seq<char>),
    Other(u64),
}

pub enum ExprView {
    Handle { handle: u64, idents: Seq<IdView> },
    Ident(IdView),
    EmptyObject,
    Member { obj: Box<ExprView>, prop: MemberPropView },
    Assign { left: Box<ExprView>, right: Box<ExprView> },
    ProdGuard { value: Box<ExprView>, fallback: Fallback },
    Invalid,
}

pub open spec fn ids_view(ids: Seq<Id>) -> Seq<IdView> {
    ids.map_values(|x: Id| x@)
}

pub proof fn lemma_ids_view_push(s: Seq<Id>, x: Id)
    ensures
        ids_view(s.push(x)) == ids_view(s).push(x@),
{
    assert(ids_view(s.push(x)) =~= ids_view(s).push(x@));
}

pub fn duplicate_ids(ids: &Vec<Id>) -> (r: Vec<Id>)
    ensures
        ids_view(r@) == ids_view(ids@),
{
    let mut out: Vec<Id> = Vec::new();
    let mut k: usize = 0;
    while k < ids.len()
        invariant
            k <= ids@.len(),
            ids_view(out@) == ids_view(ids@.take(k as int)),
        decreases ids@.len() - k,
    {
        let ghost prev = out@;
        let d = ids[k].duplicate();
        out.push(d);
        assert(ids_view(out@) =~= ids_view(prev).push(d@));
        assert(ids@.take(k + 1) =~= ids@.take(k as int).push(ids@[k as int]));
        assert(ids_view(ids@.take(k + 1)) =~= ids_view(ids@.take(k as int)).push(ids@[k as int]@));
        k = k + 1;
    }
    assert(ids@.take(ids@.len() as int) =~= ids@);
    out
}

pub open spec fn member_prop_view(p: MemberProp) -> MemberPropView {
    match p {
        MemberProp::Ident(s) => MemberPropView::Ident(s@),
        MemberProp::Other(h) => MemberPropView::Other(h),
    }
}

pub open spec fn expr_view(e: Expr) -> ExprView
    decreases e,
{
    match e {
        Expr::Handle { handle, idents } => ExprView::Handle { handle, idents: ids_view(idents@) },
        Expr::Ident(id) => ExprView::Ident(id@),
        Expr::EmptyObject => ExprView::EmptyObject,
        Expr::Member { obj, prop } => ExprView::Member { obj: Box::new(expr_view(*obj)), prop: member_prop_view(prop) },
        Expr::Assign { left, right } => ExprView::Assign {
            left: Box::new(expr_view(*left)),
            right: Box::new(expr_view(*right)),
        },
        Expr::ProdGuard { value, fallback } => ExprView::ProdGuard { value: Box::new(expr_view(*value)), fallback },
        Expr::Invalid => ExprView::Invalid,
    }
}

impl View for Expr {
    type V = ExprView;

    open spec fn view(&self) -> ExprView {
        expr_view(*self)
    }
}

impl Expr {
    pub fn duplicate(&self) -> (r: Expr)
        ensures
            r@ == self@,
        decreases self,
    {
        match self {
            Expr::Handle { handle, idents } => Expr::Handle { handle: *handle, idents: duplicate_ids(idents) },
            Expr::Ident(id) => Expr::Ident(id.duplicate()),
            Expr::EmptyObject => Expr::EmptyObject,
            Expr::Member { obj, prop } => Expr::Member {
                obj: Box::new((**obj).duplicate()),
                prop: match prop {
                    MemberProp::Ident(s) => MemberProp::Ident(s.clone()),
                    MemberProp::Other(h) => MemberProp::Other(*h),
                },
            },
            Expr::Assign { left, right } => Expr::Assign {
                left: Box::new((**left).duplicate()),
                right: Box::new((**right).duplicate()),
            },
            Expr::ProdGuard { value, fallback } => Expr::ProdGuard {
                value: Box::new((**value).duplicate()),
                fallback: *fallback,
            },
            Expr::Invalid => Expr::Invalid,
        }
    }
}

/// What becomes of an expression that declares prop types: removed, or
/// guarded so that it only takes effect outside production.
pub open spec fn spec_remove_expr(mode: Mode, e: ExprView) -> ExprView {
    match e {
        ExprView::Assign { left, right } => match mode {
            Mode::Removal => ExprView::Invalid,
            Mode::Wrap => ExprView::Assign {
                left,
                right: Box::new(ExprView::ProdGuard { value: right, fallback: Fallback::EmptyObject }),
            },
            Mode::UnsafeWrap => ExprView::ProdGuard { value: Box::new(e), fallback: Fallback::Void },
        },
        _ => match mode {
            Mode::Removal => ExprView::Invalid,
            _ => ExprView::ProdGuard { value: Box::new(e), fallback: Fallback::EmptyObject },
        },
    }
}

/// Removes or guards an expression that declares prop types.
pub fn remove_expr(mode: Mode, e: Expr) -> (r: Expr)
    ensures
        r@ == spec_remove_expr(mode, e@),
{
    proof {
        reveal_with_fuel(expr_view, 3);
    }
    match e {
        Expr::Assign { left, right } => match mode {
            Mode::Removal => Expr::Invalid,
            Mode::Wrap => Expr::Assign {
                left,
                right: Box::new(Expr::ProdGuard { value: right, fallback: Fallback::EmptyObject }),
            },
            Mode::UnsafeWrap => Expr::ProdGuard {
                value: Box::new(Expr::Assign { left, right }),
                fallback: Fallback::Void,
            },
        },
        other => match mode {
            Mode::Removal => Expr::Invalid,
            _ => Expr::ProdGuard { value: Box::new(other), fallback: Fallback::EmptyObject },
        },
    }
}

/// The key of a class property.
pub enum PropName {
    Ident(String),
    Other(u64),
}

/// A class member, as far as the removal reads it.
#[allow(inconsistent_fields)]
pub enum ClassMember {
    /// `[static] key = value`
    ClassProp { key: PropName, value: Option<Expr>, is_static: bool },
    /// `[static] #key = value`
    PrivateProp { key: String, value: Option<Expr>, is_static: bool },
    Other(u64),
}

pub enum PropNameView {
    Ident(Seq<char>),
    Other(u64),
}

#[allow(inconsistent_fields)]
pub enum ClassMemberView {
    ClassProp { key: PropNameView, value: Option<ExprView>, is_static: bool },
    PrivateProp { key: Seq<char>, value: Option<ExprView>, is_static: bool },
    Other(u64),
}

pub open spec fn opt_expr_view(o: Option<Expr>) -> Option<ExprView> {
    match o {
        Some(e) => Some(e@),
        None => None,
    }
}

impl View for ClassMember {
    type V = ClassMemberView;

    open spec fn view(&self) -> ClassMemberView {
        match self {
            ClassMember::ClassProp { key, value, is_static } => ClassMemberView::ClassProp {
                key: match key {
                    PropName::Ident(s) => PropNameView::Ident(s@),
                    PropName::Other(h) => PropNameView::Other(*h),
                },
                value: opt_expr_view(*value),
                is_static: *is_static,
            },
            ClassMember::PrivateProp { key, value, is_static } => ClassMemberView::PrivateProp {
                key: key@,
                value: opt_expr_view(*value),
                is_static: *is_static,
            },
            ClassMember::Other(h) => ClassMemberView::Other(*h),
        }
    }
}

/// A class: its members, and whether it is a React component class (which
/// the caller decides from the bindings of the module).
pub struct Class {
    pub is_react_component: bool,
    pub members: Vec<ClassMember>,
}

pub open spec fn members_view(m: Seq<ClassMember>) -> Seq<ClassMemberView> {
    m.map_values(|x: ClassMember| x@)
}

pub struct ClassView {
    pub is_react_component: bool,
    pub members: Seq<ClassMemberView>,
}

impl View for Class {
    type V = ClassView;

    open spec fn view(&self) -> ClassView {
        ClassView { is_react_component: self.is_react_component, members: members_view(self.members@) }
    }
}

/// A static `propTypes` (or `#propTypes`) property.
pub open spec fn is_prop_types_member(m: ClassMemberView) -> bool {
    match m {
        ClassMemberView::ClassProp { key, is_static, .. } => is_static && key == PropNameView::Ident("propTypes"@),
        ClassMemberView::PrivateProp { key, is_static, .. } => is_static && key == "propTypes"@,
        ClassMemberView::Other(_) => false,
    }
}

/// The position of the last static `propTypes` member.
pub open spec fn last_prop_types(members: Seq<ClassMemberView>) -> Option<int>
    decreases members.len(),
{
    if members.len() == 0 {
        None
    } else if is_prop_types_member(members.last()) {
        Some(members.len() - 1)
    } else {
        last_prop_types(members.drop_last())
    }
}

pub open spec fn member_value(m: ClassMemberView) -> Option<ExprView> {
    match m {
        ClassMemberView::ClassProp { value, .. } => value,
        ClassMemberView::PrivateProp { value, .. } => value,
        ClassMemberView::Other(_) => None,
    }
}

/// `static propTypes = <value>`
pub open spec fn prop_types_prop(value: ExprView) -> ClassMemberView {
    ClassMemberView::ClassProp { key: PropNameView::Ident("propTypes"@), value: Some(value), is_static: true }
}

/// `name = init` in a variable declaration.
pub struct VarDeclarator {
    pub name: u64,
    pub init: Option<Expr>,
}

pub struct VarDeclaratorView {
    pub name: u64,
    pub init: Option<ExprView>,
}

impl View for VarDeclarator {
    type V = VarDeclaratorView;

    open spec fn view(&self) -> VarDeclaratorView {
        VarDeclaratorView { name: self.name, init: opt_expr_view(self.init) }
    }
}

pub open spec fn decls_view(d: Seq<VarDeclarator>) -> Seq<VarDeclaratorView> {
    d.map_values(|x: VarDeclarator| x@)
}

/// A statement of a module, as far as the removal reads it.
pub enum Stmt {
    Expr(Expr),
    ClassDecl { ident: Id, class: Class },
    VarDecl(Vec<VarDeclarator>),
    /// A block statement or a function body, with its statements.
    Block(Vec<Stmt>),
    /// The empty statement left where an item was taken out.
    Empty,
    Other(u64),
}

pub enum StmtView {
    Expr(ExprView),
    ClassDecl { ident: IdView, class: ClassView },
    VarDecl(Seq<VarDeclaratorView>),
    Block(Seq<StmtView>),
    Empty,
    Other(u64),
}

pub open spec fn stmt_view(s: Stmt) -> StmtView
    decreases s, 0nat,
{
    match s {
        Stmt::Expr(e) => StmtView::Expr(e@),
        Stmt::ClassDecl { ident, class } => StmtView::ClassDecl { ident: ident@, class: class@ },
        Stmt::VarDecl(d) => StmtView::VarDecl(decls_view(d@)),
        Stmt::Block(b) => StmtView::Block(stmts_view(b@, b@.len())),
        Stmt::Empty => StmtView::Empty,
        Stmt::Other(h) => StmtView::Other(h),
    }
}

/// The views of the first `n` statements of `s`.
pub open spec fn stmts_view(s: Seq<Stmt>, n: nat) -> Seq<StmtView>
    decreases s, n,
{
    if n == 0 || n > s.len() {
        Seq::empty()
    } else {
        stmts_view(s, (n - 1) as nat).push(stmt_view(s[n - 1]))
    }
}

pub proof fn lemma_stmts_view(s: Seq<Stmt>, n: nat)
    requires
        n <= s.len(),
    ensures
        stmts_view(s, n).len() == n,
        forall|i: int| 0 <= i < n ==> #[trigger] stmts_view(s, n)[i] == stmt_view(s[i]),
    decreases n,
{
    if n > 0 {
        lemma_stmts_view(s, (n - 1) as nat);
    }
}

impl View for Stmt {
    type V = StmtView;

    open spec fn view(&self) -> StmtView {
        stmt_view(*self)
    }
}

/// The class after its `propTypes` member was handled, and the statement to
/// insert after the class (at the given position), if any.
pub open spec fn spec_remove_class(mode: Mode, ident: Option<IdView>, class: ClassView, idx: int) -> (ClassView, Option<(int, StmtView)>) {
    if !class.is_react_component {
        (class, None)
    } else {
        match last_prop_types(class.members) {
            None => (class, None),
            Some(k) => {
                let obj = match member_value(class.members[k]) {
                    Some(v) => v,
                    None => ExprView::EmptyObject,
                };
                match mode {
                    Mode::Removal => (ClassView { members: class.members.remove(k), ..class }, None),
                    Mode::Wrap => (
                        ClassView {
                            members: class.members.update(k, prop_types_prop(ExprView::ProdGuard { value: Box::new(obj), fallback: Fallback::EmptyObject })),
                            ..class
                        },
                        None,
                    ),
                    Mode::UnsafeWrap => match ident {
                        Some(id) => (
                            ClassView { members: class.members.remove(k), ..class },
                            Some((idx + 1, StmtView::Expr(ExprView::ProdGuard {
                                value: Box::new(ExprView::Assign {
                                    left: Box::new(ExprView::Member {
                                        obj: Box::new(ExprView::Ident(id)),
                                        prop: MemberPropView::Ident("propTypes"@),
                                    }),
                                    right: Box::new(obj),
                                }),
                                fallback: Fallback::Void,
                            }))),
                        ),
                        None => (
                            ClassView {
                                members: class.members.update(k, prop_types_prop(ExprView::ProdGuard { value: Box::new(obj), fallback: Fallback::Void })),
                                ..class
                            },
                            None,
                        ),
                    },
                }
            },
        }
    }
}

fn is_prop_types_member_exec(m: &ClassMember) -> (r: bool)
    ensures
        r == is_prop_types_member(m@),
{
    proof {
        reveal_strlit("propTypes");
    }
    match m {
        ClassMember::ClassProp { key, is_static, .. } => {
            if !*is_static {
                return false;
            }
            match key {
                PropName::Ident(s) => str_eq(s.as_str(), "propTypes"),
                PropName::Other(_) => false,
            }
        },
        ClassMember::PrivateProp { key, is_static, .. } => *is_static && str_eq(key.as_str(), "propTypes"),
        ClassMember::Other(_) => false,
    }
}

proof fn lemma_last_prop_types_prefix(members: Seq<ClassMemberView>, k: int)
    requires
        0 <= k <= members.len(),
        forall|j: int| k <= j < members.len() ==> !is_prop_types_member(members[j]),
    ensures
        last_prop_types(members) == last_prop_types(members.take(k)),
    decreases members.len() - k,
{
    if k < members.len() {
        assert(members.drop_last().take(k) =~= members.take(k));
        lemma_last_prop_types_prefix(members.drop_last(), k);
    } else {
        assert(members.take(k) =~= members);
    }
}

/// The position of the last static `propTypes` member.
fn find_prop_types(members: &Vec<ClassMember>) -> (r: Option<usize>)
    ensures
        match r {
            Some(k) => last_prop_types(members_view(members@)) == Some(k as int) && k < members@.len(),
            None => last_prop_types(members_view(members@)) is None,
        },
{
    let ghost mv = members_view(members@);
    let mut k: usize = members.len();
    while k > 0
        invariant
            k <= members@.len(),
            mv == members_view(members@),
            forall|j: int| k <= j < members@.len() ==> !is_prop_types_member(mv[j]),
        decreases k,
    {
        if is_prop_types_member_exec(&members[k - 1]) {
            proof {
                lemma_last_prop_types_prefix(mv, k as int);
                assert(mv.take(k as int).last() == mv[k - 1]);
            }
            return Some(k - 1);
        }
        k = k - 1;
    }
    proof {
        lemma_last_prop_types_prefix(mv, 0);
    }
    None
}

fn member_value_exec(m: &ClassMember) -> (r: Expr)
    ensures
        r@ == (match member_value(m@) {
            Some(v) => v,
            None => ExprView::EmptyObject,
        }),
{
    match m {
        ClassMember::ClassProp { value: Some(v), .. } => v.duplicate(),
        ClassMember::PrivateProp { value: Some(v), .. } => v.duplicate(),
        _ => Expr::EmptyObject,
    }
}

fn prop_types_prop_exec(value: Expr) -> (r: ClassMember)
    ensures
        r@ == prop_types_prop(value@),
{
    proof {
        reveal_strlit("propTypes");
    }
    ClassMember::ClassProp { key: PropName::Ident(to_owned_string("propTypes")), value: Some(value), is_static: true }
}

/// Removes or guards the static `propTypes` member of a React component
/// class; under `unsafe-wrap` with a named class, returns the guarded
/// assignment to insert after the class at position `idx`.
pub fn remove_class(mode: Mode, ident: Option<&Id>, class: Class, idx: usize) -> (r: (Class, Option<(usize, Stmt)>))
    requires
        idx < usize::MAX,
    ensures
        ({
            let (c, ins) = spec_remove_class(mode, match ident { Some(i) => Some(i@), None => None }, class@, idx as int);
            &&& r.0@ == c
            &&& match r.1 {
                Some((p, s)) => ins == Some((p as int, s@)),
                None => ins is None,
            }
        }),
{
    proof {
        reveal_with_fuel(expr_view, 4);
    }
    if !class.is_react_component {
        return (class, None);
    }
    match find_prop_types(&class.members) {
        None => (class, None),
        Some(k) => {
            let obj = member_value_exec(&class.members[k]);
            let mut members = class.members;
            let ghost mv = members_view(members@);
            match mode {
                Mode::Removal => {
                    members.remove(k);
                    assert(members_view(members@) =~= mv.remove(k as int));
                    (Class { is_react_component: true, members }, None)
                },
                Mode::Wrap => {
                    let m = prop_types_prop_exec(Expr::ProdGuard { value: Box::new(obj), fallback: Fallback::EmptyObject });
                    members.set(k, m);
                    assert(members_view(members@) =~= mv.update(k as int, m@));
                    (Class { is_react_component: true, members }, None)
                },
                Mode::UnsafeWrap => match ident {
                    Some(id) => {
                        members.remove(k);
                        assert(members_view(members@) =~= mv.remove(k as int));
                        proof {
                            reveal_strlit("propTypes");
                        }
                        let stmt = Stmt::Expr(Expr::ProdGuard {
                            value: Box::new(Expr::Assign {
                                left: Box::new(Expr::Member {
                                    obj: Box::new(Expr::Ident(id.duplicate())),
                                    prop: MemberProp::Ident(to_owned_string("propTypes")),
                                }),
                                right: Box::new(obj),
                            }),
                            fallback: Fallback::Void,
                        });
                        (Class { is_react_component: true, members }, Some((idx + 1, stmt)))
                    },
                    None => {
                        let m = prop_types_prop_exec(Expr::ProdGuard { value: Box::new(obj), fallback: Fallback::Void });
                        members.set(k, m);
                        assert(members_view(members@) =~= mv.update(k as int, m@));
                        (Class { is_react_component: true, members }, None)
                    },
                },
            }
        },
    }
}

/// `id` occurs in `e`.
pub open spec fn expr_contains_ident(e: ExprView, id: IdView) -> bool
    decreases e,
{
    match e {
        ExprView::Handle { idents, .. } => idents.contains(id),
        ExprView::Ident(x) => x == id,
        ExprView::EmptyObject => false,
        ExprView::Member { obj, .. } => expr_contains_ident(*obj, id),
        ExprView::Assign { left, right } => expr_contains_ident(*left, id) || expr_contains_ident(*right, id),
        ExprView::ProdGuard { value, .. } => expr_contains_ident(*value, id),
        ExprView::Invalid => false,
    }
}

/// Whether `id` occurs in `e`.
pub fn contains_ident(e: &Expr, id: &Id) -> (r: bool)
    ensures
        r == expr_contains_ident(e@, id@),
    decreases e,
{
    match e {
        Expr::Handle { idents, .. } => {
            let r = id_in(idents, id);
            assert(r == ids_view(idents@).contains(id@)) by {
                if r {
                    let k = choose|k: int| 0 <= k < idents@.len() && idents@[k]@ == id@;
                    assert(ids_view(idents@)[k] == id@);
                }
                if ids_view(idents@).contains(id@) {
                    let k = choose|k: int| 0 <= k < ids_view(idents@).len() && ids_view(idents@)[k] == id@;
                    assert(idents@[k]@ == id@);
                }
            }
            r
        },
        Expr::Ident(x) => x.same(id),
        Expr::EmptyObject => false,
        Expr::Member { obj, .. } => contains_ident(obj, id),
        Expr::Assign { left, right } => contains_ident(left, id) || contains_ident(right, id),
        Expr::ProdGuard { value, .. } => contains_ident(value, id),
        Expr::Invalid => false,
    }
}

/// A top-level item of a module, as far as the removal reads it.
#[allow(inconsistent_fields)]
pub enum ModuleItem {
    Stmt(Stmt),
    /// `export class X {}`
    ExportClass { ident: Id, class: Class },
    /// `export default class [X] {}`
    ExportDefaultClass { ident: Option<Id>, class: Class },
    /// `export default (class [X] {})`
    ExportDefaultClassExpr { ident: Option<Id>, class: Class },
    Import(ImportDecl),
    Other(u64),
}

#[allow(inconsistent_fields)]
pub enum ModuleItemView {
    Stmt(StmtView),
    ExportClass { ident: IdView, class: ClassView },
    ExportDefaultClass { ident: Option<IdView>, class: ClassView },
    ExportDefaultClassExpr { ident: Option<IdView>, class: ClassView },
    Import(ImportDeclView),
    Other(u64),
}

pub open spec fn opt_id_view(o: Option<Id>) -> Option<IdView> {
    match o {
        Some(i) => Some(i@),
        None => None,
    }
}

impl View for ModuleItem {
    type V = ModuleItemView;

    open spec fn view(&self) -> ModuleItemView {
        match self {
            ModuleItem::Stmt(s) => ModuleItemView::Stmt(s@),
            ModuleItem::ExportClass { ident, class } => ModuleItemView::ExportClass { ident: ident@, class: class@ },
            ModuleItem::ExportDefaultClass { ident, class } => ModuleItemView::ExportDefaultClass { ident: opt_id_view(*ident), class: class@ },
            ModuleItem::ExportDefaultClassExpr { ident, class } => ModuleItemView::ExportDefaultClassExpr { ident: opt_id_view(*ident), class: class@ },
            ModuleItem::Import(d) => ModuleItemView::Import(d@),
            ModuleItem::Other(h) => ModuleItemView::Other(*h),
        }
    }
}

pub open spec fn items_view(v: Seq<ModuleItem>) -> Seq<ModuleItemView> {
    v.map_values(|x: ModuleItem| x@)
}

/// The default and namespace bindings among the first `n` specifiers.
pub open spec fn ns_specs(specs: Seq<ImportSpecifier>, n: int) -> Seq<IdView>
    decreases n,
{
    if n <= 0 {
        Seq::empty()
    } else {
        ns_specs(specs, n - 1) + match specs[n - 1] {
            ImportSpecifier::Named(_) => Seq::empty(),
            ImportSpecifier::Default(x) => seq![x@],
            ImportSpecifier::Namespace(x) => seq![x@],
        }
    }
}

pub open spec fn item_namespaces(config: ReactRemovePropTypeConfig, item: ModuleItem) -> Seq<IdView> {
    match item {
        ModuleItem::Import(d) => if spec_is_match_library(config, d.src@) {
            ns_specs(d.specifiers@, d.specifiers@.len() as int)
        } else {
            Seq::empty()
        },
        _ => Seq::empty(),
    }
}

/// The default and namespace bindings imported from prop-types libraries
/// by the first `n` items.
pub open spec fn all_namespaces(config: ReactRemovePropTypeConfig, body: Seq<ModuleItem>, n: int) -> Seq<IdView>
    decreases n,
{
    if n <= 0 {
        Seq::empty()
    } else {
        all_namespaces(config, body, n - 1) + item_namespaces(config, body[n - 1])
    }
}

/// The default and namespace bindings imported from prop-types libraries.
pub fn collect_namespaces(config: &ReactRemovePropTypeConfig, body: &Vec<ModuleItem>) -> (r: Vec<Id>)
    ensures
        ids_view(r@) == all_namespaces(*config, body@, body@.len() as int),
{
    let mut out: Vec<Id> = Vec::new();
    let mut i: usize = 0;
    while i < body.len()
        invariant
            i <= body@.len(),
            ids_view(out@) == all_namespaces(*config, body@, i as int),
        decreases body@.len() - i,
    {
        let ghost before = ids_view(out@);
        if let ModuleItem::Import(d) = &body[i] {
            if config.is_match_library(d.src.as_str()) {
                let mut j: usize = 0;
                while j < d.specifiers.len()
                    invariant
                        j <= d.specifiers@.len(),
                        ids_view(out@) == before + ns_specs(d.specifiers@, j as int),
                    decreases d.specifiers@.len() - j,
                {
                    let ghost prev = out@;
                    match &d.specifiers[j] {
                        ImportSpecifier::Named(_) => {},
                        ImportSpecifier::Default(x) => {
                            let y = x.duplicate();
                            proof {
                                lemma_ids_view_push(out@, y);
                            }
                            out.push(y);
                        },
                        ImportSpecifier::Namespace(x) => {
                            let y = x.duplicate();
                            proof {
                                lemma_ids_view_push(out@, y);
                            }
                            out.push(y);
                        },
                    }
                    assert(ids_view(out@) =~= before + ns_specs(d.specifiers@, j + 1));
                    j = j + 1;
                }
            }
        }
        assert(ids_view(out@) =~= all_namespaces(*config, body@, i + 1));
        i = i + 1;
    }
    out
}

/// `C.propTypes = …` for a component `C`.
pub open spec fn is_component_prop_types_assign(e: ExprView, comps: Seq<IdView>) -> bool {
    match e {
        ExprView::Assign { left, .. } => match *left {
            ExprView::Member { obj, prop } => match *obj {
                ExprView::Ident(o) => comps.contains(o) && prop == MemberPropView::Ident("propTypes"@),
                _ => false,
            },
            _ => false,
        },
        _ => false,
    }
}

/// Some binding of `ns` occurs in `e`.
pub open spec fn contains_any(e: ExprView, ns: Seq<IdView>) -> bool {
    exists|k: int| 0 <= k < ns.len() && expr_contains_ident(e, ns[k])
}

/// A declarator whose initializer uses a prop-types binding has that
/// initializer removed or guarded.
pub open spec fn var_decl_step(mode: Mode, ns: Seq<IdView>, d: VarDeclaratorView) -> VarDeclaratorView {
    match d.init {
        Some(e) => if contains_any(e, ns) {
            VarDeclaratorView { name: d.name, init: Some(spec_remove_expr(mode, e)) }
        } else {
            d
        },
        None => d,
    }
}

/// One statement, at position `sidx` of its module or block. The
/// statements of a block are handled in the same way, each guarded
/// assignment inserted right after its class inside the block, and the
/// removed statements of the block dropped.
pub open spec fn stmt_step(mode: Mode, comps: Seq<IdView>, ns: Seq<IdView>, s: StmtView, sidx: int) -> (StmtView, Option<(int, StmtView)>)
    decreases s, 0nat,
{
    match s {
        StmtView::Expr(e) => if is_component_prop_types_assign(e, comps) {
            (StmtView::Expr(spec_remove_expr(mode, e)), None)
        } else {
            (s, None)
        },
        StmtView::ClassDecl { ident, class } => {
            let (c, ins) = spec_remove_class(mode, Some(ident), class, sidx);
            (StmtView::ClassDecl { ident, class: c }, ins)
        },
        StmtView::VarDecl(ds) => (StmtView::VarDecl(ds.map_values(|d: VarDeclaratorView| var_decl_step(mode, ns, d))), None),
        StmtView::Block(ss) => {
            let b1 = block_firsts(mode, comps, ns, ss, ss.len());
            let b2 = apply_stmt_inserts(b1, rev_seq(block_inserts(mode, comps, ns, ss, ss.len())));
            (StmtView::Block(drop_invalid(b2, b2.len() as int)), None)
        },
        _ => (s, None),
    }
}

/// The first `n` statements of a block, each handled at its position.
pub open spec fn block_firsts(mode: Mode, comps: Seq<IdView>, ns: Seq<IdView>, ss: Seq<StmtView>, n: nat) -> Seq<StmtView>
    decreases ss, n,
{
    if n == 0 || n > ss.len() {
        Seq::empty()
    } else {
        block_firsts(mode, comps, ns, ss, (n - 1) as nat).push(stmt_step(mode, comps, ns, ss[n - 1], n - 1).0)
    }
}

/// The statements to insert into a block, from its first `n` statements,
/// in order.
pub open spec fn block_inserts(mode: Mode, comps: Seq<IdView>, ns: Seq<IdView>, ss: Seq<StmtView>, n: nat) -> Seq<(int, StmtView)>
    decreases ss, n,
{
    if n == 0 || n > ss.len() {
        Seq::empty()
    } else {
        block_inserts(mode, comps, ns, ss, (n - 1) as nat) + opt_seq(stmt_step(mode, comps, ns, ss[n - 1], n - 1).1)
    }
}

/// Inserts the statements into a block in order, each at its position
/// when that position lies within the block.
pub open spec fn apply_stmt_inserts(body: Seq<StmtView>, ins: Seq<(int, StmtView)>) -> Seq<StmtView>
    decreases ins.len(),
{
    if ins.len() == 0 {
        body
    } else {
        let prev = apply_stmt_inserts(body, ins.drop_last());
        let (p, st) = ins.last();
        if 0 <= p <= prev.len() { prev.insert(p, st) } else { prev }
    }
}

/// The first `n` statements without the removed ones.
pub open spec fn drop_invalid(s: Seq<StmtView>, n: int) -> Seq<StmtView>
    decreases n,
{
    if n <= 0 {
        Seq::empty()
    } else {
        drop_invalid(s, n - 1) + if s[n - 1] == StmtView::Expr(ExprView::Invalid) { Seq::empty() } else { seq![s[n - 1]] }
    }
}

proof fn lemma_block_firsts(mode: Mode, comps: Seq<IdView>, ns: Seq<IdView>, ss: Seq<StmtView>, n: nat)
    requires
        n <= ss.len(),
    ensures
        block_firsts(mode, comps, ns, ss, n).len() == n,
        forall|i: int| 0 <= i < n ==> #[trigger] block_firsts(mode, comps, ns, ss, n)[i] == stmt_step(mode, comps, ns, ss[i], i).0,
    decreases n,
{
    if n > 0 {
        lemma_block_firsts(mode, comps, ns, ss, (n - 1) as nat);
    }
}

proof fn lemma_stmts_view_push(s: Seq<Stmt>, x: Stmt)
    ensures
        stmts_view(s.push(x), s.len() + 1) == stmts_view(s, s.len()).push(stmt_view(x)),
{
    lemma_stmts_view(s.push(x), s.len() + 1);
    lemma_stmts_view(s, s.len());
    assert(stmts_view(s.push(x), s.len() + 1) =~= stmts_view(s, s.len()).push(stmt_view(x)));
}

proof fn lemma_stmts_view_insert(s: Seq<Stmt>, p: int, x: Stmt)
    requires
        0 <= p <= s.len(),
    ensures
        stmts_view(s.insert(p, x), s.len() + 1) == stmts_view(s, s.len()).insert(p, stmt_view(x)),
{
    lemma_stmts_view(s.insert(p, x), s.len() + 1);
    lemma_stmts_view(s, s.len());
    assert(stmts_view(s.insert(p, x), s.len() + 1) =~= stmts_view(s, s.len()).insert(p, stmt_view(x)));
}

/// One exported class, at position `i` of the module.
pub open spec fn export_step(mode: Mode, item: ModuleItemView, i: int) -> (ModuleItemView, Option<(int, StmtView)>) {
    match item {
        ModuleItemView::ExportClass { ident, class } => {
            let (c, ins) = spec_remove_class(mode, Some(ident), class, i);
            (ModuleItemView::ExportClass { ident, class: c }, ins)
        },
        ModuleItemView::ExportDefaultClass { ident, class } => {
            let (c, ins) = spec_remove_class(mode, ident, class, i);
            (ModuleItemView::ExportDefaultClass { ident, class: c }, ins)
        },
        ModuleItemView::ExportDefaultClassExpr { ident, class } => {
            let (c, ins) = spec_remove_class(mode, ident, class, i);
            (ModuleItemView::ExportDefaultClassExpr { ident, class: c }, ins)
        },
        _ => (item, None),
    }
}

/// Item `i` after its top-level statement or exported class was handled.
pub open spec fn item_step(mode: Mode, comps: Seq<IdView>, ns: Seq<IdView>, body: Seq<ModuleItemView>, i: int) -> (ModuleItemView, Option<(int, StmtView)>, Option<(int, StmtView)>) {
    match body[i] {
        ModuleItemView::Stmt(s) => {
            let (t, ins) = stmt_step(mode, comps, ns, s, i);
            (ModuleItemView::Stmt(t), ins, None)
        },
        x => {
            let (y, ins) = export_step(mode, x, i);
            (y, None, ins)
        },
    }
}

pub open spec fn opt_seq<A>(o: Option<A>) -> Seq<A> {
    match o {
        Some(x) => seq![x],
        None => Seq::empty(),
    }
}

/// The statements to insert, each right after the class of its item,
/// from the first `n` items, in item order.
pub open spec fn all_inserts(mode: Mode, comps: Seq<IdView>, ns: Seq<IdView>, body: Seq<ModuleItemView>, n: int) -> Seq<(int, StmtView)>
    decreases n,
{
    if n <= 0 {
        Seq::empty()
    } else {
        let st = item_step(mode, comps, ns, body, n - 1);
        all_inserts(mode, comps, ns, body, n - 1) + opt_seq(st.1) + opt_seq(st.2)
    }
}

/// Inserts the statements in order, each at its position when that
/// position lies within the module.
pub open spec fn apply_inserts(body: Seq<ModuleItemView>, ins: Seq<(int, StmtView)>) -> Seq<ModuleItemView>
    decreases ins.len(),
{
    if ins.len() == 0 {
        body
    } else {
        let prev = apply_inserts(body, ins.drop_last());
        let (p, st) = ins.last();
        if 0 <= p <= prev.len() { prev.insert(p, ModuleItemView::Stmt(st)) } else { prev }
    }
}

/// The number of occurrences recorded for a binding (the first entry).
pub open spec fn count_of(counts: Seq<(Id, usize)>, id: IdView) -> Option<int>
    decreases counts.len(),
{
    if counts.len() == 0 {
        None
    } else {
        match count_of(counts.drop_last(), id) {
            Some(c) => Some(c),
            None => if counts.last().0@ == id { Some(counts.last().1 as int) } else { None },
        }
    }
}

pub open spec fn spec_local(s: ImportSpecifierView) -> IdView {
    match s {
        ImportSpecifierView::Named { local, .. } => local,
        ImportSpecifierView::Default(x) => x,
        ImportSpecifierView::Namespace(x) => x,
    }
}

/// Specifiers whose binding occurs more than once (or whose count is not
/// recorded), among the first `n`.
pub open spec fn used_specs(specs: Seq<ImportSpecifierView>, counts: Seq<(Id, usize)>, n: int) -> Seq<ImportSpecifierView>
    decreases n,
{
    if n <= 0 {
        Seq::empty()
    } else {
        used_specs(specs, counts, n - 1) + if count_of(counts, spec_local(specs[n - 1])) == Some(1int) {
            Seq::empty()
        } else {
            seq![specs[n - 1]]
        }
    }
}

/// An import from a prop-types library loses the bindings that occur only
/// in the import itself; it becomes an empty statement when none is left.
pub open spec fn import_step(config: ReactRemovePropTypeConfig, counts: Seq<(Id, usize)>, item: ModuleItemView) -> ModuleItemView {
    match item {
        ModuleItemView::Import(d) => if spec_is_match_library(config, d.src) {
            let kept = used_specs(d.specifiers, counts, d.specifiers.len() as int);
            if kept.len() == 0 {
                ModuleItemView::Stmt(StmtView::Empty)
            } else {
                ModuleItemView::Import(ImportDeclView { specifiers: kept, ..d })
            }
        } else {
            item
        },
        _ => item,
    }
}

pub open spec fn is_invalid_stmt(item: ModuleItemView) -> bool {
    item == ModuleItemView::Stmt(StmtView::Expr(ExprView::Invalid))
}

/// The items after the import step, without the removed statements.
pub open spec fn finish_items(config: ReactRemovePropTypeConfig, counts: Seq<(Id, usize)>, body: Seq<ModuleItemView>, n: int) -> Seq<ModuleItemView>
    decreases n,
{
    if n <= 0 {
        Seq::empty()
    } else {
        let x = if config.remove_import { import_step(config, counts, body[n - 1]) } else { body[n - 1] };
        finish_items(config, counts, body, n - 1) + if is_invalid_stmt(x) { Seq::empty() } else { seq![x] }
    }
}

/// The module after the `propTypes` removal: statements (those of nested
/// blocks and function bodies included) and exported classes are handled, each guarded assignment is inserted right
/// after its class (inserting from the last item back, so that positions
/// stay valid), unused prop-types imports are dropped when asked, and
/// removed statements disappear.
pub open spec fn spec_remove_prop_types(
    config: ReactRemovePropTypeConfig,
    comps: Seq<IdView>,
    counts: Seq<(Id, usize)>,
    body: Seq<ModuleItem>,
) -> Seq<ModuleItemView> {
    let v = items_view(body);
    let ns = all_namespaces(config, body, body.len() as int);
    let mode = config.mode;
    let b1 = Seq::new(v.len(), |i: int| item_step(mode, comps, ns, v, i).0);
    let ins = rev_seq(all_inserts(mode, comps, ns, v, v.len() as int));
    let b2 = apply_inserts(b1, ins);
    finish_items(config, counts, b2, b2.len() as int)
}

fn is_component_prop_types_assign_exec(e: &Expr, comps: &Vec<Id>) -> (r: bool)
    ensures
        r == is_component_prop_types_assign(e@, ids_view(comps@)),
{
    proof {
        reveal_strlit("propTypes");
        reveal_with_fuel(expr_view, 3);
    }
    match e {
        Expr::Assign { left, .. } => match &**left {
            Expr::Member { obj, prop } => match &**obj {
                Expr::Ident(o) => {
                    let c = id_in(comps, o);
                    assert(c == ids_view(comps@).contains(o@)) by {
                        if c {
                            let k = choose|k: int| 0 <= k < comps@.len() && comps@[k]@ == o@;
                            assert(ids_view(comps@)[k] == o@);
                        }
                        if ids_view(comps@).contains(o@) {
                            let k = choose|k: int| 0 <= k < ids_view(comps@).len() && ids_view(comps@)[k] == o@;
                            assert(comps@[k]@ == o@);
                        }
                    }
                    c && match prop {
                        MemberProp::Ident(p) => str_eq(p.as_str(), "propTypes"),
                        MemberProp::Other(_) => false,
                    }
                },
                _ => false,
            },
            _ => false,
        },
        _ => false,
    }
}

fn contains_any_exec(e: &Expr, ns: &Vec<Id>) -> (r: bool)
    ensures
        r == contains_any(e@, ids_view(ns@)),
{
    let mut k: usize = 0;
    while k < ns.len()
        invariant
            k <= ns@.len(),
            forall|j: int| 0 <= j < k ==> !expr_contains_ident(e@, ids_view(ns@)[j]),
        decreases ns@.len() - k,
    {
        if contains_ident(e, &ns[k]) {
            assert(expr_contains_ident(e@, ids_view(ns@)[k as int]));
            return true;
        }
        k = k + 1;
    }
    false
}

fn var_decls_step(mode: Mode, ns: &Vec<Id>, ds: Vec<VarDeclarator>) -> (r: Vec<VarDeclarator>)
    ensures
        decls_view(r@) == decls_view(ds@).map_values(|d: VarDeclaratorView| var_decl_step(mode, ids_view(ns@), d)),
{
    let ghost orig = ds@;
    let n = ds.len();
    let mut rv = reversed(ds);
    let mut out: Vec<VarDeclarator> = Vec::new();
    let mut i: usize = 0;
    while i < n
        invariant
            n == orig.len(),
            i <= n,
            rv@ == Seq::new((n - i) as nat, |k: int| orig[n - 1 - k]),
            decls_view(out@) == decls_view(orig).map_values(|d: VarDeclaratorView| var_decl_step(mode, ids_view(ns@), d)).take(i as int),
        decreases n - i,
    {
        let d = rv.pop().unwrap();
        assert(d == orig[i as int]);
        let nd = match d.init {
            Some(e) => if contains_any_exec(&e, ns) {
                VarDeclarator { name: d.name, init: Some(remove_expr(mode, e)) }
            } else {
                VarDeclarator { name: d.name, init: Some(e) }
            },
            None => VarDeclarator { name: d.name, init: None },
        };
        let ghost prev = out@;
        out.push(nd);
        assert(decls_view(out@) =~= decls_view(prev).push(nd@));
        assert(rv@ =~= Seq::new((n - i - 1) as nat, |k: int| orig[n - 1 - k]));
        assert(decls_view(out@) =~= decls_view(orig).map_values(|d: VarDeclaratorView| var_decl_step(mode, ids_view(ns@), d)).take(i + 1));
        i = i + 1;
    }
    assert(decls_view(orig).map_values(|d: VarDeclaratorView| var_decl_step(mode, ids_view(ns@), d)).take(n as int)
        =~= decls_view(orig).map_values(|d: VarDeclaratorView| var_decl_step(mode, ids_view(ns@), d)));
    out
}

fn stmt_step_exec(mode: Mode, comps: &Vec<Id>, ns: &Vec<Id>, s: Stmt, sidx: usize) -> (r: (Stmt, Option<(usize, Stmt)>))
    requires
        sidx < usize::MAX,
    ensures
        ({
            let (t, ins) = stmt_step(mode, ids_view(comps@), ids_view(ns@), s@, sidx as int);
            &&& r.0@ == t
            &&& match r.1 {
                Some((p, x)) => ins == Some((p as int, x@)),
                None => ins is None,
            }
        }),
    decreases s, 1nat,
{
    match s {
        Stmt::Expr(e) => {
            if is_component_prop_types_assign_exec(&e, comps) {
                (Stmt::Expr(remove_expr(mode, e)), None)
            } else {
                (Stmt::Expr(e), None)
            }
        },
        Stmt::ClassDecl { ident, class } => {
            let (c, ins) = remove_class(mode, Some(&ident), class, sidx);
            (Stmt::ClassDecl { ident, class: c }, ins)
        },
        Stmt::VarDecl(ds) => (Stmt::VarDecl(var_decls_step(mode, ns, ds)), None),
        Stmt::Block(v) => (Stmt::Block(block_step_exec(mode, comps, ns, v, Ghost(s))), None),
        Stmt::Empty => (Stmt::Empty, None),
        Stmt::Other(h) => (Stmt::Other(h), None),
    }
}

/// The statements of a block, handled as `stmt_step` says.
fn block_step_exec(mode: Mode, comps: &Vec<Id>, ns: &Vec<Id>, v: Vec<Stmt>, Ghost(whole): Ghost<Stmt>) -> (r: Vec<Stmt>)
    requires
        whole == Stmt::Block(v),
    ensures
        ({
            let ss = stmts_view(v@, v@.len());
            let cv = ids_view(comps@);
            let nv = ids_view(ns@);
            let b1 = block_firsts(mode, cv, nv, ss, ss.len());
            let b2 = apply_stmt_inserts(b1, rev_seq(block_inserts(mode, cv, nv, ss, ss.len())));
            stmts_view(r@, r@.len()) == drop_invalid(b2, b2.len() as int)
        }),
    decreases whole, 0nat,
{
    let ghost cv = ids_view(comps@);
    let ghost nv = ids_view(ns@);
    let ghost ch = v;
    let ghost orig = v@;
    let ghost sv = stmts_view(orig, orig.len());
    proof {
        lemma_stmts_view(orig, orig.len());
    }
    let n = v.len();
    let mut rest = reversed(v);
    let mut out: Vec<Stmt> = Vec::new();
    let mut ins: Vec<(usize, Stmt)> = Vec::new();
    let mut k: usize = 0;
    while k < n
        invariant
            n == orig.len(),
            orig == ch@,
            whole == Stmt::Block(ch),
            sv == stmts_view(orig, orig.len()),
            sv.len() == n,
            forall|i: int| 0 <= i < n ==> #[trigger] sv[i] == stmt_view(orig[i]),
            cv == ids_view(comps@),
            nv == ids_view(ns@),
            k <= n,
            rest@ == Seq::new((n - k) as nat, |t: int| orig[n - 1 - t]),
            out@.len() == k,
            forall|i: int| 0 <= i < k ==> #[trigger] out@[i]@ == stmt_step(mode, cv, nv, sv[i], i).0,
            ins_view(ins@) == block_inserts(mode, cv, nv, sv, k as nat),
        decreases n - k,
    {
        let x = rest.pop().unwrap();
        assert(x == orig[k as int]);
        assert(rest@ =~= Seq::new((n - k - 1) as nat, |t: int| orig[n - 1 - t]));
        proof {
            assert(decreases_to!(whole => whole->Block_0));
            assert(decreases_to!(ch => ch[k as int]));
        }
        let (y, one) = stmt_step_exec(mode, comps, ns, x, k);
        out.push(y);
        match one {
            Some(p) => {
                proof {
                    lemma_ins_view_push(ins@, p);
                }
                ins.push(p);
            },
            None => {},
        }
        assert(ins_view(ins@) =~= block_inserts(mode, cv, nv, sv, (k + 1) as nat));
        k = k + 1;
    }
    let ghost b1v = block_firsts(mode, cv, nv, sv, sv.len());
    proof {
        lemma_block_firsts(mode, cv, nv, sv, sv.len());
        lemma_stmts_view(out@, out@.len());
        assert forall|i: int| 0 <= i < n implies #[trigger] stmts_view(out@, out@.len())[i] == b1v[i] by {
            assert(stmts_view(out@, out@.len())[i] == stmt_view(out@[i]));
            assert(out@[i]@ == stmt_step(mode, cv, nv, sv[i], i).0);
        }
        assert(stmts_view(out@, out@.len()) =~= b1v);
    }
    let ghost insv = rev_seq(ins_view(ins@));
    let ins_all = reversed(ins);
    assert(ins_view(ins_all@) =~= insv);
    let ghost all = ins_all@;
    let total = ins_all.len();
    let mut rins = reversed(ins_all);
    let mut b2 = out;
    let mut j: usize = 0;
    assert(insv.take(0) =~= Seq::<(int, StmtView)>::empty());
    while j < total
        invariant
            total == all.len(),
            ins_view(all) == insv,
            j <= total,
            rins@ == Seq::new((total - j) as nat, |t: int| all[total - 1 - t]),
            stmts_view(b2@, b2@.len()) == apply_stmt_inserts(b1v, insv.take(j as int)),
        decreases total - j,
    {
        let (p, st) = rins.pop().unwrap();
        assert((p, st) == all[j as int]);
        assert(rins@ =~= Seq::new((total - j - 1) as nat, |t: int| all[total - 1 - t]));
        assert(insv.take(j + 1).drop_last() =~= insv.take(j as int));
        assert(insv.take(j + 1).last() == (p as int, st@));
        proof {
            lemma_stmts_view(b2@, b2@.len());
        }
        if p <= b2.len() {
            let ghost before = b2@;
            proof {
                lemma_stmts_view(before, before.len());
                lemma_stmts_view_insert(before, p as int, st);
            }
            b2.insert(p, st);
        }
        j = j + 1;
    }
    assert(insv.take(total as int) =~= insv);
    let ghost b2v = stmts_view(b2@, b2@.len());
    let ghost b2o = b2@;
    proof {
        lemma_stmts_view(b2o, b2o.len());
    }
    let m = b2.len();
    let mut r2 = reversed(b2);
    let mut res: Vec<Stmt> = Vec::new();
    let mut t: usize = 0;
    while t < m
        invariant
            m == b2o.len(),
            b2v == stmts_view(b2o, b2o.len()),
            forall|i: int| 0 <= i < m ==> #[trigger] b2v[i] == stmt_view(b2o[i]),
            t <= m,
            r2@ == Seq::new((m - t) as nat, |q: int| b2o[m - 1 - q]),
            stmts_view(res@, res@.len()) == drop_invalid(b2v, t as int),
        decreases m - t,
    {
        let item = r2.pop().unwrap();
        assert(item == b2o[t as int]);
        assert(r2@ =~= Seq::new((m - t - 1) as nat, |q: int| b2o[m - 1 - q]));
        let invalid = match &item {
            Stmt::Expr(Expr::Invalid) => true,
            _ => false,
        };
        assert(invalid == (b2v[t as int] == StmtView::Expr(ExprView::Invalid))) by {
            reveal_with_fuel(expr_view, 2);
        }
        if !invalid {
            proof {
                lemma_stmts_view_push(res@, item);
            }
            res.push(item);
        }
        assert(stmts_view(res@, res@.len()) =~= drop_invalid(b2v, t + 1));
        t = t + 1;
    }
    res
}

fn export_step_exec(mode: Mode, item: ModuleItem, i: usize) -> (r: (ModuleItem, Option<(usize, Stmt)>))
    requires
        i < usize::MAX,
    ensures
        ({
            let (t, ins) = export_step(mode, item@, i as int);
            &&& r.0@ == t
            &&& match r.1 {
                Some((p, x)) => ins == Some((p as int, x@)),
                None => ins is None,
            }
        }),
{
    match item {
        ModuleItem::ExportClass { ident, class } => {
            let (c, ins) = remove_class(mode, Some(&ident), class, i);
            (ModuleItem::ExportClass { ident, class: c }, ins)
        },
        ModuleItem::ExportDefaultClass { ident, class } => {
            let (c, ins) = remove_class(mode, ident.as_ref(), class, i);
            (ModuleItem::ExportDefaultClass { ident, class: c }, ins)
        },
        ModuleItem::ExportDefaultClassExpr { ident, class } => {
            let (c, ins) = remove_class(mode, ident.as_ref(), class, i);
            (ModuleItem::ExportDefaultClassExpr { ident, class: c }, ins)
        },
        other => (other, None),
    }
}

pub open spec fn ins_view(v: Seq<(usize, Stmt)>) -> Seq<(int, StmtView)> {
    v.map_values(|x: (usize, Stmt)| (x.0 as int, x.1@))
}

pub proof fn lemma_ins_view_push(s: Seq<(usize, Stmt)>, x: (usize, Stmt))
    ensures
        ins_view(s.push(x)) == ins_view(s).push((x.0 as int, x.1@)),
{
    assert(ins_view(s.push(x)) =~= ins_view(s).push((x.0 as int, x.1@)));
}

pub proof fn lemma_items_view_push(s: Seq<ModuleItem>, x: ModuleItem)
    ensures
        items_view(s.push(x)) == items_view(s).push(x@),
{
    assert(items_view(s.push(x)) =~= items_view(s).push(x@));
}

fn count_of_exec(counts: &Vec<(Id, usize)>, id: &Id) -> (r: Option<usize>)
    ensures
        match r {
            Some(c) => count_of(counts@, id@) == Some(c as int),
            None => count_of(counts@, id@) is None,
        },
{
    let mut k: usize = 0;
    assert(counts@.take(0) =~= Seq::<(Id, usize)>::empty());
    while k < counts.len()
        invariant
            k <= counts@.len(),
            count_of(counts@.take(k as int), id@) is None,
        decreases counts@.len() - k,
    {
        assert(counts@.take(k + 1).drop_last() =~= counts@.take(k as int));
        if counts[k].0.same(id) {
            proof {
                lemma_count_of_extend(counts@, id@, k + 1, counts@.len() as int);
            }
            assert(counts@.take(counts@.len() as int) =~= counts@);
            return Some(counts[k].1);
        }
        k = k + 1;
    }
    assert(counts@.take(counts@.len() as int) =~= counts@);
    None
}

proof fn lemma_count_of_extend(counts: Seq<(Id, usize)>, id: IdView, n: int, m: int)
    requires
        0 <= n <= m <= counts.len(),
        count_of(counts.take(n), id) is Some,
    ensures
        count_of(counts.take(m), id) == count_of(counts.take(n), id),
    decreases m - n,
{
    if m > n {
        lemma_count_of_extend(counts, id, n, m - 1);
        assert(counts.take(m).drop_last() =~= counts.take(m - 1));
    }
}

fn import_step_exec(config: &ReactRemovePropTypeConfig, counts: &Vec<(Id, usize)>, item: ModuleItem) -> (r: ModuleItem)
    ensures
        r@ == import_step(*config, counts@, item@),
{
    match item {
        ModuleItem::Import(d) => {
            if !config.is_match_library(d.src.as_str()) {
                return ModuleItem::Import(d);
            }
            let ghost orig = d.specifiers@;
            let ghost sv = specifiers_view(orig);
            let n = d.specifiers.len();
            let mut rv = reversed(d.specifiers);
            let mut kept: Vec<ImportSpecifier> = Vec::new();
            let mut j: usize = 0;
            while j < n
                invariant
                    n == orig.len(),
                    sv == specifiers_view(orig),
                    j <= n,
                    rv@ == Seq::new((n - j) as nat, |k: int| orig[n - 1 - k]),
                    specifiers_view(kept@) == used_specs(sv, counts@, j as int),
                decreases n - j,
            {
                let x = rv.pop().unwrap();
                assert(x == orig[j as int]);
                assert(rv@ =~= Seq::new((n - j - 1) as nat, |k: int| orig[n - 1 - k]));
                assert(x@ == sv[j as int]);
                assert(spec_local(x@) == x.local_view());
                let c = count_of_exec(counts, x.local());
                match c {
                    Some(1) => {},
                    _ => {
                        proof {
                            lemma_specifiers_view_push(kept@, x);
                        }
                        kept.push(x);
                    },
                }
                assert(specifiers_view(kept@) =~= used_specs(sv, counts@, j + 1));
                j = j + 1;
            }
            if kept.len() == 0 {
                ModuleItem::Stmt(Stmt::Empty)
            } else {
                ModuleItem::Import(ImportDecl { src: d.src, specifiers: kept, type_only: d.type_only })
            }
        },
        other => other,
    }
}

/// The `propTypes` removal.
pub struct ReactRemovePropTypes {
    pub config: ReactRemovePropTypeConfig,
}

/// A module for the `propTypes` removal.
pub struct Module {
    pub body: Vec<ModuleItem>,
}

impl ReactRemovePropTypes {
    /// Applies the removal to a module, nested blocks included. `components` are
    /// the React components of the module (function and class components
    /// found by the caller from its bindings); `ident_counts` records how
    /// often each binding occurs once the rest of the removal is done.
    pub fn visit_mut_module(&self, module: &mut Module, components: &Vec<Id>, ident_counts: &Vec<(Id, usize)>)
        ensures
            items_view(final(module).body@) == spec_remove_prop_types(self.config, ids_view(components@), ident_counts@, old(module).body@),
    {
        let ns = collect_namespaces(&self.config, &module.body);
        let mut body: Vec<ModuleItem> = Vec::new();
        std::mem::swap(&mut body, &mut module.body);
        let ghost orig = body@;
        let ghost v = items_view(body@);
        let ghost comps = ids_view(components@);
        let ghost nsv = ids_view(ns@);
        let mode = self.config.mode;
        let n = body.len();
        let mut rv = reversed(body);
        let mut b1: Vec<ModuleItem> = Vec::new();
        let mut ins: Vec<(usize, Stmt)> = Vec::new();
        let mut i: usize = 0;
        while i < n
            invariant
                n == orig.len(),
                v == items_view(orig),
                comps == ids_view(components@),
                nsv == ids_view(ns@),
                mode == self.config.mode,
                i <= n,
                rv@ == Seq::new((n - i) as nat, |k: int| orig[n - 1 - k]),
                items_view(b1@) == Seq::new(i as nat, |k: int| item_step(mode, comps, nsv, v, k).0),
                ins_view(ins@) == all_inserts(mode, comps, nsv, v, i as int),
            decreases n - i,
        {
            let ghost rv0 = rv@;
            let item = rv.pop().unwrap();
            assert(item == orig[i as int]);
            assert(rv@ =~= Seq::new((n - i - 1) as nat, |k: int| orig[n - 1 - k]));
            assert(v[i as int] == item@);
            match item {
                ModuleItem::Stmt(st) => {
                    let (t, one) = stmt_step_exec(mode, components, &ns, st, i);
                    let x = ModuleItem::Stmt(t);
                    assert(item_step(mode, comps, nsv, v, i as int).0 == x@);
                    proof {
                        lemma_items_view_push(b1@, x);
                    }
                    b1.push(x);
                    match one {
                        Some(p) => {
                            proof {
                                lemma_ins_view_push(ins@, p);
                            }
                            ins.push(p);
                        },
                        None => {},
                    }
                },
                other => {
                    let (x, one) = export_step_exec(mode, other, i);
                    assert(item_step(mode, comps, nsv, v, i as int).0 == x@);
                    proof {
                        lemma_items_view_push(b1@, x);
                    }
                    b1.push(x);
                    match one {
                        Some(p) => {
                            proof {
                                lemma_ins_view_push(ins@, p);
                            }
                            ins.push(p);
                        },
                        None => {},
                    }
                },
            }
            assert(items_view(b1@) =~= Seq::new((i + 1) as nat, |k: int| item_step(mode, comps, nsv, v, k).0));
            assert(ins_view(ins@) =~= all_inserts(mode, comps, nsv, v, i + 1));
            i = i + 1;
        }
        let ghost b1v = items_view(b1@);
        let ghost insv = rev_seq(ins_view(ins@));
        let ins_all = reversed(ins);
        assert(ins_view(ins_all@) =~= insv);
        let ghost all = ins_all@;
        let total = ins_all.len();
        let mut rins = reversed(ins_all);
        let mut b2 = b1;
        let mut k: usize = 0;
        assert(insv.take(0) =~= Seq::<(int, StmtView)>::empty());
        while k < total
            invariant
                total == all.len(),
                ins_view(all) == insv,
                k <= total,
                rins@ == Seq::new((total - k) as nat, |t: int| all[total - 1 - t]),
                items_view(b2@) == apply_inserts(b1v, insv.take(k as int)),
            decreases total - k,
        {
            let (p, st) = rins.pop().unwrap();
            assert((p, st) == all[k as int]);
            assert(rins@ =~= Seq::new((total - k - 1) as nat, |t: int| all[total - 1 - t]));
            assert(insv.take(k + 1).drop_last() =~= insv.take(k as int));
            assert(insv.take(k + 1).last() == (p as int, st@));
            if p <= b2.len() {
                let ghost before = b2@;
                b2.insert(p, ModuleItem::Stmt(st));
                assert(items_view(b2@) =~= items_view(before).insert(p as int, ModuleItemView::Stmt(st@)));
            }
            k = k + 1;
        }
        assert(insv.take(total as int) =~= insv);
        let ghost b2v = items_view(b2@);
        let ghost b2o = b2@;
        let m = b2.len();
        let mut r2 = reversed(b2);
        let mut out: Vec<ModuleItem> = Vec::new();
        let mut k: usize = 0;
        while k < m
            invariant
                m == b2o.len(),
                b2v == items_view(b2o),
                k <= m,
                r2@ == Seq::new((m - k) as nat, |t: int| b2o[m - 1 - t]),
                items_view(out@) == finish_items(self.config, ident_counts@, b2v, k as int),
            decreases m - k,
        {
            let item = r2.pop().unwrap();
            assert(item == b2o[k as int]);
            assert(r2@ =~= Seq::new((m - k - 1) as nat, |t: int| b2o[m - 1 - t]));
            let x = if self.config.remove_import {
                import_step_exec(&self.config, ident_counts, item)
            } else {
                item
            };
            let invalid = match &x {
                ModuleItem::Stmt(Stmt::Expr(Expr::Invalid)) => true,
                _ => false,
            };
            if !invalid {
                proof {
                    lemma_items_view_push(out@, x);
                }
                out.push(x);
            }
            assert(items_view(out@) =~= finish_items(self.config, ident_counts@, b2v, k + 1));
            k = k + 1;
        }
        module.body = out;
    }
}


/// Some import from `react` has a default specifier.
pub open spec fn module_has_default_react(items: Seq<ModuleItemView>) -> bool {
    exists|i: int| 0 <= i < items.len() && is_default_react_import(#[trigger] items[i])
}

/// A default import from `react`.
pub open spec fn is_default_react_import(item: ModuleItemView) -> bool {
    item matches ModuleItemView::Import(d) && d.src == "react"@ && exists|j: int| 0 <= j < d.specifiers.len() && d.specifiers[j] is Default
}

/// `import React from 'react'`, the binding in context `ctxt`.
pub open spec fn react_import_view(ctxt: u32) -> ImportDeclView {
    ImportDeclView { src: "react"@, specifiers: seq![ImportSpecifierView::Default(IdView { sym: "React"@, ctxt })], type_only: false }
}

/// Adds `import React from 'react'` to modules that lack it.
pub struct ImportReact {
    pub top_level_ctxt: u32,
}

pub fn auto_import_react(top_level_ctxt: u32) -> (r: ImportReact)
    ensures
        r.top_level_ctxt == top_level_ctxt,
{
    ImportReact { top_level_ctxt }
}

fn has_default_specifier(d: &ImportDecl) -> (r: bool)
    ensures
        r == exists|j: int| 0 <= j < d@.specifiers.len() && d@.specifiers[j] is Default,
{
    let mut j: usize = 0;
    while j < d.specifiers.len()
        invariant
            j <= d.specifiers@.len(),
            forall|k: int| 0 <= k < j ==> !(d@.specifiers[k] is Default),
        decreases d.specifiers@.len() - j,
    {
        assert(d@.specifiers[j as int] == d.specifiers@[j as int]@);
        match &d.specifiers[j] {
            ImportSpecifier::Default(_) => return true,
            _ => {},
        }
        j = j + 1;
    }
    false
}

impl ImportReact {
    /// Inserts the import at the top of a module that has no default
    /// import from `react`.
    pub fn visit_mut_module(&self, module: &mut Module)
        ensures
            items_view(final(module).body@) == spec_import_react(self.top_level_ctxt, items_view(old(module).body@)),
    {
        proof {
            reveal_strlit("react");
        }
        let ghost iv = items_view(module.body@);
        let mut need_import = true;
        let mut i: usize = 0;
        while i < module.body.len()
            invariant
                iv == items_view(module.body@),
                module.body@ == old(module).body@,
                i <= module.body@.len(),
                need_import == !exists|a: int| 0 <= a < i && is_default_react_import(#[trigger] iv[a]),
            decreases module.body@.len() - i,
        {
            assert(iv[i as int] == module.body@[i as int]@);
            match &module.body[i] {
                ModuleItem::Import(d) => {
                    if str_eq(d.src.as_str(), "react") && has_default_specifier(d) {
                        need_import = false;
                    }
                },
                _ => {},
            }
            i = i + 1;
        }
        if need_import {
            let decl = react_import(self.top_level_ctxt);
            let mut body: Vec<ModuleItem> = Vec::new();
            std::mem::swap(&mut body, &mut module.body);
            let mut body = crate::react_rebind::rebind_react(self.top_level_ctxt, body);
            let ghost before = body@;
            body.insert(0, ModuleItem::Import(decl));
            assert(items_view(body@) =~= seq![ModuleItemView::Import(react_import_view(self.top_level_ctxt))] + items_view(before));
            module.body = body;
        }
    }
}


/// The module after the automatic React import: unchanged when it has a
/// default import from `react`; otherwise `import React from 'react'`
/// comes first, its binding in context `ctxt`, and every identifier named
/// `React` in the items that follow is moved into that context, so that it
/// refers to the new binding.
pub open spec fn spec_import_react(ctxt: u32, items: Seq<ModuleItemView>) -> Seq<ModuleItemView> {
    if module_has_default_react(items) {
        items
    } else {
        seq![ModuleItemView::Import(react_import_view(ctxt))] + crate::react_rebind::rebind_items(ctxt, items)
    }
}

/// Only an import from `react` counts: a module none of whose imports
/// comes from `react` (whatever default imports it has from elsewhere)
/// gets `import React from 'react'` at its top, followed by its own items.
pub proof fn law_import_react_added_without_react_source(ctxt: u32, items: Seq<ModuleItemView>)
    requires
        forall|i: int| 0 <= i < items.len() ==> !(#[trigger] items[i] matches ModuleItemView::Import(d) && d.src == "react"@),
    ensures
        spec_import_react(ctxt, items).len() == items.len() + 1,
        spec_import_react(ctxt, items)[0] == ModuleItemView::Import(react_import_view(ctxt)),
{
    assert(!module_has_default_react(items)) by {
        if module_has_default_react(items) {
            let i = choose|i: int| 0 <= i < items.len() && is_default_react_import(#[trigger] items[i]);
            assert(items[i] matches ModuleItemView::Import(d) && d.src == "react"@);
        }
    }
}

/// The automatic React import is idempotent: a second run leaves the
/// module as the first one made it, and after one run the module always
/// has a default import from `react`.
pub proof fn law_import_react_idempotent(ctxt: u32, items: Seq<ModuleItemView>)
    ensures
        module_has_default_react(spec_import_react(ctxt, items)),
        spec_import_react(ctxt, spec_import_react(ctxt, items)) == spec_import_react(ctxt, items),
{
    let once = spec_import_react(ctxt, items);
    if !module_has_default_react(items) {
        let first = ModuleItemView::Import(react_import_view(ctxt));
        assert(once[0] == first);
        assert(react_import_view(ctxt).specifiers[0] is Default);
        assert(is_default_react_import(first));
        assert(is_default_react_import(once[0]));
    }
}

/// A declaration the component search reads. What the runtime's React
/// helpers say of it (a component class, a function that returns JSX, a
/// value that is a component) is found by the caller from the module's
/// bindings and handed over with it.
pub enum ComponentCandidate {
    /// A named class (declaration, expression or export default), with its
    /// super class when that is an identifier.
    Class { ident: Id, is_component_class: bool, super_ident: Option<String> },
    /// A named function (declaration or export), and whether its body
    /// returns JSX.
    Function { ident: Id, returns_jsx: bool },
    /// `var X = <init>` or `X = <value>`, and whether the value is a
    /// function or class component.
    Binding { ident: Id, is_component: bool },
}

pub open spec fn candidate_ident(c: ComponentCandidate) -> IdView {
    match c {
        ComponentCandidate::Class { ident, .. } => ident@,
        ComponentCandidate::Function { ident, .. } => ident@,
        ComponentCandidate::Binding { ident, .. } => ident@,
    }
}

/// A class is a component when the helpers say so or when one of the
/// configured class name patterns matches its super class; a function when
/// it returns JSX; a binding when its value is a component.
pub open spec fn is_component_candidate(config: ReactRemovePropTypeConfig, c: ComponentCandidate) -> bool {
    match c {
        ComponentCandidate::Class { is_component_class, super_ident, .. } => is_component_class || match super_ident {
            Some(s) => any_match(config.class_name_matchers@, s@),
            None => false,
        },
        ComponentCandidate::Function { returns_jsx, .. } => returns_jsx,
        ComponentCandidate::Binding { is_component, .. } => is_component,
    }
}

/// The bindings of the components among the first `n` candidates, each
/// once, in the order first found.
pub open spec fn spec_components(config: ReactRemovePropTypeConfig, cs: Seq<ComponentCandidate>, n: int) -> Seq<IdView>
    decreases n,
{
    if n <= 0 {
        Seq::empty()
    } else {
        let prev = spec_components(config, cs, n - 1);
        let id = candidate_ident(cs[n - 1]);
        if is_component_candidate(config, cs[n - 1]) && !prev.contains(id) { prev.push(id) } else { prev }
    }
}

fn contains_id_view(ids: &Vec<Id>, id: &Id) -> (r: bool)
    ensures
        r == ids_view(ids@).contains(id@),
{
    let mut k: usize = 0;
    while k < ids.len()
        invariant
            k <= ids@.len(),
            forall|j: int| 0 <= j < k ==> ids@[j]@ != id@,
        decreases ids@.len() - k,
    {
        if ids[k].same(id) {
            assert(ids_view(ids@)[k as int] == id@);
            return true;
        }
        k = k + 1;
    }
    assert forall|j: int| 0 <= j < ids_view(ids@).len() implies ids_view(ids@)[j] != id@ by {
        assert(ids_view(ids@)[j] == ids@[j]@);
    }
    false
}

/// The React components among the candidates of a module, whose
/// `propTypes` the removal handles.
pub fn collect_components(config: &ReactRemovePropTypeConfig, candidates: &Vec<ComponentCandidate>) -> (r: Vec<Id>)
    ensures
        ids_view(r@) == spec_components(*config, candidates@, candidates@.len() as int),
{
    let mut out: Vec<Id> = Vec::new();
    let mut i: usize = 0;
    while i < candidates.len()
        invariant
            i <= candidates@.len(),
            ids_view(out@) == spec_components(*config, candidates@, i as int),
        decreases candidates@.len() - i,
    {
        let (ident, is_component) = match &candidates[i] {
            ComponentCandidate::Class { ident, is_component_class, super_ident } => {
                let by_super = match super_ident {
                    Some(s) => any_is_match(&config.class_name_matchers, s.as_str()),
                    None => false,
                };
                (ident, *is_component_class || by_super)
            },
            ComponentCandidate::Function { ident, returns_jsx } => (ident, *returns_jsx),
            ComponentCandidate::Binding { ident, is_component } => (ident, *is_component),
        };
        if is_component && !contains_id_view(&out, ident) {
            let y = ident.duplicate();
            proof {
                lemma_ids_view_push(out@, y);
            }
            out.push(y);
        }
        i = i + 1;
    }
    out
}

} // verus!
