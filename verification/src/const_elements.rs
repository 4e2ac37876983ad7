//! Hoists constant JSX out of render functions: an element whose tag,
//! attributes and children cannot change between calls is built once,
//! `_div || (_div = <div></div>)`, with `_div` declared at the top of the
//! enclosing scope.

use vstd::prelude::*;
use crate::ast::{Id, IdView, ImportDecl, ImportSpecifier, ImportSpecifierView};
use crate::text::{char_is_lowercase, push_str, push_char, push_decimal, spec_char_is_lowercase, spec_decimal, str_eq, to_owned_string};

verus! {

/// Globals whose elements count as constant, and tags that may take
/// functions and objects as props.
pub struct ReactConstElementsOptions {
    pub immutable_globals: Vec<String>,
    pub allow_mutable_props_on_tags: Vec<String>,
}

impl Default for ReactConstElementsOptions {
    fn default() -> (r: ReactConstElementsOptions)
        ensures
            r.immutable_globals@.len() == 0,
            r.allow_mutable_props_on_tags@.len() == 0,
    {
        ReactConstElementsOptions { immutable_globals: Vec::new(), allow_mutable_props_on_tags: Vec::new() }
    }
}

pub open spec fn strs_view(v: Seq<String>) -> Seq<Seq<char>> {
    v.map_values(|s: String| s@)
}

pub open spec fn ids_view(v: Seq<Id>) -> Seq<IdView> {
    v.map_values(|x: Id| x@)
}

/// How many of the names are at least `n` characters long.
pub open spec fn count_long(used: Seq<Seq<char>>, n: nat) -> nat
    decreases used.len(),
{
    if used.len() == 0 {
        0
    } else {
        count_long(used.drop_last(), n) + if used.last().len() >= n { 1nat } else { 0nat }
    }
}

proof fn lemma_count_long_le(used: Seq<Seq<char>>, n: nat)
    ensures
        count_long(used, n) <= used.len(),
    decreases used.len(),
{
    if used.len() > 0 {
        lemma_count_long_le(used.drop_last(), n);
    }
}

pub proof fn lemma_count_long_decreases(used: Seq<Seq<char>>, name: Seq<char>, longer: Seq<char>)
    requires
        used.contains(name),
        longer.len() > name.len(),
    ensures
        count_long(used, longer.len()) < count_long(used, name.len()),
    decreases used.len(),
{
    if used.len() > 0 {
        if used.last() == name {
            lemma_count_long_mono(used.drop_last(), name.len(), longer.len());
        } else {
            assert(used.drop_last().contains(name)) by {
                let i = choose|i: int| 0 <= i < used.len() && used[i] == name;
                assert(i < used.len() - 1);
                assert(used.drop_last()[i] == name);
            }
            lemma_count_long_decreases(used.drop_last(), name, longer);
        }
    }
}

pub proof fn lemma_count_long_mono(used: Seq<Seq<char>>, n: nat, m: nat)
    requires
        n <= m,
    ensures
        count_long(used, m) <= count_long(used, n),
    decreases used.len(),
{
    if used.len() > 0 {
        lemma_count_long_mono(used.drop_last(), n, m);
    }
}

/// The name given to hoisted fragments.
pub open spec fn frag_name() -> Seq<char> {
    "_SWC_CONST_ELE_FRAG"@
}

/// The counter after one step; it wraps around as `+=` does in a release
/// build.
pub open spec fn bump(n: u32) -> u32 {
    if n == u32::MAX { 0 } else { (n + 1) as u32 }
}

/// The name chosen for a hoisted element, and the counter after it: the
/// counter goes up by one per attempt, and a name that is taken already is
/// tried again with the counter appended.
pub open spec fn spec_create_id(used: Seq<Seq<char>>, next: u32, name: Seq<char>) -> (Seq<char>, u32)
    decreases count_long(used, name.len()),
{
    let next1 = bump(next);
    if used.contains(name) {
        proof {
            lemma_count_long_decreases(used, name, name + spec_decimal(next1 as nat));
        }
        spec_create_id(used, next1, name + spec_decimal(next1 as nat))
    } else {
        (name, next1)
    }
}

/// The name chosen for a hoisted element is never one already in use.
pub proof fn law_create_id_fresh(used: Seq<Seq<char>>, next: u32, name: Seq<char>)
    ensures
        !used.contains(spec_create_id(used, next, name).0),
    decreases count_long(used, name.len()),
{
    let next1 = bump(next);
    if used.contains(name) {
        lemma_count_long_decreases(used, name, name + spec_decimal(next1 as nat));
        law_create_id_fresh(used, next1, name + spec_decimal(next1 as nat));
    }
}

/// Two names created one after the other, the first recorded as used
/// before the second is chosen, differ: hoisted bindings never collide.
pub proof fn law_created_names_distinct(used: Seq<Seq<char>>, next: u32, first: Seq<char>, second: Seq<char>)
    ensures
        ({
            let (x, n1) = spec_create_id(used, next, first);
            let (y, _n2) = spec_create_id(used.push(x), n1, second);
            x != y && !used.contains(y)
        }),
{
    let (x, n1) = spec_create_id(used, next, first);
    law_create_id_fresh(used.push(x), n1, second);
    let y = spec_create_id(used.push(x), n1, second).0;
    assert(used.push(x)[used.len() as int] == x);
    if used.contains(y) {
        let k = choose|k: int| 0 <= k < used.len() && used[k] == y;
        assert(used.push(x)[k] == y);
    }
}

/// What the transform carries while it walks a program.
pub struct State {
    pub config: ReactConstElementsOptions,
    /// Bindings in scope that are never reassigned.
    pub vars: Vec<Id>,
    /// Bindings of hoisted elements still to be declared.
    pub candidates: Vec<Id>,
    /// The syntax context of the bindings it creates.
    pub ctxt: u32,
    pub next_id: u32,
    pub used_names: Vec<String>,
    /// The bindings of the program that are never reassigned.
    pub immutable_ids: Vec<Id>,
}

impl State {
    pub fn new(config: ReactConstElementsOptions, ctxt: u32) -> (r: State)
        ensures
            r.config == config,
            r.vars@.len() == 0,
            r.candidates@.len() == 0,
            r.ctxt == ctxt,
            r.next_id == 0,
            r.used_names@.len() == 0,
            r.immutable_ids@.len() == 0,
    {
        State {
            config,
            vars: Vec::new(),
            candidates: Vec::new(),
            ctxt,
            next_id: 0,
            used_names: Vec::new(),
            immutable_ids: Vec::new(),
        }
    }

    /// A binding for a hoisted element, named `name` (or the fragment
    /// name) unless that is taken.
    pub fn create_id(&mut self, name: Option<String>) -> (r: Id)
        ensures
            ({
                let n = match name {
                    Some(s) => s@,
                    None => frag_name(),
                };
                let (chosen, next) = spec_create_id(strs_view(old(self).used_names@), old(self).next_id, n);
                &&& r@ == IdView { sym: chosen, ctxt: old(self).ctxt }
                &&& final(self).next_id == next
                &&& strs_view(final(self).used_names@) == strs_view(old(self).used_names@).push(chosen)
            }),
            !strs_view(old(self).used_names@).contains(r@.sym),
            final(self).config == old(self).config,
            final(self).vars == old(self).vars,
            final(self).candidates == old(self).candidates,
            final(self).ctxt == old(self).ctxt,
            final(self).immutable_ids == old(self).immutable_ids,
    {
        let n = match name {
            Some(s) => s,
            None => to_owned_string("_SWC_CONST_ELE_FRAG"),
        };
        self.create_named_id(n)
    }

    fn create_named_id(&mut self, name: String) -> (r: Id)
        ensures
            ({
                let (chosen, next) = spec_create_id(strs_view(old(self).used_names@), old(self).next_id, name@);
                &&& r@ == IdView { sym: chosen, ctxt: old(self).ctxt }
                &&& final(self).next_id == next
                &&& strs_view(final(self).used_names@) == strs_view(old(self).used_names@).push(chosen)
            }),
            !strs_view(old(self).used_names@).contains(r@.sym),
            final(self).config == old(self).config,
            final(self).vars == old(self).vars,
            final(self).candidates == old(self).candidates,
            final(self).ctxt == old(self).ctxt,
            final(self).immutable_ids == old(self).immutable_ids,
        decreases count_long(strs_view(old(self).used_names@), name@.len()),
    {
        proof {
            law_create_id_fresh(strs_view(self.used_names@), self.next_id, name@);
        }
        self.next_id = self.next_id.wrapping_add(1);
        if contains_string(&self.used_names, name.as_str()) {
            let mut longer = name.clone();
            push_decimal(&mut longer, self.next_id as usize);
            proof {
                lemma_count_long_decreases(strs_view(self.used_names@), name@, longer@);
            }
            return self.create_named_id(longer);
        }
        let ghost before = self.used_names@;
        self.used_names.push(name.clone());
        assert(strs_view(self.used_names@) =~= strs_view(before).push(name@));
        Id { sym: name, ctxt: self.ctxt }
    }
}

fn contains_string(v: &Vec<String>, s: &str) -> (r: bool)
    ensures
        r == strs_view(v@).contains(s@),
{
    let mut k: usize = 0;
    while k < v.len()
        invariant
            k <= v@.len(),
            forall|j: int| 0 <= j < k ==> v@[j]@ != s@,
        decreases v@.len() - k,
    {
        if str_eq(v[k].as_str(), s) {
            assert(strs_view(v@)[k as int] == s@);
            return true;
        }
        k = k + 1;
    }
    assert forall|j: int| 0 <= j < strs_view(v@).len() implies strs_view(v@)[j] != s@ by {
        assert(strs_view(v@)[j] == v@[j]@);
    }
    false
}

fn contains_id(v: &Vec<Id>, id: &Id) -> (r: bool)
    ensures
        r == ids_view(v@).contains(id@),
{
    let mut k: usize = 0;
    while k < v.len()
        invariant
            k <= v@.len(),
            forall|j: int| 0 <= j < k ==> v@[j]@ != id@,
        decreases v@.len() - k,
    {
        if v[k].same(id) {
            assert(ids_view(v@)[k as int] == id@);
            return true;
        }
        k = k + 1;
    }
    assert forall|j: int| 0 <= j < ids_view(v@).len() implies ids_view(v@)[j] != id@ by {
        assert(ids_view(v@)[j] == v@[j]@);
    }
    false
}


/// An expression, as far as the immutability check reads it.
pub enum IExpr {
    Ident(Id),
    Lit,
    This,
    Paren(Box<IExpr>),
    Bin { left: Box<IExpr>, right: Box<IExpr> },
    /// A function, arrow function or object literal.
    FnLike,
    Other(u64),
}

/// An expression that does not change between renders: constant
/// bindings, literals, `this`, and operators on them; functions and
/// objects only where the tag allows them.
pub open spec fn iexpr_ok(vars: Seq<IdView>, allow: bool, e: IExpr) -> bool
    decreases e,
{
    match e {
        IExpr::Ident(id) => vars.contains(id@),
        IExpr::Lit => true,
        IExpr::This => true,
        IExpr::Paren(x) => iexpr_ok(vars, allow, *x),
        IExpr::Bin { left, right } => iexpr_ok(vars, allow, *left) && iexpr_ok(vars, allow, *right),
        IExpr::FnLike => allow,
        IExpr::Other(_) => false,
    }
}

pub enum AttrName {
    Ident(String),
    Other(u64),
}

pub enum AttrValue {
    Str,
    /// `{}`.
    Empty,
    Expr(IExpr),
    /// An element or fragment.
    Jsx(Box<JsxChild>),
}

pub enum Attr {
    Attr { name: AttrName, value: Option<AttrValue> },
    Spread(u64),
}

/// The tag of an element: an identifier, or a member or namespaced name.
pub enum JsxName {
    Ident(Id),
    Other(u64),
}

pub struct JsxElement {
    pub name: JsxName,
    pub attrs: Vec<Attr>,
    pub children: Vec<JsxChild>,
}

/// A child of an element or fragment.
pub enum JsxChild {
    Text,
    /// `{}`.
    Empty,
    /// `{<expr>}`.
    Expr(IExpr),
    /// `{...<expr>}`.
    Spread(IExpr),
    Element(JsxElement),
    Fragment(Vec<JsxChild>),
    /// `{<id> || (<id> = <jsx>)}`, or that expression where the element or
    /// fragment `jsx` stood.
    Hoisted { id: Id, jsx: Box<JsxChild> },
}

/// Every attribute among the first `n` passes the immutability check.
pub open spec fn attrs_ok(vars: Seq<IdView>, allow: bool, s: Seq<Attr>, n: nat) -> bool
    decreases s, n,
{
    if n == 0 || n > s.len() {
        true
    } else {
        attrs_ok(vars, allow, s, (n - 1) as nat) && attr_ok(vars, allow, s[n - 1])
    }
}

/// No `ref`, no spread, and constant values.
pub open spec fn attr_ok(vars: Seq<IdView>, allow: bool, a: Attr) -> bool
    decreases a, 0nat,
{
    match a {
        Attr::Spread(_) => false,
        Attr::Attr { name, value } => {
            &&& !(name matches AttrName::Ident(s) && s@ == "ref"@)
            &&& match value {
                None => true,
                Some(v) => match v {
                    AttrValue::Str => true,
                    AttrValue::Empty => true,
                    AttrValue::Expr(e) => iexpr_ok(vars, allow, e),
                    AttrValue::Jsx(j) => walk_ok(vars, allow, *j),
                },
            }
        },
    }
}

/// The same check, on everything inside an element used as a value.
pub open spec fn walk_ok(vars: Seq<IdView>, allow: bool, c: JsxChild) -> bool
    decreases c, 0nat,
{
    match c {
        JsxChild::Text => true,
        JsxChild::Empty => true,
        JsxChild::Expr(e) => iexpr_ok(vars, allow, e),
        JsxChild::Spread(e) => iexpr_ok(vars, allow, e),
        JsxChild::Element(el) => attrs_ok(vars, allow, el.attrs@, el.attrs@.len()) && walks_ok(vars, allow, el.children@, el.children@.len()),
        JsxChild::Fragment(ch) => walks_ok(vars, allow, ch@, ch@.len()),
        JsxChild::Hoisted { .. } => false,
    }
}

pub open spec fn walks_ok(vars: Seq<IdView>, allow: bool, s: Seq<JsxChild>, n: nat) -> bool
    decreases s, n,
{
    if n == 0 || n > s.len() {
        true
    } else {
        walks_ok(vars, allow, s, (n - 1) as nat) && walk_ok(vars, allow, s[n - 1])
    }
}

fn iexpr_immutable(vars: &Vec<Id>, allow: bool, e: &IExpr) -> (r: bool)
    ensures
        r == iexpr_ok(ids_view(vars@), allow, *e),
    decreases e,
{
    match e {
        IExpr::Ident(id) => contains_id(vars, id),
        IExpr::Lit => true,
        IExpr::This => true,
        IExpr::Paren(x) => iexpr_immutable(vars, allow, x),
        IExpr::Bin { left, right } => iexpr_immutable(vars, allow, left) && iexpr_immutable(vars, allow, right),
        IExpr::FnLike => allow,
        IExpr::Other(_) => false,
    }
}

proof fn lemma_attrs_ok_prefix(vars: Seq<IdView>, allow: bool, s: Seq<Attr>, k: nat, n: nat)
    requires
        k <= n <= s.len(),
        attrs_ok(vars, allow, s, n),
    ensures
        attrs_ok(vars, allow, s, k),
    decreases n - k,
{
    if n > k {
        lemma_attrs_ok_prefix(vars, allow, s, k, (n - 1) as nat);
    }
}

proof fn lemma_walks_ok_prefix(vars: Seq<IdView>, allow: bool, s: Seq<JsxChild>, k: nat, n: nat)
    requires
        k <= n <= s.len(),
        walks_ok(vars, allow, s, n),
    ensures
        walks_ok(vars, allow, s, k),
    decreases n - k,
{
    if n > k {
        lemma_walks_ok_prefix(vars, allow, s, k, (n - 1) as nat);
    }
}

fn attrs_immutable(vars: &Vec<Id>, allow: bool, attrs: &Vec<Attr>) -> (r: bool)
    ensures
        r == attrs_ok(ids_view(vars@), allow, attrs@, attrs@.len()),
    decreases attrs, 0nat,
{
    let mut k: usize = 0;
    while k < attrs.len()
        invariant
            k <= attrs@.len(),
            attrs_ok(ids_view(vars@), allow, attrs@, k as nat),
        decreases attrs@.len() - k,
    {
        proof {
            assert(decreases_to!(attrs => attrs[k as int]));
        }
        if !attr_immutable(vars, allow, &attrs[k]) {
            proof {
                if attrs_ok(ids_view(vars@), allow, attrs@, attrs@.len()) {
                    lemma_attrs_ok_prefix(ids_view(vars@), allow, attrs@, (k + 1) as nat, attrs@.len());
                }
            }
            return false;
        }
        k = k + 1;
    }
    true
}

fn attr_immutable(vars: &Vec<Id>, allow: bool, a: &Attr) -> (r: bool)
    ensures
        r == attr_ok(ids_view(vars@), allow, *a),
    decreases a, 1nat,
{
    proof {
        reveal_strlit("ref");
    }
    match a {
        Attr::Spread(_) => false,
        Attr::Attr { name, value } => {
            let is_ref = match name {
                AttrName::Ident(s) => str_eq(s.as_str(), "ref"),
                AttrName::Other(_) => false,
            };
            if is_ref {
                return false;
            }
            match value {
                None => true,
                Some(v) => match v {
                    AttrValue::Str => true,
                    AttrValue::Empty => true,
                    AttrValue::Expr(e) => iexpr_immutable(vars, allow, e),
                    AttrValue::Jsx(j) => walk_immutable(vars, allow, j),
                },
            }
        },
    }
}

fn walk_immutable(vars: &Vec<Id>, allow: bool, c: &JsxChild) -> (r: bool)
    ensures
        r == walk_ok(ids_view(vars@), allow, *c),
    decreases c, 1nat,
{
    match c {
        JsxChild::Text => true,
        JsxChild::Empty => true,
        JsxChild::Expr(e) => iexpr_immutable(vars, allow, e),
        JsxChild::Spread(e) => iexpr_immutable(vars, allow, e),
        JsxChild::Element(el) => {
            proof {
                assert(decreases_to!(c => c->Element_0));
            }
            attrs_immutable(vars, allow, &el.attrs) && walks_immutable(vars, allow, &el.children)
        },
        JsxChild::Fragment(ch) => walks_immutable(vars, allow, ch),
        JsxChild::Hoisted { .. } => false,
    }
}

fn walks_immutable(vars: &Vec<Id>, allow: bool, s: &Vec<JsxChild>) -> (r: bool)
    ensures
        r == walks_ok(ids_view(vars@), allow, s@, s@.len()),
    decreases s, 0nat,
{
    let mut k: usize = 0;
    while k < s.len()
        invariant
            k <= s@.len(),
            walks_ok(ids_view(vars@), allow, s@, k as nat),
        decreases s@.len() - k,
    {
        proof {
            assert(decreases_to!(s => s[k as int]));
        }
        if !walk_immutable(vars, allow, &s[k]) {
            proof {
                if walks_ok(ids_view(vars@), allow, s@, s@.len()) {
                    lemma_walks_ok_prefix(ids_view(vars@), allow, s@, (k + 1) as nat, s@.len());
                }
            }
            return false;
        }
        k = k + 1;
    }
    true
}


/// A child, with the identifiers it binds taken by their views.
pub enum JsxChildView {
    Text,
    Empty,
    Expr(IExpr),
    Spread(IExpr),
    Element(JsxElementView),
    Fragment(Seq<JsxChildView>),
    Hoisted { id: IdView, jsx: Box<JsxChildView> },
}

pub struct JsxElementView {
    pub name: JsxName,
    pub attrs: Seq<Attr>,
    pub children: Seq<JsxChildView>,
}

pub open spec fn child_view(c: JsxChild) -> JsxChildView
    decreases c, 0nat,
{
    match c {
        JsxChild::Text => JsxChildView::Text,
        JsxChild::Empty => JsxChildView::Empty,
        JsxChild::Expr(e) => JsxChildView::Expr(e),
        JsxChild::Spread(e) => JsxChildView::Spread(e),
        JsxChild::Element(el) => JsxChildView::Element(
            JsxElementView { name: el.name, attrs: el.attrs@, children: children_view(el.children@, el.children@.len()) },
        ),
        JsxChild::Fragment(ch) => JsxChildView::Fragment(children_view(ch@, ch@.len())),
        JsxChild::Hoisted { id, jsx } => JsxChildView::Hoisted { id: id@, jsx: Box::new(child_view(*jsx)) },
    }
}

pub open spec fn children_view(s: Seq<JsxChild>, n: nat) -> Seq<JsxChildView>
    decreases s, n,
{
    if n == 0 || n > s.len() {
        Seq::empty()
    } else {
        children_view(s, (n - 1) as nat).push(child_view(s[n - 1]))
    }
}

impl View for JsxChild {
    type V = JsxChildView;

    open spec fn view(&self) -> JsxChildView {
        child_view(*self)
    }
}

impl View for JsxElement {
    type V = JsxElementView;

    open spec fn view(&self) -> JsxElementView {
        JsxElementView { name: self.name, attrs: self.attrs@, children: children_view(self.children@, self.children@.len()) }
    }
}

proof fn lemma_children_view(s: Seq<JsxChild>, n: nat)
    requires
        n <= s.len(),
    ensures
        children_view(s, n).len() == n,
        forall|i: int| 0 <= i < n ==> #[trigger] children_view(s, n)[i] == child_view(s[i]),
    decreases n,
{
    if n > 0 {
        lemma_children_view(s, (n - 1) as nat);
    }
}

proof fn lemma_children_view_push(s: Seq<JsxChild>, x: JsxChild)
    ensures
        children_view(s.push(x), s.len() + 1) == children_view(s, s.len()).push(child_view(x)),
{
    lemma_children_view(s, s.len());
    lemma_children_view(s.push(x), s.len() + 1);
    assert(children_view(s.push(x), s.len() + 1) =~= children_view(s, s.len()).push(child_view(x)));
}

/// What the transform reads and changes of its state.
pub struct CState {
    pub vars: Seq<IdView>,
    pub candidates: Seq<IdView>,
    pub next: u32,
    pub used: Seq<Seq<char>>,
}

impl State {
    pub open spec fn cstate(&self) -> CState {
        CState { vars: ids_view(self.vars@), candidates: ids_view(self.candidates@), next: self.next_id, used: strs_view(self.used_names@) }
    }

    /// What does not change while elements are hoisted.
    pub open spec fn same_config(&self, other: &State) -> bool {
        &&& self.config == other.config
        &&& self.ctxt == other.ctxt
        &&& self.immutable_ids == other.immutable_ids
    }
}

/// A fresh binding named after `name` for a hoisted element, recorded
/// among the candidates.
pub open spec fn hoist_bind(st: CState, ctxt: u32, name: Seq<char>) -> (CState, IdView) {
    let (chosen, next) = spec_create_id(st.used, st.next, name);
    let id = IdView { sym: chosen, ctxt };
    (CState { candidates: st.candidates.push(id), next, used: st.used.push(chosen), ..st }, id)
}

/// A tag whose element does not change: a lower-case (intrinsic) tag, a
/// constant binding, or a configured global.
pub open spec fn name_immutable(st: CState, config: ReactConstElementsOptions, name: JsxName) -> bool {
    match name {
        JsxName::Ident(id) => spec_char_is_lowercase(id.sym@[0]) || st.vars.contains(id@) || strs_view(config.immutable_globals@).contains(id.sym@),
        JsxName::Other(_) => false,
    }
}

pub open spec fn allow_props(config: ReactConstElementsOptions, name: JsxName) -> bool {
    match name {
        JsxName::Ident(id) => strs_view(config.allow_mutable_props_on_tags@).contains(id.sym@),
        JsxName::Other(_) => false,
    }
}

pub open spec fn name_sym(name: JsxName) -> Seq<char> {
    match name {
        JsxName::Ident(id) => id.sym@,
        JsxName::Other(_) => Seq::empty(),
    }
}

/// Every element tag that the transform reads is a non-empty name.
pub open spec fn well_named(c: JsxChildView) -> bool
    decreases c, 0nat,
{
    match c {
        JsxChildView::Element(el) => (el.name matches JsxName::Ident(id) ==> id.sym@.len() > 0) && all_well_named(el.children, el.children.len()),
        JsxChildView::Fragment(ch) => all_well_named(ch, ch.len()),
        JsxChildView::Hoisted { jsx, .. } => well_named(*jsx),
        _ => true,
    }
}

pub open spec fn all_well_named(s: Seq<JsxChildView>, n: nat) -> bool
    decreases s, n,
{
    if n == 0 || n > s.len() {
        true
    } else {
        all_well_named(s, (n - 1) as nat) && well_named(s[n - 1])
    }
}

/// The element after its children were handled, and whether the whole
/// element is constant. Children are hoisted one by one only when the
/// element itself is not constant.
pub open spec fn spec_modify_jsx(st: CState, config: ReactConstElementsOptions, ctxt: u32, el: JsxElementView) -> (CState, JsxElementView, bool)
    decreases el, 2nat,
{
    let self_imm = name_immutable(st, config, el.name) && attrs_ok(st.vars, allow_props(config, el.name), el.attrs, el.attrs.len());
    let (st1, ch, cimm) = spec_children(st, config, ctxt, el.children, !self_imm, el.children.len());
    (st1, JsxElementView { children: ch, ..el }, self_imm && cimm)
}

/// The first `n` children: each is checked (and hoisted when asked and
/// constant) until one is found that is not constant; the rest are left
/// as they are.
pub open spec fn spec_children(st: CState, config: ReactConstElementsOptions, ctxt: u32, s: Seq<JsxChildView>, hoist: bool, n: nat) -> (CState, Seq<JsxChildView>, bool)
    decreases s, n,
{
    if n == 0 || n > s.len() {
        (st, Seq::empty(), true)
    } else {
        let (st1, prev, ok) = spec_children(st, config, ctxt, s, hoist, (n - 1) as nat);
        if !ok {
            (st1, prev.push(s[n - 1]), false)
        } else {
            let (st2, c, imm) = spec_child(st1, config, ctxt, s[n - 1], hoist);
            (st2, prev.push(c), imm)
        }
    }
}

/// One child: text is constant, so is a constant binding in braces, an
/// element that is constant throughout, and a fragment whose children are.
pub open spec fn spec_child(st: CState, config: ReactConstElementsOptions, ctxt: u32, c: JsxChildView, hoist: bool) -> (CState, JsxChildView, bool)
    decreases c, 1nat,
{
    match c {
        JsxChildView::Text => (st, c, true),
        JsxChildView::Expr(e) => (st, c, e matches IExpr::Ident(id) && st.vars.contains(id@)),
        JsxChildView::Element(el) => {
            let (st1, el2, imm) = spec_modify_jsx(st, config, ctxt, el);
            if hoist && imm {
                let (st2, id) = hoist_bind(st1, ctxt, seq!['_'] + name_sym(el2.name));
                (st2, JsxChildView::Hoisted { id, jsx: Box::new(JsxChildView::Element(el2)) }, true)
            } else {
                (st1, JsxChildView::Element(el2), imm)
            }
        },
        JsxChildView::Fragment(ch) => {
            let (st1, ch2, imm) = spec_children(st, config, ctxt, ch, false, ch.len());
            if hoist && imm {
                let (st2, id) = hoist_bind(st1, ctxt, frag_name());
                (st2, JsxChildView::Hoisted { id, jsx: Box::new(JsxChildView::Fragment(ch2)) }, true)
            } else {
                (st1, JsxChildView::Fragment(ch2), imm)
            }
        },
        _ => (st, c, false),
    }
}


proof fn lemma_all_well_named(s: Seq<JsxChildView>, n: nat, i: int)
    requires
        n <= s.len(),
        all_well_named(s, n),
        0 <= i < n,
    ensures
        well_named(s[i]),
    decreases n,
{
    if i < n - 1 {
        lemma_all_well_named(s, (n - 1) as nat, i);
    }
}

impl State {
    fn name_immutable_exec(&self, name: &JsxName) -> (r: bool)
        requires
            name matches JsxName::Ident(id) ==> id.sym@.len() > 0,
        ensures
            r == name_immutable(self.cstate(), self.config, *name),
    {
        match name {
            JsxName::Ident(id) => {
                char_is_lowercase(id.sym.as_str().get_char(0)) || contains_id(&self.vars, id) || contains_string(&self.config.immutable_globals, id.sym.as_str())
            },
            JsxName::Other(_) => false,
        }
    }

    fn allow_props_exec(&self, name: &JsxName) -> (r: bool)
        ensures
            r == allow_props(self.config, *name),
    {
        match name {
            JsxName::Ident(id) => contains_string(&self.config.allow_mutable_props_on_tags, id.sym.as_str()),
            JsxName::Other(_) => false,
        }
    }

    /// Binds a hoisted element: a fresh name, recorded among the candidates.
    fn bind(&mut self, name: Option<String>) -> (r: Id)
        ensures
            ({
                let (st, id) = hoist_bind(old(self).cstate(), old(self).ctxt, match name {
                    Some(s) => s@,
                    None => frag_name(),
                });
                &&& final(self).cstate() == st
                &&& r@ == id
            }),
            final(self).same_config(old(self)),
    {
        let id = self.create_id(name);
        let ghost before = self.candidates@;
        self.candidates.push(id.duplicate());
        assert(ids_view(self.candidates@) =~= ids_view(before).push(id@));
        id
    }

    fn modify_jsx(&mut self, el: JsxElement) -> (r: (JsxElement, bool))
        requires
            well_named(JsxChildView::Element(el@)),
        ensures
            ({
                let (st, el2, imm) = spec_modify_jsx(old(self).cstate(), old(self).config, old(self).ctxt, el@);
                &&& final(self).cstate() == st
                &&& r.0@ == el2
                &&& r.1 == imm
            }),
            final(self).same_config(old(self)),
        decreases el, 2nat,
    {
        proof {
            lemma_children_view(el.children@, el.children@.len());
        }
        let imm0 = self.name_immutable_exec(&el.name);
        let self_imm = imm0 && attrs_immutable(&self.vars, self.allow_props_exec(&el.name), &el.attrs);
        let JsxElement { name, attrs, children } = el;
        proof {
            assert(decreases_to!(el => el.children));
        }
        let (ch, cimm) = self.children_step(children, !self_imm);
        (JsxElement { name, attrs, children: ch }, self_imm && cimm)
    }

    fn children_step(&mut self, v: Vec<JsxChild>, hoist: bool) -> (r: (Vec<JsxChild>, bool))
        requires
            all_well_named(children_view(v@, v@.len()), v@.len()),
        ensures
            ({
                let (st, ch, imm) = spec_children(old(self).cstate(), old(self).config, old(self).ctxt, children_view(v@, v@.len()), hoist, v@.len());
                &&& final(self).cstate() == st
                &&& children_view(r.0@, r.0@.len()) == ch
                &&& r.1 == imm
            }),
            final(self).same_config(old(self)),
        decreases v, 0nat,
    {
        let ghost vv = v;
        let ghost orig = v@;
        let ghost sv = children_view(orig, orig.len());
        let ghost st0 = self.cstate();
        let ghost pre = *self;
        proof {
            lemma_children_view(orig, orig.len());
        }
        let n = v.len();
        let mut rest = crate::ast::reversed(v);
        let mut out: Vec<JsxChild> = Vec::new();
        let mut ok = true;
        let mut k: usize = 0;
        assert(children_view(out@, 0) =~= Seq::<JsxChildView>::empty());
        while k < n
            invariant
                n == orig.len(),
                orig == vv@,
                vv == v,
                sv == children_view(orig, orig.len()),
                sv.len() == n,
                all_well_named(sv, n as nat),
                forall|i: int| 0 <= i < n ==> #[trigger] sv[i] == child_view(orig[i]),
                k <= n,
                rest@ == Seq::new((n - k) as nat, |t: int| orig[n - 1 - t]),
                out@.len() == k,
                pre == *old(self),
                st0 == old(self).cstate(),
                self.same_config(&pre),
                spec_children(st0, pre.config, pre.ctxt, sv, hoist, k as nat) == (self.cstate(), children_view(out@, out@.len()), ok),
            decreases n - k,
        {
            let x = rest.pop().unwrap();
            assert(x == orig[k as int]);
            assert(rest@ =~= Seq::new((n - k - 1) as nat, |t: int| orig[n - 1 - t]));
            proof {
                assert(decreases_to!(vv => vv[k as int]));
                lemma_all_well_named(sv, n as nat, k as int);
            }
            if !ok {
                proof {
                    lemma_children_view_push(out@, x);
                }
                out.push(x);
            } else {
                let (y, imm) = self.child_step(x, hoist);
                proof {
                    lemma_children_view_push(out@, y);
                }
                out.push(y);
                ok = imm;
            }
            k = k + 1;
        }
        (out, ok)
    }

    fn child_step(&mut self, c: JsxChild, hoist: bool) -> (r: (JsxChild, bool))
        requires
            well_named(c@),
        ensures
            ({
                let (st, c2, imm) = spec_child(old(self).cstate(), old(self).config, old(self).ctxt, c@, hoist);
                &&& final(self).cstate() == st
                &&& r.0@ == c2
                &&& r.1 == imm
            }),
            final(self).same_config(old(self)),
        decreases c, 1nat,
    {
        proof {
            reveal_with_fuel(child_view, 2);
        }
        match c {
            JsxChild::Text => (JsxChild::Text, true),
            JsxChild::Expr(e) => {
                let imm = match &e {
                    IExpr::Ident(id) => contains_id(&self.vars, id),
                    _ => false,
                };
                (JsxChild::Expr(e), imm)
            },
            JsxChild::Element(el) => {
                proof {
                    assert(decreases_to!(c => c->Element_0));
                }
                let (el2, imm) = self.modify_jsx(el);
                if hoist && imm {
                    let mut name = String::new();
                    push_char(&mut name, '_');
                    match &el2.name {
                        JsxName::Ident(id) => push_str(&mut name, id.sym.as_str()),
                        JsxName::Other(_) => {},
                    }
                    assert(name@ =~= seq!['_'] + name_sym(el2.name));
                    let id = self.bind(Some(name));
                    (JsxChild::Hoisted { id, jsx: Box::new(JsxChild::Element(el2)) }, true)
                } else {
                    (JsxChild::Element(el2), imm)
                }
            },
            JsxChild::Fragment(ch) => {
                proof {
                    assert(decreases_to!(c => c->Fragment_0));
                    lemma_children_view(ch@, ch@.len());
                }
                let (ch2, imm) = self.children_step(ch, false);
                if hoist && imm {
                    let id = self.bind(None);
                    (JsxChild::Hoisted { id, jsx: Box::new(JsxChild::Fragment(ch2)) }, true)
                } else {
                    (JsxChild::Fragment(ch2), imm)
                }
            },
            JsxChild::Empty => (JsxChild::Empty, false),
            JsxChild::Spread(e) => (JsxChild::Spread(e), false),
            JsxChild::Hoisted { id, jsx } => (JsxChild::Hoisted { id, jsx }, false),
        }
    }
}


impl State {
    /// Checks an element and hoists its constant children when the element
    /// itself is not constant; tells whether the whole element is constant.
    pub fn modify_jsx_if_immutable(&mut self, jsx_ele: &mut JsxElement) -> (r: bool)
        requires
            well_named(JsxChildView::Element(old(jsx_ele)@)),
        ensures
            ({
                let (st, el2, imm) = spec_modify_jsx(old(self).cstate(), old(self).config, old(self).ctxt, old(jsx_ele)@);
                &&& final(self).cstate() == st
                &&& final(jsx_ele)@ == el2
                &&& r == imm
            }),
            final(self).same_config(old(self)),
    {
        let mut el = JsxElement { name: JsxName::Other(0), attrs: Vec::new(), children: Vec::new() };
        std::mem::swap(&mut el, jsx_ele);
        let (el2, imm) = self.modify_jsx(el);
        *jsx_ele = el2;
        imm
    }

    /// Checks the children in order until one is not constant, hoisting the
    /// constant elements and fragments among them when asked.
    pub fn are_children_immutable(&mut self, children: &mut Vec<JsxChild>, allow_hoist_child: bool) -> (r: bool)
        requires
            all_well_named(children_view(old(children)@, old(children)@.len()), old(children)@.len()),
        ensures
            ({
                let (st, ch, imm) = spec_children(
                    old(self).cstate(),
                    old(self).config,
                    old(self).ctxt,
                    children_view(old(children)@, old(children)@.len()),
                    allow_hoist_child,
                    old(children)@.len(),
                );
                &&& final(self).cstate() == st
                &&& children_view(final(children)@, final(children)@.len()) == ch
                &&& r == imm
            }),
            final(self).same_config(old(self)),
    {
        let mut v: Vec<JsxChild> = Vec::new();
        std::mem::swap(&mut v, children);
        let (ch, imm) = self.children_step(v, allow_hoist_child);
        *children = ch;
        imm
    }
}

/// `<id> || (<id> = <ele>)`.
pub fn hoist_result_ast(id: Id, ele: JsxChild) -> (r: JsxChild)
    ensures
        r@ == (JsxChildView::Hoisted { id: id@, jsx: Box::new(ele@) }),
{
    JsxChild::Hoisted { id, jsx: Box::new(ele) }
}

/// An expression inside a function body that the hoisting visits: an
/// element or fragment, or another expression with its sub-expressions
/// (nested functions are left out: they are scopes of their own).
pub enum HExpr {
    Jsx(JsxChild),
    Node { kind: u64, children: Vec<HExpr> },
}

pub enum HExprView {
    Jsx(JsxChildView),
    Node { kind: u64, children: Seq<HExprView> },
}

pub open spec fn hexpr_view(e: HExpr) -> HExprView
    decreases e, 0nat,
{
    match e {
        HExpr::Jsx(c) => HExprView::Jsx(c@),
        HExpr::Node { kind, children } => HExprView::Node { kind, children: hexprs_view(children@, children@.len()) },
    }
}

pub open spec fn hexprs_view(s: Seq<HExpr>, n: nat) -> Seq<HExprView>
    decreases s, n,
{
    if n == 0 || n > s.len() {
        Seq::empty()
    } else {
        hexprs_view(s, (n - 1) as nat).push(hexpr_view(s[n - 1]))
    }
}

impl View for HExpr {
    type V = HExprView;

    open spec fn view(&self) -> HExprView {
        hexpr_view(*self)
    }
}

proof fn lemma_hexprs_view(s: Seq<HExpr>, n: nat)
    requires
        n <= s.len(),
    ensures
        hexprs_view(s, n).len() == n,
        forall|i: int| 0 <= i < n ==> #[trigger] hexprs_view(s, n)[i] == hexpr_view(s[i]),
    decreases n,
{
    if n > 0 {
        lemma_hexprs_view(s, (n - 1) as nat);
    }
}

proof fn lemma_hexprs_view_push(s: Seq<HExpr>, x: HExpr)
    ensures
        hexprs_view(s.push(x), s.len() + 1) == hexprs_view(s, s.len()).push(hexpr_view(x)),
{
    lemma_hexprs_view(s, s.len());
    lemma_hexprs_view(s.push(x), s.len() + 1);
    assert(hexprs_view(s.push(x), s.len() + 1) =~= hexprs_view(s, s.len()).push(hexpr_view(x)));
}

pub open spec fn hexpr_well_named(e: HExprView) -> bool
    decreases e, 0nat,
{
    match e {
        HExprView::Jsx(c) => well_named(c),
        HExprView::Node { children, .. } => hexprs_well_named(children, children.len()),
    }
}

pub open spec fn hexprs_well_named(s: Seq<HExprView>, n: nat) -> bool
    decreases s, n,
{
    if n == 0 || n > s.len() {
        true
    } else {
        hexprs_well_named(s, (n - 1) as nat) && hexpr_well_named(s[n - 1])
    }
}

proof fn lemma_hexprs_well_named(s: Seq<HExprView>, n: nat, i: int)
    requires
        n <= s.len(),
        hexprs_well_named(s, n),
        0 <= i < n,
    ensures
        hexpr_well_named(s[i]),
    decreases n,
{
    if i < n - 1 {
        lemma_hexprs_well_named(s, (n - 1) as nat, i);
    }
}

/// An expression of a function body after the hoisting: a constant
/// element or fragment becomes `_x || (_x = ...)`; one that is not
/// constant keeps its constant children hoisted.
pub open spec fn spec_hoist_expr(st: CState, config: ReactConstElementsOptions, ctxt: u32, e: HExprView) -> (CState, HExprView)
    decreases e, 0nat,
{
    match e {
        HExprView::Jsx(c) => match c {
            JsxChildView::Element(el) => {
                let (st1, el2, imm) = spec_modify_jsx(st, config, ctxt, el);
                if imm {
                    let (st2, id) = hoist_bind(st1, ctxt, seq!['_'] + name_sym(el2.name));
                    (st2, HExprView::Jsx(JsxChildView::Hoisted { id, jsx: Box::new(JsxChildView::Element(el2)) }))
                } else {
                    (st1, HExprView::Jsx(JsxChildView::Element(el2)))
                }
            },
            JsxChildView::Fragment(ch) => {
                let (st1, ch2, imm) = spec_children(st, config, ctxt, ch, false, ch.len());
                if imm {
                    let (st2, id) = hoist_bind(st1, ctxt, frag_name());
                    (st2, HExprView::Jsx(JsxChildView::Hoisted { id, jsx: Box::new(JsxChildView::Fragment(ch2)) }))
                } else {
                    (st1, HExprView::Jsx(JsxChildView::Fragment(ch2)))
                }
            },
            _ => (st, e),
        },
        HExprView::Node { kind, children } => {
            let (st1, ch) = spec_hoist_exprs(st, config, ctxt, children, children.len());
            (st1, HExprView::Node { kind, children: ch })
        },
    }
}

pub open spec fn spec_hoist_exprs(st: CState, config: ReactConstElementsOptions, ctxt: u32, s: Seq<HExprView>, n: nat) -> (CState, Seq<HExprView>)
    decreases s, n,
{
    if n == 0 || n > s.len() {
        (st, Seq::empty())
    } else {
        let (st1, prev) = spec_hoist_exprs(st, config, ctxt, s, (n - 1) as nat);
        let (st2, x) = spec_hoist_expr(st1, config, ctxt, s[n - 1]);
        (st2, prev.push(x))
    }
}

impl State {
    /// Replaces a constant element or fragment by `_x || (_x = ...)`.
    pub fn hoist_jsx(&mut self, expr: JsxChild) -> (r: JsxChild)
        requires
            expr matches JsxChild::Element(el) ==> el.name is Ident,
        ensures
            match expr@ {
                JsxChildView::Element(el) => {
                    let (st, id) = hoist_bind(old(self).cstate(), old(self).ctxt, seq!['_'] + name_sym(el.name));
                    &&& final(self).cstate() == st
                    &&& r@ == JsxChildView::Hoisted { id, jsx: Box::new(expr@) }
                },
                JsxChildView::Fragment(_) => {
                    let (st, id) = hoist_bind(old(self).cstate(), old(self).ctxt, frag_name());
                    &&& final(self).cstate() == st
                    &&& r@ == JsxChildView::Hoisted { id, jsx: Box::new(expr@) }
                },
                _ => final(self).cstate() == old(self).cstate() && r == expr,
            },
            final(self).same_config(old(self)),
    {
        proof {
            reveal_with_fuel(child_view, 2);
        }
        match expr {
            JsxChild::Element(el) => {
                let mut name = String::new();
                push_char(&mut name, '_');
                match &el.name {
                    JsxName::Ident(id) => push_str(&mut name, id.sym.as_str()),
                    JsxName::Other(_) => {},
                }
                assert(name@ =~= seq!['_'] + name_sym(el.name));
                let id = self.bind(Some(name));
                hoist_result_ast(id, JsxChild::Element(el))
            },
            JsxChild::Fragment(ch) => {
                let id = self.bind(None);
                hoist_result_ast(id, JsxChild::Fragment(ch))
            },
            other => other,
        }
    }

    fn hoist_exprs(&mut self, v: Vec<HExpr>) -> (r: Vec<HExpr>)
        requires
            hexprs_well_named(hexprs_view(v@, v@.len()), v@.len()),
        ensures
            ({
                let (st, xs) = spec_hoist_exprs(old(self).cstate(), old(self).config, old(self).ctxt, hexprs_view(v@, v@.len()), v@.len());
                &&& final(self).cstate() == st
                &&& hexprs_view(r@, r@.len()) == xs
            }),
            final(self).same_config(old(self)),
        decreases v, 0nat,
    {
        let ghost vv = v;
        let ghost orig = v@;
        let ghost sv = hexprs_view(orig, orig.len());
        let ghost st0 = self.cstate();
        let ghost pre = *self;
        proof {
            lemma_hexprs_view(orig, orig.len());
        }
        let n = v.len();
        let mut rest = crate::ast::reversed(v);
        let mut out: Vec<HExpr> = Vec::new();
        let mut k: usize = 0;
        assert(hexprs_view(out@, 0) =~= Seq::<HExprView>::empty());
        while k < n
            invariant
                n == orig.len(),
                orig == vv@,
                vv == v,
                sv == hexprs_view(orig, orig.len()),
                sv.len() == n,
                hexprs_well_named(sv, n as nat),
                forall|i: int| 0 <= i < n ==> #[trigger] sv[i] == hexpr_view(orig[i]),
                k <= n,
                rest@ == Seq::new((n - k) as nat, |t: int| orig[n - 1 - t]),
                out@.len() == k,
                pre == *old(self),
                st0 == old(self).cstate(),
                self.same_config(&pre),
                spec_hoist_exprs(st0, pre.config, pre.ctxt, sv, k as nat) == (self.cstate(), hexprs_view(out@, out@.len())),
            decreases n - k,
        {
            let x = rest.pop().unwrap();
            assert(x == orig[k as int]);
            assert(rest@ =~= Seq::new((n - k - 1) as nat, |t: int| orig[n - 1 - t]));
            proof {
                assert(decreases_to!(vv => vv[k as int]));
                lemma_hexprs_well_named(sv, n as nat, k as int);
            }
            let y = self.hoist_expr(x);
            proof {
                lemma_hexprs_view_push(out@, y);
            }
            out.push(y);
            k = k + 1;
        }
        out
    }

    /// The hoisting on one expression of a function body.
    pub fn hoist_expr(&mut self, e: HExpr) -> (r: HExpr)
        requires
            hexpr_well_named(e@),
        ensures
            ({
                let (st, x) = spec_hoist_expr(old(self).cstate(), old(self).config, old(self).ctxt, e@);
                &&& final(self).cstate() == st
                &&& r@ == x
            }),
            final(self).same_config(old(self)),
        decreases e, 1nat,
    {
        proof {
            reveal_with_fuel(child_view, 2);
        }
        match e {
            HExpr::Jsx(c) => match c {
                JsxChild::Element(el) => {
                    let (el2, imm) = self.modify_jsx(el);
                    if imm {
                        HExpr::Jsx(self.hoist_jsx(JsxChild::Element(el2)))
                    } else {
                        HExpr::Jsx(JsxChild::Element(el2))
                    }
                },
                JsxChild::Fragment(ch) => {
                    proof {
                        lemma_children_view(ch@, ch@.len());
                    }
                    let (ch2, imm) = self.children_step(ch, false);
                    if imm {
                        HExpr::Jsx(self.hoist_jsx(JsxChild::Fragment(ch2)))
                    } else {
                        HExpr::Jsx(JsxChild::Fragment(ch2))
                    }
                },
                other => HExpr::Jsx(other),
            },
            HExpr::Node { kind, children } => {
                proof {
                    assert(decreases_to!(e => e->children));
                    lemma_hexprs_view(children@, children@.len());
                }
                let ch = self.hoist_exprs(children);
                HExpr::Node { kind, children: ch }
            },
        }
    }
}


/// The binding pattern of a variable declarator.
pub enum DeclPat {
    Ident(Id),
    /// `[a, , b]`: the plain identifiers among the elements.
    Array(Vec<Option<Id>>),
    Other(u64),
}

/// A declaration.
pub enum Decl {
    Class(Id),
    Fn(Id),
    Var(Vec<DeclPat>),
    Other(u64),
}

/// A statement or module declaration, by what it declares.
pub enum DeclItem {
    /// A statement, with its declaration when it is one.
    Stmt(Option<Decl>),
    Import(ImportDecl),
    ExportDecl(Decl),
    ExportDefaultClass(Option<Id>),
    ExportDefaultFn(Option<Id>),
    OtherModuleDecl(u64),
}

pub open spec fn opt_ids(v: Seq<Option<Id>>, n: int) -> Seq<IdView>
    decreases n,
{
    if n <= 0 {
        Seq::empty()
    } else {
        opt_ids(v, n - 1) + match v[n - 1] {
            Some(id) => seq![id@],
            None => Seq::empty(),
        }
    }
}

pub open spec fn pat_ids(p: DeclPat) -> Seq<IdView> {
    match p {
        DeclPat::Ident(id) => seq![id@],
        DeclPat::Array(elems) => opt_ids(elems@, elems@.len() as int),
        DeclPat::Other(_) => Seq::empty(),
    }
}

pub open spec fn pats_ids(v: Seq<DeclPat>, n: int) -> Seq<IdView>
    decreases n,
{
    if n <= 0 {
        Seq::empty()
    } else {
        pats_ids(v, n - 1) + pat_ids(v[n - 1])
    }
}

/// The bindings a declaration introduces.
pub open spec fn spec_decl_ids(d: Decl) -> Seq<IdView> {
    match d {
        Decl::Class(id) => seq![id@],
        Decl::Fn(id) => seq![id@],
        Decl::Var(pats) => pats_ids(pats@, pats@.len() as int),
        Decl::Other(_) => Seq::empty(),
    }
}

pub open spec fn specs_locals(v: Seq<ImportSpecifierView>) -> Seq<IdView> {
    v.map_values(|s: ImportSpecifierView| match s {
        ImportSpecifierView::Named { local, .. } => local,
        ImportSpecifierView::Default(x) => x,
        ImportSpecifierView::Namespace(x) => x,
    })
}

/// The bindings an item introduces.
pub open spec fn spec_item_ids(d: DeclItem) -> Seq<IdView> {
    match d {
        DeclItem::Stmt(Some(decl)) => spec_decl_ids(decl),
        DeclItem::Stmt(None) => Seq::empty(),
        DeclItem::Import(i) => specs_locals(i@.specifiers),
        DeclItem::ExportDecl(decl) => spec_decl_ids(decl),
        DeclItem::ExportDefaultClass(id) => match id {
            Some(x) => seq![x@],
            None => Seq::empty(),
        },
        DeclItem::ExportDefaultFn(id) => match id {
            Some(x) => seq![x@],
            None => Seq::empty(),
        },
        DeclItem::OtherModuleDecl(_) => Seq::empty(),
    }
}

fn push_ids(out: &mut Vec<Id>, ids: &Vec<Option<Id>>)
    ensures
        ids_view(final(out)@) == ids_view(old(out)@) + opt_ids(ids@, ids@.len() as int),
{
    let mut k: usize = 0;
    assert(ids_view(out@) =~= ids_view(old(out)@) + opt_ids(ids@, 0));
    while k < ids.len()
        invariant
            k <= ids@.len(),
            ids_view(out@) == ids_view(old(out)@) + opt_ids(ids@, k as int),
        decreases ids@.len() - k,
    {
        let ghost before = out@;
        match &ids[k] {
            Some(id) => {
                out.push(id.duplicate());
                assert(ids_view(out@) =~= ids_view(before).push(id@));
            },
            None => {},
        }
        assert(ids_view(out@) =~= ids_view(old(out)@) + opt_ids(ids@, k + 1));
        k = k + 1;
    }
}

impl Decl {
    /// The bindings the declaration introduces.
    pub fn const_declared_by_item(&self) -> (r: Vec<Id>)
        ensures
            ids_view(r@) == spec_decl_ids(*self),
    {
        let mut out: Vec<Id> = Vec::new();
        match self {
            Decl::Class(id) => {
                out.push(id.duplicate());
                assert(ids_view(out@) =~= seq![id@]);
            },
            Decl::Fn(id) => {
                out.push(id.duplicate());
                assert(ids_view(out@) =~= seq![id@]);
            },
            Decl::Var(pats) => {
                let mut k: usize = 0;
                assert(ids_view(out@) =~= pats_ids(pats@, 0));
                while k < pats.len()
                    invariant
                        k <= pats@.len(),
                        ids_view(out@) == pats_ids(pats@, k as int),
                    decreases pats@.len() - k,
                {
                    let ghost before = out@;
                    match &pats[k] {
                        DeclPat::Ident(id) => {
                            out.push(id.duplicate());
                            assert(ids_view(out@) =~= ids_view(before) + seq![id@]);
                        },
                        DeclPat::Array(elems) => {
                            push_ids(&mut out, elems);
                        },
                        DeclPat::Other(_) => {
                            assert(ids_view(out@) =~= ids_view(before) + Seq::<IdView>::empty());
                        },
                    }
                    k = k + 1;
                }
            },
            Decl::Other(_) => {
                assert(ids_view(out@) =~= Seq::<IdView>::empty());
            },
        }
        out
    }
}

impl DeclItem {
    /// The bindings the item introduces.
    pub fn const_declared_by_item(&self) -> (r: Vec<Id>)
        ensures
            ids_view(r@) == spec_item_ids(*self),
    {
        let mut out: Vec<Id> = Vec::new();
        match self {
            DeclItem::Stmt(Some(d)) => return d.const_declared_by_item(),
            DeclItem::Stmt(None) => {},
            DeclItem::Import(i) => {
                let ghost sv = i@.specifiers;
                let mut k: usize = 0;
                while k < i.specifiers.len()
                    invariant
                        sv == i@.specifiers,
                        k <= i.specifiers@.len(),
                        ids_view(out@) == specs_locals(sv).take(k as int),
                    decreases i.specifiers@.len() - k,
                {
                    let ghost before = out@;
                    let id = i.specifiers[k].local();
                    assert(sv[k as int] == i.specifiers@[k as int]@);
                    assert(specs_locals(sv)[k as int] == id@);
                    out.push(id.duplicate());
                    assert(ids_view(out@) =~= ids_view(before).push(id@));
                    assert(ids_view(out@) =~= specs_locals(sv).take(k + 1));
                    k = k + 1;
                }
                assert(specs_locals(sv).take(sv.len() as int) =~= specs_locals(sv));
            },
            DeclItem::ExportDecl(d) => return d.const_declared_by_item(),
            DeclItem::ExportDefaultClass(id) => match id {
                Some(x) => out.push(x.duplicate()),
                None => {},
            },
            DeclItem::ExportDefaultFn(id) => match id {
                Some(x) => out.push(x.duplicate()),
                None => {},
            },
            DeclItem::OtherModuleDecl(_) => {},
        }
        assert(ids_view(out@) =~= spec_item_ids(*self));
        out
    }
}


/// A statement of a scope, for the hoisting.
pub enum ScopeItem {
    /// `let <ids>;`, the declaration of hoisted elements.
    Let(Vec<Id>),
    /// Another statement or module declaration: what it declares, and the
    /// expressions of the functions directly in it, in visiting order.
    Item { decl: DeclItem, bodies: Vec<HExpr> },
}

pub enum ScopeItemView {
    Let(Seq<IdView>),
    Item { decl: DeclItem, bodies: Seq<HExprView> },
}

impl View for ScopeItem {
    type V = ScopeItemView;

    open spec fn view(&self) -> ScopeItemView {
        match self {
            ScopeItem::Let(ids) => ScopeItemView::Let(ids_view(ids@)),
            ScopeItem::Item { decl, bodies } => ScopeItemView::Item { decl: *decl, bodies: hexprs_view(bodies@, bodies@.len()) },
        }
    }
}

pub open spec fn scope_items_view(v: Seq<ScopeItem>) -> Seq<ScopeItemView> {
    v.map_values(|x: ScopeItem| x@)
}

/// The bindings a scope item declares.
pub open spec fn scope_item_ids(it: ScopeItemView) -> Seq<IdView> {
    match it {
        ScopeItemView::Let(ids) => ids,
        ScopeItemView::Item { decl, .. } => spec_item_ids(decl),
    }
}

pub open spec fn set_insert(s: Seq<IdView>, x: IdView) -> Seq<IdView> {
    if s.contains(x) { s } else { s.push(x) }
}

/// The constant bindings in scope after declaring the first `n` of `ids`:
/// those that are never reassigned are added.
pub open spec fn declare_ids(vars: Seq<IdView>, immutable: Seq<IdView>, ids: Seq<IdView>, n: int) -> Seq<IdView>
    decreases n,
{
    if n <= 0 {
        vars
    } else {
        let prev = declare_ids(vars, immutable, ids, n - 1);
        if immutable.contains(ids[n - 1]) { set_insert(prev, ids[n - 1]) } else { prev }
    }
}

pub open spec fn declare_items(vars: Seq<IdView>, immutable: Seq<IdView>, items: Seq<ScopeItemView>, n: int) -> Seq<IdView>
    decreases n,
{
    if n <= 0 {
        vars
    } else {
        let prev = declare_items(vars, immutable, items, n - 1);
        let ids = scope_item_ids(items[n - 1]);
        declare_ids(prev, immutable, ids, ids.len() as int)
    }
}

pub open spec fn hoist_items(st: CState, config: ReactConstElementsOptions, ctxt: u32, items: Seq<ScopeItemView>, n: int) -> (CState, Seq<ScopeItemView>)
    decreases n,
{
    if n <= 0 {
        (st, Seq::empty())
    } else {
        let (st1, prev) = hoist_items(st, config, ctxt, items, n - 1);
        match items[n - 1] {
            ScopeItemView::Item { decl, bodies } => {
                let (st2, b) = spec_hoist_exprs(st1, config, ctxt, bodies, bodies.len());
                (st2, prev.push(ScopeItemView::Item { decl, bodies: b }))
            },
            x => (st1, prev.push(x)),
        }
    }
}

pub open spec fn items_well_named(items: Seq<ScopeItemView>) -> bool {
    forall|i: int| 0 <= i < items.len() ==> (#[trigger] items[i] matches ScopeItemView::Item { bodies, .. } ==> hexprs_well_named(bodies, bodies.len()))
}

/// The scope after the hoisting: its declarations are added to the
/// constant bindings, the functions in it are hoisted from, and the
/// bindings of what was hoisted are declared with `let` at its top.
pub open spec fn spec_stmt_likes(st: CState, immutable: Seq<IdView>, config: ReactConstElementsOptions, ctxt: u32, items: Seq<ScopeItemView>) -> (CState, Seq<ScopeItemView>) {
    let st1 = CState { vars: declare_items(st.vars, immutable, items, items.len() as int), ..st };
    let (st2, items2) = hoist_items(st1, config, ctxt, items, items.len() as int);
    let st3 = CState { candidates: Seq::empty(), ..st2 };
    if st2.candidates.len() > 0 {
        (st3, seq![ScopeItemView::Let(st2.candidates)] + items2)
    } else {
        (st3, items2)
    }
}

impl State {
    /// Adds the bindings that are never reassigned to the constant ones.
    pub fn declare_scope_vars(&mut self, ids: Vec<Id>)
        ensures
            final(self).cstate() == (CState {
                vars: declare_ids(old(self).cstate().vars, ids_view(old(self).immutable_ids@), ids_view(ids@), ids@.len() as int),
                ..old(self).cstate()
            }),
            final(self).same_config(old(self)),
    {
        let ghost st0 = self.cstate();
        let ghost iv = ids_view(ids@);
        let mut k: usize = 0;
        while k < ids.len()
            invariant
                k <= ids@.len(),
                iv == ids_view(ids@),
                st0 == old(self).cstate(),
                self.same_config(old(self)),
                self.cstate() == (CState { vars: declare_ids(st0.vars, ids_view(self.immutable_ids@), iv, k as int), ..st0 }),
            decreases ids@.len() - k,
        {
            let id = &ids[k];
            assert(iv[k as int] == id@);
            if contains_id(&self.immutable_ids, id) {
                if !contains_id(&self.vars, id) {
                    let ghost before = self.vars@;
                    self.vars.push(id.duplicate());
                    assert(ids_view(self.vars@) =~= ids_view(before).push(id@));
                }
            }
            k = k + 1;
        }
    }

    /// The hoisting on the statements of one scope.
    pub fn visit_mut_stmt_likes(&mut self, stmts: &mut Vec<ScopeItem>)
        requires
            items_well_named(scope_items_view(old(stmts)@)),
        ensures
            ({
                let (st, items) = spec_stmt_likes(
                    old(self).cstate(),
                    ids_view(old(self).immutable_ids@),
                    old(self).config,
                    old(self).ctxt,
                    scope_items_view(old(stmts)@),
                );
                &&& final(self).cstate() == st
                &&& scope_items_view(final(stmts)@) == items
            }),
            final(self).same_config(old(self)),
    {
        let ghost st0 = self.cstate();
        let ghost pre = *self;
        let ghost iv = scope_items_view(stmts@);
        let ghost imm = ids_view(self.immutable_ids@);
        // Declarations.
        let mut i: usize = 0;
        while i < stmts.len()
            invariant
                i <= stmts@.len(),
                iv == scope_items_view(stmts@),
                stmts@ == old(stmts)@,
                st0 == old(self).cstate(),
                pre == *old(self),
                imm == ids_view(pre.immutable_ids@),
                self.same_config(&pre),
                self.cstate() == (CState { vars: declare_items(st0.vars, imm, iv, i as int), ..st0 }),
            decreases stmts@.len() - i,
        {
            assert(iv[i as int] == stmts@[i as int]@);
            let ids = match &stmts[i] {
                ScopeItem::Let(ids) => clone_ids(ids),
                ScopeItem::Item { decl, .. } => decl.const_declared_by_item(),
            };
            self.declare_scope_vars(ids);
            i = i + 1;
        }
        let ghost st1 = self.cstate();
        // Hoisting in the functions of the scope.
        let mut body: Vec<ScopeItem> = Vec::new();
        std::mem::swap(&mut body, stmts);
        let ghost orig = body@;
        let n = body.len();
        let mut rest = crate::ast::reversed(body);
        let mut out: Vec<ScopeItem> = Vec::new();
        let mut k: usize = 0;
        assert(scope_items_view(out@) =~= Seq::<ScopeItemView>::empty());
        while k < n
            invariant
                n == orig.len(),
                orig == old(stmts)@,
                iv == scope_items_view(orig),
                items_well_named(iv),
                k <= n,
                rest@ == Seq::new((n - k) as nat, |t: int| orig[n - 1 - t]),
                pre == *old(self),
                self.same_config(&pre),
                hoist_items(st1, pre.config, pre.ctxt, iv, k as int) == (self.cstate(), scope_items_view(out@)),
            decreases n - k,
        {
            let item = rest.pop().unwrap();
            assert(item == orig[k as int]);
            assert(rest@ =~= Seq::new((n - k - 1) as nat, |t: int| orig[n - 1 - t]));
            assert(iv[k as int] == item@);
            let x = match item {
                ScopeItem::Item { decl, bodies } => {
                    proof {
                        lemma_hexprs_view(bodies@, bodies@.len());
                    }
                    let b = self.hoist_exprs(bodies);
                    ScopeItem::Item { decl, bodies: b }
                },
                other => other,
            };
            let ghost before = out@;
            out.push(x);
            assert(scope_items_view(out@) =~= scope_items_view(before).push(x@));
            k = k + 1;
        }
        // The declaration of the hoisted elements.
        let mut candidates: Vec<Id> = Vec::new();
        std::mem::swap(&mut candidates, &mut self.candidates);
        if candidates.len() > 0 {
            let ghost cv = ids_view(candidates@);
            let ghost ov = scope_items_view(out@);
            out.insert(0, ScopeItem::Let(candidates));
            assert(scope_items_view(out@) =~= seq![ScopeItemView::Let(cv)] + ov);
        }
        assert(ids_view(self.candidates@) =~= Seq::<IdView>::empty());
        *stmts = out;
    }
}

fn clone_ids(ids: &Vec<Id>) -> (r: Vec<Id>)
    ensures
        ids_view(r@) == ids_view(ids@),
{
    let mut out: Vec<Id> = Vec::new();
    let mut k: usize = 0;
    while k < ids.len()
        invariant
            k <= ids@.len(),
            ids_view(out@) == ids_view(ids@).take(k as int),
        decreases ids@.len() - k,
    {
        let ghost before = out@;
        let d = ids[k].duplicate();
        out.push(d);
        assert(ids_view(out@) =~= ids_view(before).push(d@));
        assert(ids_view(out@) =~= ids_view(ids@).take(k + 1));
        k = k + 1;
    }
    assert(ids_view(ids@).take(ids@.len() as int) =~= ids_view(ids@));
    out
}


#[derive(Clone, Copy, PartialEq, Eq, Structural)]
pub enum VarDeclKind {
    Var,
    Let,
    Const,
}

/// What the usage analysis records of a binding.
#[derive(Clone, Copy)]
pub struct VarInfo {
    pub is_fn_param: bool,
    pub initialized: bool,
    pub reassigned: bool,
    pub kind: Option<VarDeclKind>,
    pub assign_count: u32,
}

pub open spec fn default_info() -> VarInfo {
    VarInfo { is_fn_param: false, initialized: false, reassigned: false, kind: None, assign_count: 0 }
}

/// The scope data of the analysis, which records nothing.
#[derive(Clone, Copy, Debug, Default)]
pub struct DummyScope;

/// The usage analysis's storage: what it learned of each binding.
pub struct ImmutableVar {
    pub vars: Vec<(Id, VarInfo)>,
    pub scopes: Vec<DummyScope>,
}

pub open spec fn vars_view(v: Seq<(Id, VarInfo)>) -> Seq<(IdView, VarInfo)> {
    v.map_values(|x: (Id, VarInfo)| (x.0@, x.1))
}

/// Where the entry of `id` is (the last one, should there be several).
pub open spec fn find_var(v: Seq<(IdView, VarInfo)>, id: IdView) -> Option<int>
    decreases v.len(),
{
    if v.len() == 0 {
        None
    } else if v.last().0 == id {
        Some(v.len() - 1)
    } else {
        find_var(v.drop_last(), id)
    }
}

pub proof fn lemma_find_var(v: Seq<(IdView, VarInfo)>, id: IdView)
    ensures
        match find_var(v, id) {
            Some(i) => 0 <= i < v.len() && v[i].0 == id,
            None => forall|i: int| 0 <= i < v.len() ==> v[i].0 != id,
        },
    decreases v.len(),
{
    if v.len() > 0 && v.last().0 != id {
        lemma_find_var(v.drop_last(), id);
        if find_var(v, id) is None {
            assert forall|i: int| 0 <= i < v.len() implies v[i].0 != id by {
                if i < v.len() - 1 {
                    assert(v.drop_last()[i] == v[i]);
                }
            }
        }
    }
}

/// The table with the entry of `id` (a default one if there is none)
/// replaced by `f` of it.
pub open spec fn update_var(v: Seq<(IdView, VarInfo)>, id: IdView, f: spec_fn(VarInfo) -> VarInfo) -> Seq<(IdView, VarInfo)> {
    match find_var(v, id) {
        Some(i) => v.update(i, (id, f(v[i].1))),
        None => v.push((id, f(default_info()))),
    }
}

pub open spec fn wrapping_inc(n: u32, by: u32) -> u32 {
    if n + by > u32::MAX { (n + by - u32::MAX - 1) as u32 } else { (n + by) as u32 }
}

/// A declaration: initialized when it has an initializer or is a
/// parameter pattern, which then counts as an assignment.
pub open spec fn declared(info: VarInfo, has_init: bool, in_pat_of_param: bool, kind: Option<VarDeclKind>) -> VarInfo {
    let initialized = has_init || in_pat_of_param;
    VarInfo {
        initialized,
        assign_count: if initialized { wrapping_inc(info.assign_count, 1) } else { info.assign_count },
        kind,
        ..info
    }
}

/// An assignment: a reassignment when the binding was initialized.
pub open spec fn assigned(info: VarInfo) -> VarInfo {
    VarInfo {
        reassigned: if info.initialized { true } else { info.reassigned },
        assign_count: wrapping_inc(info.assign_count, 1),
        ..info
    }
}

/// An entry of a child scope merged into an existing one.
pub open spec fn merged(info: VarInfo, child: VarInfo) -> VarInfo {
    let count = wrapping_inc(info.assign_count, child.assign_count);
    VarInfo {
        initialized: info.initialized || child.initialized,
        is_fn_param: info.is_fn_param || child.is_fn_param,
        assign_count: count,
        reassigned: child.reassigned || count > 1,
        ..info
    }
}

/// The table after merging the first `n` entries of a child's.
pub open spec fn merge_vars(v: Seq<(IdView, VarInfo)>, child: Seq<(IdView, VarInfo)>, n: int) -> Seq<(IdView, VarInfo)>
    decreases n,
{
    if n <= 0 {
        v
    } else {
        let prev = merge_vars(v, child, n - 1);
        let (id, info) = child[n - 1];
        match find_var(prev, id) {
            Some(i) => prev.update(i, (id, merged(prev[i].1, info))),
            None => prev.push((id, info)),
        }
    }
}

/// How many of the first `n` entries are initialized.
pub open spec fn count_initialized(v: Seq<(IdView, VarInfo)>, n: int) -> nat
    decreases n,
{
    if n <= 0 {
        0
    } else {
        count_initialized(v, n - 1) + if v[n - 1].1.initialized { 1nat } else { 0nat }
    }
}

/// The bindings among the first `n` that are never reassigned.
pub open spec fn immutable_of(v: Seq<(IdView, VarInfo)>, n: int) -> Seq<IdView>
    decreases n,
{
    if n <= 0 {
        Seq::empty()
    } else {
        immutable_of(v, n - 1) + if v[n - 1].1.reassigned { Seq::empty() } else { seq![v[n - 1].0] }
    }
}

impl ImmutableVar {
    pub fn new() -> (r: ImmutableVar)
        ensures
            r.vars@.len() == 0,
            r.scopes@.len() == 1,
    {
        let mut scopes: Vec<DummyScope> = Vec::new();
        scopes.push(DummyScope);
        ImmutableVar { vars: Vec::new(), scopes }
    }

    fn find(&self, id: &Id) -> (r: Option<usize>)
        ensures
            match r {
                Some(i) => find_var(vars_view(self.vars@), id@) == Some(i as int) && i < self.vars@.len(),
                None => find_var(vars_view(self.vars@), id@) is None,
            },
    {
        let ghost v = vars_view(self.vars@);
        let mut k: usize = self.vars.len();
        assert(v.take(v.len() as int) =~= v);
        while k > 0
            invariant
                v == vars_view(self.vars@),
                k <= self.vars@.len(),
                find_var(v, id@) == find_var(v.take(k as int), id@),
            decreases k,
        {
            assert(v.take(k as int).drop_last() =~= v.take(k - 1));
            assert(v.take(k as int).last() == v[k - 1]);
            if self.vars[k - 1].0.same(id) {
                return Some(k - 1);
            }
            k = k - 1;
        }
        None
    }

    /// The entry of `id`, added with default values when there is none;
    /// its index.
    pub fn var_or_default(&mut self, id: &Id) -> (r: usize)
        ensures
            vars_view(final(self).vars@) == update_var(vars_view(old(self).vars@), id@, |i: VarInfo| i),
            r < final(self).vars@.len(),
            vars_view(final(self).vars@)[r as int].0 == id@,
            r == match find_var(vars_view(old(self).vars@), id@) {
                Some(j) => j,
                None => old(self).vars@.len() as int,
            },
            final(self).scopes == old(self).scopes,
    {
        proof {
            lemma_find_var(vars_view(self.vars@), id@);
        }
        match self.find(id) {
            Some(i) => {
                assert(vars_view(self.vars@).update(i as int, (id@, vars_view(self.vars@)[i as int].1)) =~= vars_view(self.vars@));
                i
            },
            None => {
                let ghost before = self.vars@;
                self.vars.push((id.duplicate(), VarInfo { is_fn_param: false, initialized: false, reassigned: false, kind: None, assign_count: 0 }));
                assert(vars_view(self.vars@) =~= vars_view(before).push((id@, default_info())));
                self.vars.len() - 1
            },
        }
    }

    /// Records a declaration of `id`.
    pub fn declare_decl(&mut self, id: &Id, has_init: bool, in_pat_of_param: bool, kind: Option<VarDeclKind>)
        ensures
            vars_view(final(self).vars@) == update_var(vars_view(old(self).vars@), id@, |i: VarInfo| declared(i, has_init, in_pat_of_param, kind)),
            final(self).scopes == old(self).scopes,
    {
        let ghost v0 = vars_view(self.vars@);
        let i = self.var_or_default(id);
        let ghost v1 = vars_view(self.vars@);
        let mut info = self.vars[i].1;
        info.initialized = has_init || in_pat_of_param;
        if info.initialized {
            info.assign_count = info.assign_count.wrapping_add(1);
        }
        info.kind = kind;
        let d = self.vars[i].0.duplicate();
        self.vars.set(i, (d, info));
        assert(vars_view(self.vars@) =~= v1.update(i as int, (id@, info)));
        proof {
            lemma_find_var(v0, id@);
            match find_var(v0, id@) {
                Some(j) => {
                    assert(v1 =~= v0);
                    assert(vars_view(self.vars@) =~= update_var(v0, id@, |x: VarInfo| declared(x, has_init, in_pat_of_param, kind)));
                },
                None => {
                    assert(vars_view(self.vars@) =~= update_var(v0, id@, |x: VarInfo| declared(x, has_init, in_pat_of_param, kind)));
                },
            }
        }
    }

    /// Records an assignment to `id`.
    pub fn report_assign(&mut self, id: &Id)
        ensures
            vars_view(final(self).vars@) == update_var(vars_view(old(self).vars@), id@, |i: VarInfo| assigned(i)),
            final(self).scopes == old(self).scopes,
    {
        let ghost v0 = vars_view(self.vars@);
        let i = self.var_or_default(id);
        let ghost v1 = vars_view(self.vars@);
        let mut info = self.vars[i].1;
        if info.initialized {
            info.reassigned = true;
        }
        info.assign_count = info.assign_count.wrapping_add(1);
        let d = self.vars[i].0.duplicate();
        self.vars.set(i, (d, info));
        assert(vars_view(self.vars@) =~= v1.update(i as int, (id@, info)));
        proof {
            lemma_find_var(v0, id@);
            match find_var(v0, id@) {
                Some(j) => {
                    assert(v1 =~= v0);
                    assert(vars_view(self.vars@) =~= update_var(v0, id@, |x: VarInfo| assigned(x)));
                },
                None => {
                    assert(vars_view(self.vars@) =~= update_var(v0, id@, |x: VarInfo| assigned(x)));
                },
            }
        }
    }

    /// Merges what a child scope learned.
    pub fn merge(&mut self, child: ImmutableVar)
        ensures
            vars_view(final(self).vars@) == merge_vars(vars_view(old(self).vars@), vars_view(child.vars@), child.vars@.len() as int),
            final(self).scopes == old(self).scopes,
    {
        let ghost cv = vars_view(child.vars@);
        let ghost v0 = vars_view(self.vars@);
        let mut k: usize = 0;
        while k < child.vars.len()
            invariant
                k <= child.vars@.len(),
                cv == vars_view(child.vars@),
                v0 == vars_view(old(self).vars@),
                self.scopes == old(self).scopes,
                vars_view(self.vars@) == merge_vars(v0, cv, k as int),
            decreases child.vars@.len() - k,
        {
            let id = &child.vars[k].0;
            let info = child.vars[k].1;
            assert(cv[k as int] == (id@, info));
            let ghost before = vars_view(self.vars@);
            proof {
                lemma_find_var(before, id@);
            }
            match self.find(id) {
                Some(i) => {
                    let mut cur = self.vars[i].1;
                    cur.initialized = cur.initialized || info.initialized;
                    cur.is_fn_param = cur.is_fn_param || info.is_fn_param;
                    cur.assign_count = cur.assign_count.wrapping_add(info.assign_count);
                    cur.reassigned = info.reassigned || cur.assign_count > 1;
                    let d = self.vars[i].0.duplicate();
                    self.vars.set(i, (d, cur));
                    assert(vars_view(self.vars@) =~= before.update(i as int, (id@, merged(before[i as int].1, info))));
                },
                None => {
                    self.vars.push((id.duplicate(), info));
                    assert(vars_view(self.vars@) =~= before.push((id@, info)));
                },
            }
            k = k + 1;
        }
    }

    /// How many bindings are initialized.
    pub fn get_initialized_cnt(&self) -> (r: usize)
        ensures
            r == count_initialized(vars_view(self.vars@), self.vars@.len() as int),
    {
        let ghost v = vars_view(self.vars@);
        let mut n: usize = 0;
        let mut k: usize = 0;
        while k < self.vars.len()
            invariant
                v == vars_view(self.vars@),
                k <= self.vars@.len(),
                n == count_initialized(v, k as int),
                n <= k,
            decreases self.vars@.len() - k,
        {
            if self.vars[k].1.initialized {
                n = n + 1;
            }
            k = k + 1;
        }
        n
    }
}

/// The bindings that the analysis found never reassigned.
pub fn get_immutable_ids(storage: &ImmutableVar) -> (r: Vec<Id>)
    ensures
        ids_view(r@) == immutable_of(vars_view(storage.vars@), storage.vars@.len() as int),
{
    let ghost v = vars_view(storage.vars@);
    let mut out: Vec<Id> = Vec::new();
    let mut k: usize = 0;
    while k < storage.vars.len()
        invariant
            v == vars_view(storage.vars@),
            k <= storage.vars@.len(),
            ids_view(out@) == immutable_of(v, k as int),
        decreases storage.vars@.len() - k,
    {
        let ghost before = out@;
        if !storage.vars[k].1.reassigned {
            let d = storage.vars[k].0.duplicate();
            out.push(d);
            assert(ids_view(out@) =~= ids_view(before).push(d@));
        }
        assert(ids_view(out@) =~= immutable_of(v, k + 1));
        k = k + 1;
    }
    out
}

/// The transform.
pub struct ReactConstElements {
    pub state: State,
}

/// The transform with its options; `ctxt` is the syntax context it gives
/// the bindings it creates.
pub fn react_const_elements(config: ReactConstElementsOptions, ctxt: u32) -> (r: ReactConstElements)
    ensures
        r.state.config == config,
        r.state.ctxt == ctxt,
        r.state.next_id == 0,
        r.state.vars@.len() == 0,
        r.state.candidates@.len() == 0,
        r.state.used_names@.len() == 0,
        r.state.immutable_ids@.len() == 0,
{
    ReactConstElements { state: State::new(config, ctxt) }
}

} // verus!
