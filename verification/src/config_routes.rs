//! Route configs: the `component` of each route object is loaded with
//! `require(...).default` and gets a `module: require(...)` sibling, or,
//! when routes are lazy, is loaded with `loadable(() => import(...))`.

use vstd::prelude::*;
use crate::text::{str_eq, to_owned_string};

verus! {

pub struct ConfigRoutesConfig {
    pub lazy: Option<bool>,
}

impl Default for ConfigRoutesConfig {
    fn default() -> (r: ConfigRoutesConfig)
        ensures
            r.lazy is None,
    {
        ConfigRoutesConfig { lazy: None }
    }
}

/// The key of a property.
pub enum RKey {
    Ident(String),
    Str(String),
    Other(u64),
}

pub enum RKeyView {
    Ident(Seq<char>),
    Str(Seq<char>),
    Other(u64),
}

impl View for RKey {
    type V = RKeyView;

    open spec fn view(&self) -> RKeyView {
        match self {
            RKey::Ident(s) => RKeyView::Ident(s@),
            RKey::Str(s) => RKeyView::Str(s@),
            RKey::Other(h) => RKeyView::Other(*h),
        }
    }
}

/// An expression, as far as the transform reads it.
pub enum RExpr {
    Object(Vec<RProp>),
    /// `require(<e>)`.
    Require(Box<RExpr>),
    /// `require(<e>).default`.
    RequireDefault(Box<RExpr>),
    /// `loadable(() => import(<e>))`.
    Loadable(Box<RExpr>),
    /// Any other expression, with its sub-expressions in visiting order.
    Node { kind: u64, children: Vec<RExpr> },
}

/// A property of an object literal.
pub enum RProp {
    KeyValue { key: RKey, value: RExpr },
    /// Any other property or spread.
    Other(u64),
}

pub enum RExprView {
    Object(Seq<RPropView>),
    Require(Box<RExprView>),
    RequireDefault(Box<RExprView>),
    Loadable(Box<RExprView>),
    Node { kind: u64, children: Seq<RExprView> },
}

pub enum RPropView {
    KeyValue { key: RKeyView, value: RExprView },
    Other(u64),
}

pub open spec fn rexpr_view(e: RExpr) -> RExprView
    decreases e, 1nat,
{
    match e {
        RExpr::Object(props) => RExprView::Object(rprops_view(props@, props@.len())),
        RExpr::Require(x) => RExprView::Require(Box::new(rexpr_view(*x))),
        RExpr::RequireDefault(x) => RExprView::RequireDefault(Box::new(rexpr_view(*x))),
        RExpr::Loadable(x) => RExprView::Loadable(Box::new(rexpr_view(*x))),
        RExpr::Node { kind, children } => RExprView::Node { kind, children: rexprs_view(children@, children@.len()) },
    }
}

pub open spec fn rprop_view(p: RProp) -> RPropView
    decreases p, 1nat,
{
    match p {
        RProp::KeyValue { key, value } => RPropView::KeyValue { key: key@, value: rexpr_view(value) },
        RProp::Other(h) => RPropView::Other(h),
    }
}

pub open spec fn rprops_view(s: Seq<RProp>, n: nat) -> Seq<RPropView>
    decreases s, n,
{
    if n == 0 || n > s.len() {
        Seq::empty()
    } else {
        rprops_view(s, (n - 1) as nat).push(rprop_view(s[n - 1]))
    }
}

pub open spec fn rexprs_view(s: Seq<RExpr>, n: nat) -> Seq<RExprView>
    decreases s, n,
{
    if n == 0 || n > s.len() {
        Seq::empty()
    } else {
        rexprs_view(s, (n - 1) as nat).push(rexpr_view(s[n - 1]))
    }
}

impl View for RExpr {
    type V = RExprView;

    open spec fn view(&self) -> RExprView {
        rexpr_view(*self)
    }
}

impl View for RProp {
    type V = RPropView;

    open spec fn view(&self) -> RPropView {
        rprop_view(*self)
    }
}

proof fn lemma_rprops_view(s: Seq<RProp>, n: nat)
    requires
        n <= s.len(),
    ensures
        rprops_view(s, n).len() == n,
        forall|i: int| 0 <= i < n ==> #[trigger] rprops_view(s, n)[i] == rprop_view(s[i]),
    decreases n,
{
    if n > 0 {
        lemma_rprops_view(s, (n - 1) as nat);
    }
}

proof fn lemma_rexprs_view(s: Seq<RExpr>, n: nat)
    requires
        n <= s.len(),
    ensures
        rexprs_view(s, n).len() == n,
        forall|i: int| 0 <= i < n ==> #[trigger] rexprs_view(s, n)[i] == rexpr_view(s[i]),
    decreases n,
{
    if n > 0 {
        lemma_rexprs_view(s, (n - 1) as nat);
    }
}

proof fn lemma_rprops_view_push(s: Seq<RProp>, x: RProp)
    ensures
        rprops_view(s.push(x), s.len() + 1) == rprops_view(s, s.len()).push(rprop_view(x)),
{
    lemma_rprops_view(s, s.len());
    lemma_rprops_view(s.push(x), s.len() + 1);
    assert(rprops_view(s.push(x), s.len() + 1) =~= rprops_view(s, s.len()).push(rprop_view(x)));
}

/// A string or identifier key equal to `target`.
pub open spec fn key_is(key: RKeyView, target: Seq<char>) -> bool {
    match key {
        RKeyView::Ident(s) => s == target,
        RKeyView::Str(s) => s == target,
        RKeyView::Other(_) => false,
    }
}

/// The value of the first key-value property keyed `target`.
pub open spec fn find_target(props: Seq<RPropView>, target: Seq<char>) -> Option<RExprView>
    decreases props.len(),
{
    if props.len() == 0 {
        None
    } else {
        match props[0] {
            RPropView::KeyValue { key, value } => if key_is(key, target) {
                Some(value)
            } else {
                find_target(props.drop_first(), target)
            },
            RPropView::Other(_) => find_target(props.drop_first(), target),
        }
    }
}

/// The `module` property added next to a component.
pub open spec fn module_prop(value: RExprView) -> RPropView {
    RPropView::KeyValue { key: RKeyView::Str("module"@), value }
}

/// The value of the first `component` property among the first `n`,
/// after the transform.
pub open spec fn routed_target(lazy: bool, props: Seq<RPropView>, n: nat) -> Option<RExprView>
    decreases props, n,
{
    if n == 0 || n > props.len() {
        None
    } else {
        match routed_target(lazy, props, (n - 1) as nat) {
            Some(x) => Some(x),
            None => match props[n - 1] {
                RPropView::KeyValue { key, value } => if key_is(key, "component"@) {
                    Some(spec_routes_expr(lazy, value))
                } else {
                    None
                },
                RPropView::Other(_) => None,
            },
        }
    }
}

/// The expression after the transform: every property and sub-expression
/// is visited, and a route object (one with a `component`) gets a `module`
/// property, loaded with `require`, when routes are not lazy.
pub open spec fn spec_routes_expr(lazy: bool, e: RExprView) -> RExprView
    decreases e, 1nat,
{
    match e {
        RExprView::Object(props) => {
            let base = spec_routes_props(lazy, props, props.len());
            RExprView::Object(
                if !lazy {
                    match routed_target(lazy, props, props.len()) {
                        Some(x) => base.push(module_prop(RExprView::Require(Box::new(x)))),
                        None => base,
                    }
                } else {
                    base
                },
            )
        },
        RExprView::Require(x) => RExprView::Require(Box::new(spec_routes_expr(lazy, *x))),
        RExprView::RequireDefault(x) => RExprView::RequireDefault(Box::new(spec_routes_expr(lazy, *x))),
        RExprView::Loadable(x) => RExprView::Loadable(Box::new(spec_routes_expr(lazy, *x))),
        RExprView::Node { kind, children } => RExprView::Node { kind, children: spec_routes_exprs(lazy, children, children.len()) },
    }
}

/// A property: `module` is loaded with `require` (not lazy), `component`
/// with `require(..).default`, or `loadable(() => import(..))` when lazy;
/// the value itself is visited too.
pub open spec fn spec_routes_prop(lazy: bool, p: RPropView) -> RPropView
    decreases p, 1nat,
{
    match p {
        RPropView::KeyValue { key, value } => {
            let v = spec_routes_expr(lazy, value);
            RPropView::KeyValue {
                key,
                value: if !lazy && key_is(key, "module"@) {
                    RExprView::Require(Box::new(v))
                } else if key_is(key, "component"@) {
                    if lazy { RExprView::Loadable(Box::new(v)) } else { RExprView::RequireDefault(Box::new(v)) }
                } else {
                    v
                },
            }
        },
        RPropView::Other(_) => p,
    }
}

pub open spec fn spec_routes_props(lazy: bool, s: Seq<RPropView>, n: nat) -> Seq<RPropView>
    decreases s, n,
{
    if n == 0 || n > s.len() {
        Seq::empty()
    } else {
        spec_routes_props(lazy, s, (n - 1) as nat).push(spec_routes_prop(lazy, s[n - 1]))
    }
}

pub open spec fn spec_routes_exprs(lazy: bool, s: Seq<RExprView>, n: nat) -> Seq<RExprView>
    decreases s, n,
{
    if n == 0 || n > s.len() {
        Seq::empty()
    } else {
        spec_routes_exprs(lazy, s, (n - 1) as nat).push(spec_routes_expr(lazy, s[n - 1]))
    }
}


proof fn lemma_routes_props_len(lazy: bool, s: Seq<RPropView>, n: nat)
    requires
        n <= s.len(),
    ensures
        spec_routes_props(lazy, s, n).len() == n,
        forall|i: int| 0 <= i < n ==> #[trigger] spec_routes_props(lazy, s, n)[i] == spec_routes_prop(lazy, s[i]),
    decreases n,
{
    if n > 0 {
        lemma_routes_props_len(lazy, s, (n - 1) as nat);
    }
}

proof fn lemma_routes_exprs_len(lazy: bool, s: Seq<RExprView>, n: nat)
    requires
        n <= s.len(),
    ensures
        spec_routes_exprs(lazy, s, n).len() == n,
        forall|i: int| 0 <= i < n ==> #[trigger] spec_routes_exprs(lazy, s, n)[i] == spec_routes_expr(lazy, s[i]),
    decreases n,
{
    if n > 0 {
        lemma_routes_exprs_len(lazy, s, (n - 1) as nat);
    }
}

impl RKey {
    pub fn duplicate(&self) -> (r: RKey)
        ensures
            r@ == self@,
    {
        match self {
            RKey::Ident(s) => RKey::Ident(s.clone()),
            RKey::Str(s) => RKey::Str(s.clone()),
            RKey::Other(h) => RKey::Other(*h),
        }
    }
}

fn key_is_exec(key: &RKey, target: &str) -> (r: bool)
    ensures
        r == key_is(key@, target@),
{
    match key {
        RKey::Ident(s) => str_eq(s.as_str(), target),
        RKey::Str(s) => str_eq(s.as_str(), target),
        RKey::Other(_) => false,
    }
}

/// A copy of the expression.
pub fn duplicate_expr(e: &RExpr) -> (r: RExpr)
    ensures
        r@ == e@,
    decreases e, 1nat,
{
    match e {
        RExpr::Object(props) => {
            proof {
                assert(decreases_to!(e => e->Object_0));
                lemma_rprops_view(props@, props@.len());
            }
            let mut out: Vec<RProp> = Vec::new();
            let mut k: usize = 0;
            while k < props.len()
                invariant
                    *e == RExpr::Object(*props),
                    k <= props@.len(),
                    out@.len() == k,
                    forall|i: int| 0 <= i < k ==> #[trigger] rprop_view(out@[i]) == rprop_view(props@[i]),
                decreases props@.len() - k,
            {
                proof {
                    assert(decreases_to!(e => e->Object_0));
                    assert(decreases_to!(props => props[k as int]));
                }
                let d = duplicate_prop(&props[k]);
                out.push(d);
                k = k + 1;
            }
            proof {
                lemma_rprops_view(out@, out@.len());
                assert(rprops_view(out@, out@.len()) =~= rprops_view(props@, props@.len()));
            }
            RExpr::Object(out)
        },
        RExpr::Require(x) => RExpr::Require(Box::new(duplicate_expr(x))),
        RExpr::RequireDefault(x) => RExpr::RequireDefault(Box::new(duplicate_expr(x))),
        RExpr::Loadable(x) => RExpr::Loadable(Box::new(duplicate_expr(x))),
        RExpr::Node { kind, children } => {
            proof {
                assert(decreases_to!(e => e->children));
                lemma_rexprs_view(children@, children@.len());
            }
            let mut out: Vec<RExpr> = Vec::new();
            let mut k: usize = 0;
            while k < children.len()
                invariant
                    *e == (RExpr::Node { kind: *kind, children: *children }),
                    k <= children@.len(),
                    out@.len() == k,
                    forall|i: int| 0 <= i < k ==> #[trigger] rexpr_view(out@[i]) == rexpr_view(children@[i]),
                decreases children@.len() - k,
            {
                proof {
                    assert(decreases_to!(e => e->children));
                    assert(decreases_to!(children => children[k as int]));
                }
                let d = duplicate_expr(&children[k]);
                out.push(d);
                k = k + 1;
            }
            proof {
                lemma_rexprs_view(out@, out@.len());
                assert(rexprs_view(out@, out@.len()) =~= rexprs_view(children@, children@.len()));
            }
            RExpr::Node { kind: *kind, children: out }
        },
    }
}

/// A copy of the property.
pub fn duplicate_prop(p: &RProp) -> (r: RProp)
    ensures
        r@ == p@,
    decreases p, 1nat,
{
    match p {
        RProp::KeyValue { key, value } => RProp::KeyValue { key: key.duplicate(), value: duplicate_expr(value) },
        RProp::Other(h) => RProp::Other(*h),
    }
}

pub struct ConfigRoutes {
    pub lazy: bool,
}

/// The transform; routes are not lazy unless configured so.
pub fn plugin_config_routes(config: &ConfigRoutesConfig) -> (r: ConfigRoutes)
    ensures
        r.lazy == match config.lazy {
            Some(b) => b,
            None => false,
        },
{
    ConfigRoutes {
        lazy: match config.lazy {
            Some(b) => b,
            None => false,
        },
    }
}

impl ConfigRoutes {
    fn routes_props(&self, v: Vec<RProp>) -> (r: Vec<RProp>)
        ensures
            rprops_view(r@, r@.len()) == spec_routes_props(self.lazy, rprops_view(v@, v@.len()), v@.len()),
        decreases v, 0nat,
    {
        let ghost vv = v;
        let ghost orig = v@;
        let ghost sv = rprops_view(orig, orig.len());
        proof {
            lemma_rprops_view(orig, orig.len());
            lemma_routes_props_len(self.lazy, sv, sv.len());
        }
        let n = v.len();
        let mut rest = crate::ast::reversed(v);
        let mut out: Vec<RProp> = Vec::new();
        let mut k: usize = 0;
        while k < n
            invariant
                n == orig.len(),
                orig == vv@,
                vv == v,
                sv == rprops_view(orig, orig.len()),
                sv.len() == n,
                forall|i: int| 0 <= i < n ==> #[trigger] sv[i] == rprop_view(orig[i]),
                k <= n,
                rest@ == Seq::new((n - k) as nat, |t: int| orig[n - 1 - t]),
                out@.len() == k,
                forall|i: int| 0 <= i < k ==> #[trigger] rprop_view(out@[i]) == spec_routes_prop(self.lazy, sv[i]),
            decreases n - k,
        {
            let x = rest.pop().unwrap();
            assert(x == orig[k as int]);
            assert(rest@ =~= Seq::new((n - k - 1) as nat, |t: int| orig[n - 1 - t]));
            proof {
                assert(decreases_to!(vv => vv[k as int]));
            }
            let y = self.routes_prop(x);
            out.push(y);
            k = k + 1;
        }
        proof {
            lemma_rprops_view(out@, out@.len());
            assert(rprops_view(out@, out@.len()) =~= spec_routes_props(self.lazy, sv, n as nat));
        }
        out
    }

    fn routes_exprs(&self, v: Vec<RExpr>) -> (r: Vec<RExpr>)
        ensures
            rexprs_view(r@, r@.len()) == spec_routes_exprs(self.lazy, rexprs_view(v@, v@.len()), v@.len()),
        decreases v, 0nat,
    {
        let ghost vv = v;
        let ghost orig = v@;
        let ghost sv = rexprs_view(orig, orig.len());
        proof {
            lemma_rexprs_view(orig, orig.len());
            lemma_routes_exprs_len(self.lazy, sv, sv.len());
        }
        let n = v.len();
        let mut rest = crate::ast::reversed(v);
        let mut out: Vec<RExpr> = Vec::new();
        let mut k: usize = 0;
        while k < n
            invariant
                n == orig.len(),
                orig == vv@,
                vv == v,
                sv == rexprs_view(orig, orig.len()),
                sv.len() == n,
                forall|i: int| 0 <= i < n ==> #[trigger] sv[i] == rexpr_view(orig[i]),
                k <= n,
                rest@ == Seq::new((n - k) as nat, |t: int| orig[n - 1 - t]),
                out@.len() == k,
                forall|i: int| 0 <= i < k ==> #[trigger] rexpr_view(out@[i]) == spec_routes_expr(self.lazy, sv[i]),
            decreases n - k,
        {
            let x = rest.pop().unwrap();
            assert(x == orig[k as int]);
            assert(rest@ =~= Seq::new((n - k - 1) as nat, |t: int| orig[n - 1 - t]));
            proof {
                assert(decreases_to!(vv => vv[k as int]));
            }
            let y = self.routes_expr(x);
            out.push(y);
            k = k + 1;
        }
        proof {
            lemma_rexprs_view(out@, out@.len());
            assert(rexprs_view(out@, out@.len()) =~= spec_routes_exprs(self.lazy, sv, n as nat));
        }
        out
    }

    /// A property, after the transform.
    pub fn routes_prop(&self, p: RProp) -> (r: RProp)
        ensures
            r@ == spec_routes_prop(self.lazy, p@),
        decreases p, 1nat,
    {
        proof {
            reveal_strlit("module");
            reveal_strlit("component");
        }
        match p {
            RProp::KeyValue { key, value } => {
                let v = self.routes_expr(value);
                let value = if !self.lazy && key_is_exec(&key, "module") {
                    RExpr::Require(Box::new(v))
                } else if key_is_exec(&key, "component") {
                    if self.lazy { RExpr::Loadable(Box::new(v)) } else { RExpr::RequireDefault(Box::new(v)) }
                } else {
                    v
                };
                RProp::KeyValue { key, value }
            },
            RProp::Other(h) => RProp::Other(h),
        }
    }

    /// An expression, after the transform.
    pub fn routes_expr(&self, e: RExpr) -> (r: RExpr)
        ensures
            r@ == spec_routes_expr(self.lazy, e@),
        decreases e, 1nat,
    {
        proof {
            reveal_strlit("module");
            reveal_strlit("component");
        }
        match e {
            RExpr::Object(props) => {
                proof {
                    assert(decreases_to!(e => e->Object_0));
                    lemma_rprops_view(props@, props@.len());
                }
                let ghost pv = rprops_view(props@, props@.len());
                let mut processed = self.routes_props(props);
                let ghost base = rprops_view(processed@, processed@.len());
                proof {
                    lemma_routes_props_len(self.lazy, pv, pv.len());
                    lemma_rprops_view(processed@, processed@.len());
                }
                if !self.lazy {
                    let mut found: Option<RExpr> = None;
                    let mut k: usize = 0;
                    while k < processed.len() && found.is_none()
                        invariant
                            !self.lazy,
                            k <= processed@.len(),
                            processed@.len() == pv.len(),
                            base == rprops_view(processed@, processed@.len()),
                            base == spec_routes_props(self.lazy, pv, pv.len()),
                            forall|i: int| 0 <= i < pv.len() ==> #[trigger] base[i] == spec_routes_prop(self.lazy, pv[i]),
                            forall|i: int| 0 <= i < pv.len() ==> #[trigger] base[i] == rprop_view(processed@[i]),
                            match found {
                                Some(x) => routed_target(self.lazy, pv, pv.len()) == Some(rexpr_view(x)),
                                None => routed_target(self.lazy, pv, k as nat) is None,
                            },
                        decreases processed@.len() - k,
                    {
                        proof {
                            reveal_with_fuel(rexpr_view, 2);
                            reveal_strlit("module");
                            reveal_strlit("component");
                            assert("module"@.len() == 6);
                            assert("component"@.len() == 9);
                            assert(base[k as int] == spec_routes_prop(self.lazy, pv[k as int]));
                            assert(base[k as int] == rprop_view(processed@[k as int]));
                        }
                        let inner: Option<RExpr> = match &processed[k] {
                            RProp::KeyValue { key, value } => if key_is_exec(key, "component") {
                                match value {
                                    RExpr::RequireDefault(x) => Some(duplicate_expr(x)),
                                    _ => None,
                                }
                            } else {
                                None
                            },
                            RProp::Other(_) => None,
                        };
                        proof {
                            if inner is Some {
                                lemma_routed_target_found(self.lazy, pv, k as nat, pv.len());
                            }
                        }
                        found = inner;
                        k = k + 1;
                    }
                    proof {
                        if found is None {
                            lemma_routed_target_none(self.lazy, pv, k as nat, pv.len());
                        }
                    }
                    match found {
                        Some(x) => {
                            let ghost before = processed@;
                            let m = RProp::KeyValue { key: RKey::Str(to_owned_string("module")), value: RExpr::Require(Box::new(x)) };
                            processed.push(m);
                            proof {
                                lemma_rprops_view_push(before, m);
                            }
                        },
                        None => {},
                    }
                }
                RExpr::Object(processed)
            },
            RExpr::Require(x) => RExpr::Require(Box::new(self.routes_expr(*x))),
            RExpr::RequireDefault(x) => RExpr::RequireDefault(Box::new(self.routes_expr(*x))),
            RExpr::Loadable(x) => RExpr::Loadable(Box::new(self.routes_expr(*x))),
            RExpr::Node { kind, children } => {
                proof {
                    assert(decreases_to!(e => e->children));
                    lemma_rexprs_view(children@, children@.len());
                }
                RExpr::Node { kind, children: self.routes_exprs(children) }
            },
        }
    }

    /// An expression, after the transform.
    pub fn visit_mut_expr(&self, expr: &mut RExpr)
        ensures
            final(expr)@ == spec_routes_expr(self.lazy, old(expr)@),
    {
        let mut e = RExpr::Node { kind: 0, children: Vec::new() };
        std::mem::swap(&mut e, expr);
        *expr = self.routes_expr(e);
    }
}

/// The first `component` property is at `k` when none comes before.
proof fn lemma_routed_target_found(lazy: bool, props: Seq<RPropView>, k: nat, n: nat)
    requires
        k < n <= props.len(),
        routed_target(lazy, props, k) is None,
        routed_target(lazy, props, k + 1) is Some,
    ensures
        routed_target(lazy, props, n) == routed_target(lazy, props, k + 1),
    decreases n - k,
{
    if n > k + 1 {
        lemma_routed_target_found(lazy, props, k, (n - 1) as nat);
    }
}

proof fn lemma_routed_target_none(lazy: bool, props: Seq<RPropView>, k: nat, n: nat)
    requires
        k == n,
        routed_target(lazy, props, k) is None,
    ensures
        routed_target(lazy, props, n) is None,
{
}


/// The value of the first key-value property keyed `target`.
pub fn find_target_prop_from_props<'a>(props: &'a Vec<RProp>, target: &str) -> (r: Option<&'a RExpr>)
    ensures
        match find_target(rprops_view(props@, props@.len()), target@) {
            Some(v) => r is Some && r.unwrap()@ == v,
            None => r is None,
        },
{
    let ghost pv = rprops_view(props@, props@.len());
    proof {
        lemma_rprops_view(props@, props@.len());
    }
    let mut k: usize = 0;
    assert(pv.skip(0) =~= pv);
    while k < props.len()
        invariant
            pv == rprops_view(props@, props@.len()),
            pv.len() == props@.len(),
            forall|i: int| 0 <= i < pv.len() ==> #[trigger] pv[i] == rprop_view(props@[i]),
            k <= props@.len(),
            find_target(pv, target@) == find_target(pv.skip(k as int), target@),
        decreases props@.len() - k,
    {
        assert(pv.skip(k as int).drop_first() =~= pv.skip(k + 1));
        assert(pv.skip(k as int)[0] == pv[k as int]);
        match &props[k] {
            RProp::KeyValue { key, value } => {
                if key_is_exec(key, target) {
                    return Some(value);
                }
            },
            RProp::Other(_) => {},
        }
        k = k + 1;
    }
    None
}


/// The keys of an object's properties include `component`.
pub open spec fn has_component_key(props: Seq<RPropView>) -> bool {
    exists|i: int| 0 <= i < props.len() && (#[trigger] props[i] matches RPropView::KeyValue { key, .. } && key_is(key, "component"@))
}

proof fn lemma_no_component_no_target(lazy: bool, props: Seq<RPropView>, n: nat)
    requires
        n <= props.len(),
        !has_component_key(props),
    ensures
        routed_target(lazy, props, n) is None,
    decreases n,
{
    if n > 0 {
        lemma_no_component_no_target(lazy, props, (n - 1) as nat);
        assert(!(props[n - 1] matches RPropView::KeyValue { key, .. } && key_is(key, "component"@)));
    }
}

/// With lazy routes an object keeps as many properties as it had, each one
/// transformed in place: no `module` property is ever added.
pub proof fn law_lazy_routes_add_no_property(props: Seq<RPropView>)
    ensures
        spec_routes_expr(true, RExprView::Object(props)) matches RExprView::Object(out)
            && out.len() == props.len()
            && forall|i: int| 0 <= i < props.len() ==> #[trigger] out[i] == spec_routes_prop(true, props[i]),
{
    lemma_routes_props_len(true, props, props.len());
}

/// An object with no `component` property is never given a `module`
/// property, lazy or not.
pub proof fn law_no_component_no_module(lazy: bool, props: Seq<RPropView>)
    requires
        !has_component_key(props),
    ensures
        spec_routes_expr(lazy, RExprView::Object(props)) matches RExprView::Object(out)
            && out.len() == props.len()
            && forall|i: int| 0 <= i < props.len() ==> #[trigger] out[i] == spec_routes_prop(lazy, props[i]),
{
    lemma_routes_props_len(lazy, props, props.len());
    lemma_no_component_no_target(lazy, props, props.len());
}


proof fn lemma_component_gives_target(lazy: bool, props: Seq<RPropView>, n: nat, i: int)
    requires
        n <= props.len(),
        0 <= i < n,
        props[i] matches RPropView::KeyValue { key, .. } && key_is(key, "component"@),
    ensures
        routed_target(lazy, props, n) is Some,
    decreases n,
{
    if i < n - 1 {
        lemma_component_gives_target(lazy, props, (n - 1) as nat, i);
    }
}

/// Without lazy routes, every route object (an object with a `component`
/// property) gains exactly one property, a `module` property loaded with
/// `require`, after its own.
pub proof fn law_route_object_gets_module(props: Seq<RPropView>)
    requires
        has_component_key(props),
    ensures
        spec_routes_expr(false, RExprView::Object(props)) matches RExprView::Object(out)
            && out.len() == props.len() + 1
            && (out.last() matches RPropView::KeyValue { key: RKeyView::Str(k), value: RExprView::Require(_) } && k == "module"@),
{
    let i = choose|i: int| 0 <= i < props.len() && (#[trigger] props[i] matches RPropView::KeyValue { key, .. } && key_is(key, "component"@));
    lemma_component_gives_target(false, props, props.len(), i);
    lemma_routes_props_len(false, props, props.len());
}

/// The transform reaches route objects wherever they sit: each route
/// object among the children of any other expression (an array, a call,
/// an export) gains the `module` property, and the expression keeps its
/// kind and its number of children.
pub proof fn law_nested_route_objects_get_module(kind: u64, children: Seq<RExprView>)
    ensures
        spec_routes_expr(false, RExprView::Node { kind, children }) matches RExprView::Node { kind: k2, children: c2 }
            && k2 == kind
            && c2.len() == children.len()
            && forall|i: int| 0 <= i < children.len() && (#[trigger] children[i] matches RExprView::Object(props) && has_component_key(props))
                ==> (c2[i] matches RExprView::Object(out) && out.len() == children[i]->Object_0.len() + 1
                    && (out.last() matches RPropView::KeyValue { key: RKeyView::Str(k), value: RExprView::Require(_) } && k == "module"@)),
{
    lemma_routes_exprs_len(false, children, children.len());
    assert forall|i: int| 0 <= i < children.len() && (#[trigger] children[i] matches RExprView::Object(props) && has_component_key(props))
        implies (spec_routes_exprs(false, children, children.len())[i] matches RExprView::Object(out)
            && out.len() == children[i]->Object_0.len() + 1
            && (out.last() matches RPropView::KeyValue { key: RKeyView::Str(k), value: RExprView::Require(_) } && k == "module"@)) by {
        law_route_object_gets_module(children[i]->Object_0);
    }
}

} // verus!
