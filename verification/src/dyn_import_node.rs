//! Dynamic `import()` for Node: `import('foo')` becomes
//! `Promise.resolve().then(() => require('foo'))`, any other specifier is
//! turned into a string first with a template literal.

use vstd::prelude::*;

verus! {

pub struct DynImportNodeConfig {
    pub interop: bool,
}

/// An expression, as far as the transform reads it.
pub enum DExpr {
    /// `import(<args>)`.
    Import { args: Vec<DExpr> },
    /// A string literal.
    Str(String),
    /// `Promise.resolve().then(() => require(<specifier>))` when `literal`,
    /// else `Promise.resolve(`${<specifier>}`).then(s => require(s))`; the
    /// `require` call is passed to `interopRequireWildcard` when `interop`
    /// holds, and that call is marked pure when `pure` holds.
    Required { specifier: Box<DExpr>, literal: bool, interop: bool, pure: bool },
    /// Any other expression, with its sub-expressions in visiting order.
    Node { kind: u64, children: Vec<DExpr> },
}

pub enum DExprView {
    Import { args: Seq<DExprView> },
    Str(Seq<char>),
    Required { specifier: Box<DExprView>, literal: bool, interop: bool, pure: bool },
    Node { kind: u64, children: Seq<DExprView> },
}

pub open spec fn dexpr_view(e: DExpr) -> DExprView
    decreases e, 0nat,
{
    match e {
        DExpr::Import { args } => DExprView::Import { args: dexprs_view(args@, args@.len()) },
        DExpr::Str(s) => DExprView::Str(s@),
        DExpr::Required { specifier, literal, interop, pure } => DExprView::Required {
            specifier: Box::new(dexpr_view(*specifier)),
            literal,
            interop,
            pure,
        },
        DExpr::Node { kind, children } => DExprView::Node { kind, children: dexprs_view(children@, children@.len()) },
    }
}

/// The views of the first `n` expressions of `s`.
pub open spec fn dexprs_view(s: Seq<DExpr>, n: nat) -> Seq<DExprView>
    decreases s, n,
{
    if n == 0 || n > s.len() {
        Seq::empty()
    } else {
        dexprs_view(s, (n - 1) as nat).push(dexpr_view(s[n - 1]))
    }
}

impl View for DExpr {
    type V = DExprView;

    open spec fn view(&self) -> DExprView {
        dexpr_view(*self)
    }
}

proof fn lemma_dexprs_view(s: Seq<DExpr>, n: nat)
    requires
        n <= s.len(),
    ensures
        dexprs_view(s, n).len() == n,
        forall|i: int| 0 <= i < n ==> #[trigger] dexprs_view(s, n)[i] == dexpr_view(s[i]),
    decreases n,
{
    if n > 0 {
        lemma_dexprs_view(s, (n - 1) as nat);
    }
}

/// Every `import()` in the expression has an argument.
pub open spec fn imports_have_args(e: DExprView) -> bool
    decreases e, 0nat,
{
    match e {
        DExprView::Import { args } => args.len() > 0 && all_have_args(args, args.len()),
        DExprView::Str(_) => true,
        DExprView::Required { specifier, .. } => imports_have_args(*specifier),
        DExprView::Node { children, .. } => all_have_args(children, children.len()),
    }
}

pub open spec fn all_have_args(s: Seq<DExprView>, n: nat) -> bool
    decreases s, n,
{
    if n == 0 || n > s.len() {
        true
    } else {
        all_have_args(s, (n - 1) as nat) && imports_have_args(s[n - 1])
    }
}

/// The argument is a string literal, and the only one.
pub open spec fn is_string_lit(args: Seq<DExprView>) -> bool {
    args.len() == 1 && args[0] is Str
}

/// The expression after the transform: each `import()` is replaced, and
/// the sub-expressions of the result are transformed in turn.
pub open spec fn spec_dyn_import(interop: bool, pure: bool, e: DExprView) -> DExprView
    decreases e, 0nat,
{
    match e {
        DExprView::Import { args } => if is_string_lit(args) {
            DExprView::Required { specifier: Box::new(args[0]), literal: true, interop, pure: interop && pure }
        } else if args.len() > 0 {
            DExprView::Required {
                specifier: Box::new(spec_dyn_import(interop, pure, args[0])),
                literal: false,
                interop,
                pure: interop && pure,
            }
        } else {
            e
        },
        DExprView::Str(_) => e,
        DExprView::Required { specifier, literal, interop: i, pure: p } => DExprView::Required {
            specifier: Box::new(spec_dyn_import(interop, pure, *specifier)),
            literal,
            interop: i,
            pure: p,
        },
        DExprView::Node { kind, children } => DExprView::Node { kind, children: spec_dyn_imports(interop, pure, children, children.len()) },
    }
}

/// The first `n` expressions, each transformed.
pub open spec fn spec_dyn_imports(interop: bool, pure: bool, s: Seq<DExprView>, n: nat) -> Seq<DExprView>
    decreases s, n,
{
    if n == 0 || n > s.len() {
        Seq::empty()
    } else {
        spec_dyn_imports(interop, pure, s, (n - 1) as nat).push(spec_dyn_import(interop, pure, s[n - 1]))
    }
}

proof fn lemma_all_have_args(s: Seq<DExprView>, n: nat, i: int)
    requires
        n <= s.len(),
        all_have_args(s, n),
        0 <= i < n,
    ensures
        imports_have_args(s[i]),
    decreases n,
{
    if i < n - 1 {
        lemma_all_have_args(s, (n - 1) as nat, i);
    }
}

proof fn lemma_spec_dyn_imports_len(interop: bool, pure: bool, s: Seq<DExprView>, n: nat)
    requires
        n <= s.len(),
    ensures
        spec_dyn_imports(interop, pure, s, n).len() == n,
    decreases n,
{
    if n > 0 {
        lemma_spec_dyn_imports_len(interop, pure, s, (n - 1) as nat);
    }
}

/// Whether the arguments are one string literal.
fn string_lit(args: &Vec<DExpr>) -> (r: bool)
    ensures
        r == is_string_lit(dexprs_view(args@, args@.len())),
{
    proof {
        lemma_dexprs_view(args@, args@.len());
    }
    if args.len() != 1 {
        return false;
    }
    match &args[0] {
        DExpr::Str(_) => true,
        _ => false,
    }
}

/// The transform; `comments` tells whether the module keeps comments, so
/// that the interop call can be marked pure.
pub struct DynImportNode {
    pub interop: bool,
    pub comments: bool,
}

/// The transform with the configured interop.
pub fn dyn_import_node(config: DynImportNodeConfig, comments: bool) -> (r: DynImportNode)
    ensures
        r.interop == config.interop,
        r.comments == comments,
{
    DynImportNode { interop: config.interop, comments }
}

impl DynImportNode {
    fn transform(&self, e: DExpr) -> (r: DExpr)
        requires
            imports_have_args(e@),
        ensures
            r@ == spec_dyn_import(self.interop, self.comments, e@),
        decreases e,
    {
        match e {
            DExpr::Import { args } => {
                let ghost av = dexprs_view(args@, args@.len());
                proof {
                    lemma_dexprs_view(args@, args@.len());
                }
                let literal = string_lit(&args);
                let ghost ch = args;
                let mut args = args;
                let a0 = args.remove(0);
                assert(a0 == ch[0]);
                assert(a0@ == av[0]);
                if literal {
                    DExpr::Required { specifier: Box::new(a0), literal: true, interop: self.interop, pure: self.interop && self.comments }
                } else {
                    proof {
                        lemma_all_have_args(av, av.len(), 0);
                        assert(decreases_to!(ch => ch[0]));
                        assert(decreases_to!(e => e->args));
                    }
                    let s = self.transform(a0);
                    DExpr::Required { specifier: Box::new(s), literal: false, interop: self.interop, pure: self.interop && self.comments }
                }
            },
            DExpr::Str(s) => DExpr::Str(s),
            DExpr::Required { specifier, literal, interop, pure } => {
                let s = self.transform(*specifier);
                DExpr::Required { specifier: Box::new(s), literal, interop, pure }
            },
            DExpr::Node { kind, children } => {
                let ghost ch = children;
                let ghost orig = children@;
                let ghost cv = dexprs_view(orig, orig.len());
                proof {
                    lemma_dexprs_view(orig, orig.len());
                    lemma_spec_dyn_imports_len(self.interop, self.comments, cv, cv.len());
                }
                let n = children.len();
                let mut rest = crate::ast::reversed(children);
                let mut out: Vec<DExpr> = Vec::new();
                let mut k: usize = 0;
                while k < n
                    invariant
                        n == orig.len(),
                        orig == ch@,
                        e == (DExpr::Node { kind, children: ch }),
                        cv == dexprs_view(orig, orig.len()),
                        cv.len() == n,
                        all_have_args(cv, cv.len()),
                        forall|i: int| 0 <= i < n ==> #[trigger] cv[i] == dexpr_view(orig[i]),
                        k <= n,
                        rest@ == Seq::new((n - k) as nat, |t: int| orig[n - 1 - t]),
                        out@.len() == k,
                        forall|i: int| 0 <= i < k ==> #[trigger] out@[i]@ == spec_dyn_import(self.interop, self.comments, cv[i]),
                    decreases n - k,
                {
                    let x = rest.pop().unwrap();
                    assert(x == orig[k as int]);
                    assert(rest@ =~= Seq::new((n - k - 1) as nat, |t: int| orig[n - 1 - t]));
                    proof {
                        lemma_all_have_args(cv, cv.len(), k as int);
                        assert(decreases_to!(ch => ch[k as int]));
                        assert(decreases_to!(e => e->children));
                    }
                    let y = self.transform(x);
                    out.push(y);
                    k = k + 1;
                }
                let ghost outv = dexprs_view(out@, out@.len());
                proof {
                    lemma_dexprs_view(out@, out@.len());
                    assert forall|i: int| 0 <= i < n implies #[trigger] outv[i] == spec_dyn_import(self.interop, self.comments, cv[i]) by {
                        assert(outv[i] == dexpr_view(out@[i]));
                        assert(out@[i]@ == spec_dyn_import(self.interop, self.comments, cv[i]));
                    }
                    lemma_spec_dyn_imports_eq(self.interop, self.comments, cv, outv, n as nat);
                }
                DExpr::Node { kind, children: out }
            },
        }
    }

    /// Replaces each `import()` in the expression, its sub-expressions
    /// included.
    pub fn visit_mut_expr(&self, expr: &mut DExpr)
        requires
            imports_have_args(old(expr)@),
        ensures
            final(expr)@ == spec_dyn_import(self.interop, self.comments, old(expr)@),
    {
        let mut e = DExpr::Str(String::new());
        std::mem::swap(&mut e, expr);
        *expr = self.transform(e);
    }
}

proof fn lemma_spec_dyn_imports_eq(interop: bool, pure: bool, s: Seq<DExprView>, t: Seq<DExprView>, n: nat)
    requires
        n <= s.len(),
        n == t.len(),
        forall|i: int| 0 <= i < n ==> #[trigger] t[i] == spec_dyn_import(interop, pure, s[i]),
    ensures
        spec_dyn_imports(interop, pure, s, n) == t,
    decreases n,
{
    if n > 0 {
        lemma_spec_dyn_imports_eq(interop, pure, s, t.drop_last(), (n - 1) as nat);
        assert(spec_dyn_imports(interop, pure, s, n) =~= t);
    } else {
        assert(t =~= Seq::<DExprView>::empty());
    }
}


/// Some `import()` is left in the expression.
pub open spec fn has_import(e: DExprView) -> bool
    decreases e, 0nat,
{
    match e {
        DExprView::Import { .. } => true,
        DExprView::Str(_) => false,
        DExprView::Required { specifier, .. } => has_import(*specifier),
        DExprView::Node { children, .. } => any_has_import(children, children.len()),
    }
}

pub open spec fn any_has_import(s: Seq<DExprView>, n: nat) -> bool
    decreases s, n,
{
    if n == 0 || n > s.len() {
        false
    } else {
        any_has_import(s, (n - 1) as nat) || has_import(s[n - 1])
    }
}

/// Every `import()` is replaced: none is left after the transform.
pub proof fn law_all_imports_replaced(interop: bool, pure: bool, e: DExprView)
    requires
        imports_have_args(e),
    ensures
        !has_import(spec_dyn_import(interop, pure, e)),
    decreases e, 0nat,
{
    match e {
        DExprView::Import { args } => {
            if !is_string_lit(args) {
                lemma_all_have_args(args, args.len(), 0);
                law_all_imports_replaced(interop, pure, args[0]);
            } else {
                assert(!has_import(args[0]));
            }
        },
        DExprView::Str(_) => {},
        DExprView::Required { specifier, .. } => {
            law_all_imports_replaced(interop, pure, *specifier);
        },
        DExprView::Node { children, .. } => {
            lemma_none_left(interop, pure, children, children.len());
            lemma_spec_dyn_imports_len(interop, pure, children, children.len());
        },
    }
}

proof fn lemma_none_left(interop: bool, pure: bool, s: Seq<DExprView>, n: nat)
    requires
        n <= s.len(),
        all_have_args(s, s.len()),
    ensures
        !any_has_import(spec_dyn_imports(interop, pure, s, n), n),
    decreases s, n,
{
    if n > 0 {
        lemma_none_left(interop, pure, s, (n - 1) as nat);
        lemma_all_have_args(s, s.len(), n - 1);
        law_all_imports_replaced(interop, pure, s[n - 1]);
        lemma_spec_dyn_imports_len(interop, pure, s, n);
        lemma_spec_dyn_imports_len(interop, pure, s, (n - 1) as nat);
        let prev = spec_dyn_imports(interop, pure, s, (n - 1) as nat);
        let cur = spec_dyn_imports(interop, pure, s, n);
        assert(cur == prev.push(spec_dyn_import(interop, pure, s[n - 1])));
        lemma_any_has_import_prefix(prev, cur, (n - 1) as nat);
    }
}

proof fn lemma_any_has_import_prefix(a: Seq<DExprView>, b: Seq<DExprView>, n: nat)
    requires
        n <= a.len(),
        n <= b.len(),
        forall|i: int| 0 <= i < n ==> #[trigger] a[i] == b[i],
    ensures
        any_has_import(a, n) == any_has_import(b, n),
    decreases n,
{
    if n > 0 {
        lemma_any_has_import_prefix(a, b, (n - 1) as nat);
    }
}


/// An expression with no `import()` in it is left as it is.
pub proof fn law_import_free_unchanged(interop: bool, pure: bool, e: DExprView)
    requires
        !has_import(e),
    ensures
        spec_dyn_import(interop, pure, e) == e,
    decreases e, 0nat,
{
    match e {
        DExprView::Import { .. } => {},
        DExprView::Str(_) => {},
        DExprView::Required { specifier, .. } => {
            law_import_free_unchanged(interop, pure, *specifier);
        },
        DExprView::Node { children, .. } => {
            lemma_import_free_prefix(interop, pure, children, children.len());
            assert(children.take(children.len() as int) =~= children);
        },
    }
}

proof fn lemma_import_free_prefix(interop: bool, pure: bool, s: Seq<DExprView>, n: nat)
    requires
        n <= s.len(),
        !any_has_import(s, n),
    ensures
        spec_dyn_imports(interop, pure, s, n) == s.take(n as int),
    decreases s, n,
{
    if n > 0 {
        lemma_import_free_prefix(interop, pure, s, (n - 1) as nat);
        law_import_free_unchanged(interop, pure, s[n - 1]);
        assert(s.take(n as int) =~= s.take(n - 1).push(s[n - 1]));
    } else {
        assert(s.take(0) =~= Seq::<DExprView>::empty());
    }
}

/// The transform is idempotent: running it on its own output changes
/// nothing, since no `import()` is left.
pub proof fn law_dyn_import_idempotent(interop: bool, pure: bool, e: DExprView)
    requires
        imports_have_args(e),
    ensures
        spec_dyn_import(interop, pure, spec_dyn_import(interop, pure, e)) == spec_dyn_import(interop, pure, e),
{
    law_all_imports_replaced(interop, pure, e);
    law_import_free_unchanged(interop, pure, spec_dyn_import(interop, pure, e));
}

} // verus!
