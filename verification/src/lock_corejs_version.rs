//! Pins `core-js`: every import source, `import()` and `require()` of a
//! path that mentions `core-js` is pointed at the configured copy.

use vstd::prelude::*;
use crate::ast::ImportDecl;
use crate::text::{contains, occurs_at, replace_all, seq_contains, spec_replace, str_eq, to_owned_string};

verus! {

/// The specifier with every `core-js` replaced by `corejs_path`.
pub open spec fn spec_change_specifier(input: Seq<char>, corejs_path: Seq<char>) -> Seq<char> {
    spec_replace(input, "core-js"@, corejs_path)
}

/// Replaces every `core-js` in the specifier by `corejs_path`.
pub fn change_specifier(input: &str, corejs_path: &str) -> (r: String)
    ensures
        r@ == spec_change_specifier(input@, corejs_path@),
{
    proof {
        reveal_strlit("core-js");
    }
    replace_all(input, "core-js", corejs_path)
}

/// A specifier that mentions `core-js` is pinned; others are kept.
pub open spec fn spec_lock(spec: Seq<char>, corejs_path: Seq<char>) -> Seq<char> {
    if seq_contains(spec, "core-js"@) { spec_change_specifier(spec, corejs_path) } else { spec }
}

fn lock(spec: &str, corejs_path: &str) -> (r: String)
    ensures
        r@ == spec_lock(spec@, corejs_path@),
{
    if contains(spec, "core-js") {
        change_specifier(spec, corejs_path)
    } else {
        to_owned_string(spec)
    }
}

/// What is called.
pub enum CjCallee {
    /// `import(...)`.
    Import,
    /// An identifier, by its name.
    Ident(String),
    Other(u64),
}

/// An argument: a string literal or something else.
pub enum CjArg {
    Str(String),
    Other(u64),
}

/// A call expression.
pub struct CjCall {
    pub callee: CjCallee,
    pub args: Vec<CjArg>,
}

/// `import()` and `require()` read their first argument.
pub open spec fn reads_first_arg(callee: CjCallee) -> bool {
    match callee {
        CjCallee::Import => true,
        CjCallee::Ident(name) => name@ == "require"@,
        CjCallee::Other(_) => false,
    }
}

pub open spec fn arg_view(a: CjArg) -> Option<Seq<char>> {
    match a {
        CjArg::Str(s) => Some(s@),
        CjArg::Other(_) => None,
    }
}

pub struct LockCoreJsVersion {
    pub corejs_path: String,
}

pub fn lock_corejs_version(corejs_path: String) -> (r: LockCoreJsVersion)
    ensures
        r.corejs_path == corejs_path,
{
    LockCoreJsVersion { corejs_path }
}

impl LockCoreJsVersion {
    /// Pins the source of an import declaration.
    pub fn visit_mut_import_decl(&self, decl: &mut ImportDecl)
        ensures
            final(decl)@.src == spec_lock(old(decl)@.src, self.corejs_path@),
            final(decl)@.specifiers == old(decl)@.specifiers,
            final(decl)@.type_only == old(decl)@.type_only,
    {
        if contains(decl.src.as_str(), "core-js") {
            decl.src = change_specifier(decl.src.as_str(), self.corejs_path.as_str());
        }
    }

    /// Pins the string literal that `import()` or `require()` takes first.
    pub fn visit_mut_call_expr(&self, call_expr: &mut CjCall)
        requires
            reads_first_arg(old(call_expr).callee) ==> old(call_expr).args@.len() > 0,
        ensures
            final(call_expr).callee == old(call_expr).callee,
            final(call_expr).args@.len() == old(call_expr).args@.len(),
            forall|i: int| 1 <= i < old(call_expr).args@.len() ==> #[trigger] final(call_expr).args@[i] == old(call_expr).args@[i],
            old(call_expr).args@.len() > 0 ==> arg_view(final(call_expr).args@[0]) == if reads_first_arg(old(call_expr).callee) {
                match arg_view(old(call_expr).args@[0]) {
                    Some(s) => Some(spec_lock(s, self.corejs_path@)),
                    None => None,
                }
            } else {
                arg_view(old(call_expr).args@[0])
            },
    {
        proof {
            reveal_strlit("require");
        }
        let reads = match &call_expr.callee {
            CjCallee::Import => true,
            CjCallee::Ident(name) => str_eq(name.as_str(), "require"),
            CjCallee::Other(_) => false,
        };
        if !reads {
            return;
        }
        let new_arg = match &call_expr.args[0] {
            CjArg::Str(s) => Some(lock(s.as_str(), self.corejs_path.as_str())),
            CjArg::Other(_) => None,
        };
        match new_arg {
            Some(s) => {
                call_expr.args.set(0, CjArg::Str(s));
            },
            None => {},
        }
    }
}


proof fn lemma_replace_by_itself(s: Seq<char>, pat: Seq<char>)
    ensures
        spec_replace(s, pat, pat) == s,
    decreases s.len(),
{
    if pat.len() == 0 || s.len() < pat.len() {
    } else if s.subrange(0, pat.len() as int) == pat {
        lemma_replace_by_itself(s.skip(pat.len() as int), pat);
        assert(pat + s.skip(pat.len() as int) =~= s);
    } else {
        lemma_replace_by_itself(s.skip(1), pat);
        assert(seq![s[0]] + s.skip(1) =~= s);
    }
}

proof fn lemma_replace_absent(s: Seq<char>, pat: Seq<char>, rep: Seq<char>)
    requires
        !seq_contains(s, pat),
    ensures
        spec_replace(s, pat, rep) == s,
    decreases s.len(),
{
    if pat.len() == 0 || s.len() < pat.len() {
    } else {
        assert(!occurs_at(s, pat, 0));
        assert(!seq_contains(s.skip(1), pat)) by {
            if seq_contains(s.skip(1), pat) {
                let i = choose|i: int| occurs_at(s.skip(1), pat, i);
                assert(s.skip(1).subrange(i, i + pat.len()) =~= s.subrange(i + 1, i + 1 + pat.len()));
                assert(occurs_at(s, pat, i + 1));
            }
        }
        lemma_replace_absent(s.skip(1), pat, rep);
        assert(seq![s[0]] + s.skip(1) =~= s);
    }
}

/// Pinning leaves a specifier as it is when the pinned path is `core-js`
/// itself, and whatever the path when the specifier does not mention
/// `core-js`.
pub proof fn law_change_specifier_identity(input: Seq<char>, corejs_path: Seq<char>)
    ensures
        spec_change_specifier(input, "core-js"@) == input,
        !seq_contains(input, "core-js"@) ==> spec_change_specifier(input, corejs_path) == input,
{
    lemma_replace_by_itself(input, "core-js"@);
    if !seq_contains(input, "core-js"@) {
        lemma_replace_absent(input, "core-js"@, corejs_path);
    }
}

} // verus!
