//! Drops the `Object.defineProperty(exports, "__esModule", ...)` mark that
//! the CommonJS output of an ES module carries.

use vstd::prelude::*;
use crate::text::str_eq;

verus! {

/// What a call statement calls.
pub enum MarkCallee {
    /// `<obj>.<prop>(...)`, with the object and property names when they
    /// are identifiers.
    Member { obj: Option<String>, prop: Option<String> },
    Other(u64),
}

/// A top-level item of a module.
pub enum MarkItem {
    /// An expression statement that is a call.
    CallStmt { callee: MarkCallee },
    Other(u64),
}

/// `Object.defineProperty(...)` as a statement.
pub open spec fn spec_is_es_module_mark(item: MarkItem) -> bool {
    match item {
        MarkItem::CallStmt { callee } => match callee {
            MarkCallee::Member { obj: Some(o), prop: Some(p) } => o@ == "Object"@ && p@ == "defineProperty"@,
            _ => false,
        },
        MarkItem::Other(_) => false,
    }
}

pub fn is_es_module_mark(item: &MarkItem) -> (r: bool)
    ensures
        r == spec_is_es_module_mark(*item),
{
    match item {
        MarkItem::CallStmt { callee } => match callee {
            MarkCallee::Member { obj: Some(o), prop: Some(p) } => str_eq(o.as_str(), "Object") && str_eq(p.as_str(), "defineProperty"),
            _ => false,
        },
        MarkItem::Other(_) => false,
    }
}

/// The position of the last mark among the first `n` items.
pub open spec fn last_mark(items: Seq<MarkItem>, n: int) -> Option<int>
    decreases n,
{
    if n <= 0 {
        None
    } else if spec_is_es_module_mark(items[n - 1]) {
        Some(n - 1)
    } else {
        last_mark(items, n - 1)
    }
}

pub struct RemoveEsModuleMark {}

pub fn remove_es_module_mark() -> (r: RemoveEsModuleMark) {
    RemoveEsModuleMark {}
}

impl RemoveEsModuleMark {
    /// Removes the last mark of the module, if there is one.
    pub fn visit_mut_module(&self, body: &mut Vec<MarkItem>)
        ensures
            final(body)@ == match last_mark(old(body)@, old(body)@.len() as int) {
                Some(i) => old(body)@.remove(i),
                None => old(body)@,
            },
    {
        let mut rm_index: Option<usize> = None;
        let mut idx: usize = 0;
        while idx < body.len()
            invariant
                idx <= body@.len(),
                body@ == old(body)@,
                match rm_index {
                    Some(i) => last_mark(body@, idx as int) == Some(i as int),
                    None => last_mark(body@, idx as int) is None,
                },
            decreases body@.len() - idx,
        {
            if is_es_module_mark(&body[idx]) {
                rm_index = Some(idx);
            }
            idx = idx + 1;
        }
        match rm_index {
            Some(i) => {
                proof {
                    lemma_last_mark_bound(body@, body@.len() as int);
                }
                body.remove(i);
            },
            None => {},
        }
    }
}

proof fn lemma_last_mark_bound(items: Seq<MarkItem>, n: int)
    ensures
        match last_mark(items, n) {
            Some(i) => 0 <= i < n && spec_is_es_module_mark(items[i]),
            None => true,
        },
    decreases n,
{
    if n > 0 {
        lemma_last_mark_bound(items, n - 1);
    }
}


/// Only `Object.defineProperty(...)` is a mark: the callee is a member
/// whose object is the identifier `Object` and whose property is
/// `defineProperty`.
pub proof fn law_mark_is_object_define_property(item: MarkItem)
    ensures
        spec_is_es_module_mark(item) ==> (item matches MarkItem::CallStmt { callee: MarkCallee::Member { obj: Some(o), prop: Some(p) } }
            && o@ == "Object"@ && p@ == "defineProperty"@),
{
}

proof fn lemma_no_mark(items: Seq<MarkItem>, n: int)
    requires
        0 <= n <= items.len(),
        forall|i: int| 0 <= i < items.len() ==> !spec_is_es_module_mark(#[trigger] items[i]),
    ensures
        last_mark(items, n) is None,
    decreases n,
{
    if n > 0 {
        lemma_no_mark(items, n - 1);
    }
}

/// A module with no `Object.defineProperty(...)` statement (calls of
/// `defineProperty` on any other object included) keeps every item.
pub proof fn law_module_without_object_define_property_unchanged(items: Seq<MarkItem>)
    requires
        forall|i: int| 0 <= i < items.len() ==> !(#[trigger] items[i] matches MarkItem::CallStmt {
            callee: MarkCallee::Member { obj: Some(o), prop: Some(p) } } && o@ == "Object"@ && p@ == "defineProperty"@),
    ensures
        last_mark(items, items.len() as int) is None,
{
    assert forall|i: int| 0 <= i < items.len() implies !spec_is_es_module_mark(#[trigger] items[i]) by {
        law_mark_is_object_define_property(items[i]);
    }
    lemma_no_mark(items, items.len() as int);
}

} // verus!
