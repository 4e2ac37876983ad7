//! Regular expressions given in the configuration, compiled once by the
//! regex cache of `swc_cached` and kept together with their source text.

use vstd::prelude::*;

verus! {

#[verifier::external_type_specification]
#[verifier::external_body]
pub struct ExCachedRegex(swc_cached::regex::CachedRegex);

/// Whether `Regex::new` of the `regex` crate accepts `pattern`: its syntax
/// is valid and the compiled program stays within the default size limit.
pub uninterp spec fn spec_regex_valid(pattern: Seq<char>) -> bool;

/// Whether the regex compiled from the text `pattern` matches somewhere in
/// `text` (the `regex` crate's `Regex::is_match`; compiling is
/// deterministic, so the compiled regex is a function of its text).
pub uninterp spec fn spec_regex_is_match(pattern: Seq<char>, text: Seq<char>) -> bool;

/// A compiled regular expression and the text it was compiled from. The
/// fields are private and set together only by `Pattern::new`, so
/// `compiled` is always the regex compiled from `source`.
pub struct Pattern {
    source: String,
    compiled: swc_cached::regex::CachedRegex,
}

/// `swc_cached::regex::CachedRegex::new`: succeeds exactly on the patterns
/// the regex syntax accepts (`spec_regex_valid`); no claim is made about
/// which patterns those are.
#[verifier::external_body]
fn compile(pattern: &str) -> (r: Option<swc_cached::regex::CachedRegex>)
    ensures
        r is Some == spec_regex_valid(pattern@),
{
    swc_cached::regex::CachedRegex::new(pattern).ok()
}

impl Pattern {
    /// The text the pattern was compiled from.
    pub closed spec fn source_view(&self) -> Seq<char> {
        self.source@
    }

    /// Compiles `pattern`; `None` when its syntax is rejected.
    pub fn new(pattern: &str) -> (r: Option<Pattern>)
        ensures
            r is Some == spec_regex_valid(pattern@),
            r matches Some(p) ==> p.source_view() == pattern@,
    {
        match compile(pattern) {
            Some(compiled) => Some(Pattern { source: String::from_str(pattern), compiled }),
            None => None,
        }
    }

    /// `Regex::is_match` (reached through `CachedRegex`'s `Deref`) on the
    /// compiled regex of this pattern, which `new` built from `source`: the
    /// result is `spec_regex_is_match` of the source text.
    #[verifier::external_body]
    fn compiled_is_match(&self, text: &str) -> (r: bool)
        ensures
            r == spec_regex_is_match(self.source@, text@),
    {
        self.compiled.is_match(text)
    }

    /// Whether the pattern matches somewhere in `text`.
    pub fn is_match(&self, text: &str) -> (r: bool)
        ensures
            r == spec_regex_is_match(self.source_view(), text@),
    {
        self.compiled_is_match(text)
    }

    /// The text the pattern was compiled from.
    pub fn as_str(&self) -> (r: &str)
        ensures
            r@ == self.source_view(),
    {
        self.source.as_str()
    }
}

/// Some pattern of `patterns` matches `text`.
pub open spec fn any_match(patterns: Seq<Pattern>, text: Seq<char>) -> bool {
    exists|k: int| 0 <= k < patterns.len() && spec_regex_is_match(patterns[k].source_view(), text)
}

/// Whether some pattern of `patterns` matches `text`.
pub fn any_is_match(patterns: &Vec<Pattern>, text: &str) -> (r: bool)
    ensures
        r == any_match(patterns@, text@),
{
    let mut k: usize = 0;
    while k < patterns.len()
        invariant
            k <= patterns@.len(),
            forall|j: int| 0 <= j < k ==> !spec_regex_is_match(#[trigger] patterns@[j].source_view(), text@),
        decreases patterns@.len() - k,
    {
        if patterns[k].is_match(text) {
            return true;
        }
        k = k + 1;
    }
    false
}

/// Compiles every pattern of `sources`; `None` as soon as one is rejected.
pub fn compile_all(sources: &Vec<String>) -> (r: Option<Vec<Pattern>>)
    ensures
        match r {
            Some(ps) => ps@.len() == sources@.len() && forall|k: int| 0 <= k < sources@.len() ==> #[trigger] ps@[k].source_view() == sources@[k]@,
            None => exists|k: int| 0 <= k < sources@.len() && !spec_regex_valid(#[trigger] sources@[k]@),
        },
{
    let mut out: Vec<Pattern> = Vec::new();
    let mut k: usize = 0;
    while k < sources.len()
        invariant
            k <= sources@.len(),
            out@.len() == k,
            forall|j: int| 0 <= j < k ==> #[trigger] out@[j].source_view() == sources@[j]@,
        decreases sources@.len() - k,
    {
        match Pattern::new(sources[k].as_str()) {
            Some(p) => {
                out.push(p);
            },
            None => {
                return None;
            },
        }
        k = k + 1;
    }
    Some(out)
}

} // verus!
