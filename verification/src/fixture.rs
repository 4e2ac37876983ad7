//! Fixture tests: the expected output files of a fixture, and how an
//! output is compared with them (line by line, trimmed, blank lines and
//! lone semicolons left out).

use vstd::prelude::*;
use crate::pattern::{any_is_match, any_match, Pattern};
use crate::text::{push_char, push_str};

verus! {

/// One expected output of a fixture: its file name, its text and the
/// options (as JSON) it was produced with, when they differ from the
/// fixture's.
pub struct ExpectedInfo {
    pub name: String,
    pub content: String,
    pub config: Option<String>,
}

impl ExpectedInfo {
    pub fn new(name: String, content: String, config: Option<String>) -> (r: ExpectedInfo)
        ensures
            r.name == name,
            r.content == content,
            r.config == config,
    {
        ExpectedInfo { name, content, config }
    }
}

/// The hooks that read fixtures in the default way.
pub struct BaseFixtureHook;

/// Whether a code point has the Unicode `White_Space` property, which is
/// what std's `char::is_whitespace` tests: tab to carriage return, space,
/// next line, no-break space, ogham space mark, the spaces from en quad to
/// hair space, the line and paragraph separators, narrow no-break space,
/// medium mathematical space and ideographic space.
pub open spec fn spec_is_whitespace(c: char) -> bool {
    let n = c as u32;
    (0x09 <= n <= 0x0D) || n == 0x20 || n == 0x85 || n == 0xA0 || n == 0x1680 || (0x2000 <= n <= 0x200A)
        || n == 0x2028 || n == 0x2029 || n == 0x202F || n == 0x205F || n == 0x3000
}

fn is_whitespace(c: char) -> (r: bool)
    ensures
        r == spec_is_whitespace(c),
{
    let n = c as u32;
    (0x09 <= n && n <= 0x0D) || n == 0x20 || n == 0x85 || n == 0xA0 || n == 0x1680 || (0x2000 <= n && n <= 0x200A)
        || n == 0x2028 || n == 0x2029 || n == 0x202F || n == 0x205F || n == 0x3000
}

/// The number of white space characters `s` starts with.
pub open spec fn leading_ws(s: Seq<char>) -> nat
    decreases s.len(),
{
    if s.len() > 0 && spec_is_whitespace(s[0]) { 1 + leading_ws(s.drop_first()) } else { 0 }
}

/// The number of white space characters `s` ends with.
pub open spec fn trailing_ws(s: Seq<char>) -> nat
    decreases s.len(),
{
    if s.len() > 0 && spec_is_whitespace(s.last()) { 1 + trailing_ws(s.drop_last()) } else { 0 }
}

/// `s` without leading and trailing white space (std's `str::trim`).
pub open spec fn spec_trim(s: Seq<char>) -> Seq<char> {
    let t = s.skip(leading_ws(s) as int);
    t.take(t.len() - trailing_ws(t))
}

proof fn lemma_leading_ws(s: Seq<char>, i: int)
    requires
        0 <= i <= s.len(),
        forall|j: int| 0 <= j < i ==> spec_is_whitespace(#[trigger] s[j]),
        i == s.len() || !spec_is_whitespace(s[i]),
    ensures
        leading_ws(s) == i,
    decreases i,
{
    if i > 0 {
        lemma_leading_ws(s.drop_first(), i - 1);
    }
}

proof fn lemma_trailing_ws(s: Seq<char>, i: int)
    requires
        0 <= i <= s.len(),
        forall|j: int| s.len() - i <= j < s.len() ==> spec_is_whitespace(#[trigger] s[j]),
        i == s.len() || !spec_is_whitespace(s[s.len() - 1 - i]),
    ensures
        trailing_ws(s) == i,
    decreases i,
{
    if i > 0 {
        assert forall|j: int| s.drop_last().len() - (i - 1) <= j < s.drop_last().len() implies spec_is_whitespace(#[trigger] s.drop_last()[j]) by {
            assert(s.drop_last()[j] == s[j]);
        }
        lemma_trailing_ws(s.drop_last(), i - 1);
    }
}

proof fn lemma_trailing_le(s: Seq<char>)
    ensures
        trailing_ws(s) <= s.len(),
    decreases s.len(),
{
    if s.len() > 0 && spec_is_whitespace(s.last()) {
        lemma_trailing_le(s.drop_last());
    }
}

/// The characters of `s` from `from` up to `to`.
fn push_range(out: &mut String, s: &Vec<char>, from: usize, to: usize)
    requires
        from <= to <= s@.len(),
    ensures
        final(out)@ == old(out)@ + s@.subrange(from as int, to as int),
{
    let mut i = from;
    while i < to
        invariant
            from <= i <= to,
            to <= s@.len(),
            out@ == old(out)@ + s@.subrange(from as int, i as int),
        decreases to - i,
    {
        push_char(out, s[i]);
        assert(s@.subrange(from as int, i + 1) =~= s@.subrange(from as int, i as int).push(s@[i as int]));
        i = i + 1;
    }
}

/// Appends `s` trimmed.
fn push_trimmed(out: &mut String, s: &Vec<char>)
    ensures
        final(out)@ == old(out)@ + spec_trim(s@),
{
    let n = s.len();
    let mut a: usize = 0;
    while a < n && is_whitespace(s[a])
        invariant
            a <= n,
            n == s@.len(),
            forall|j: int| 0 <= j < a ==> spec_is_whitespace(#[trigger] s@[j]),
        decreases n - a,
    {
        a = a + 1;
    }
    proof {
        lemma_leading_ws(s@, a as int);
    }
    let ghost t = s@.skip(a as int);
    let mut b: usize = n;
    while b > a && is_whitespace(s[b - 1])
        invariant
            a <= b <= n,
            n == s@.len(),
            t == s@.skip(a as int),
            forall|j: int| b <= j < n ==> spec_is_whitespace(#[trigger] s@[j]),
        decreases b,
    {
        b = b - 1;
    }
    proof {
        assert forall|j: int| t.len() - (n - b) <= j < t.len() implies spec_is_whitespace(#[trigger] t[j]) by {
            assert(t[j] == s@[a + j]);
        }
        if b > a {
            assert(t[t.len() - 1 - (n - b)] == s@[b - 1]);
        }
        lemma_trailing_ws(t, (n - b) as int);
    }
    push_range(out, s, a, b);
    assert(s@.subrange(a as int, b as int) =~= t.take(t.len() - trailing_ws(t)));
}

/// The lines of `s`, split at each `\n` (std's `str::split('\n')`).
pub open spec fn spec_lines(s: Seq<char>) -> Seq<Seq<char>>
    decreases s.len(),
{
    if s.len() == 0 {
        seq![Seq::empty()]
    } else {
        let prev = spec_lines(s.drop_last());
        if s.last() == '\n' {
            prev.push(Seq::empty())
        } else {
            prev.update(prev.len() - 1, prev.last().push(s.last()))
        }
    }
}

/// A trimmed line that is kept: not empty and not a lone `;`.
pub open spec fn kept(t: Seq<char>) -> bool {
    t.len() > 0 && t != seq![';']
}

/// The kept lines, trimmed, each followed by `\n`.
pub open spec fn normalize_lines(lines: Seq<Seq<char>>, n: int) -> Seq<char>
    decreases n,
{
    if n <= 0 {
        Seq::empty()
    } else {
        let t = spec_trim(lines[n - 1]);
        normalize_lines(lines, n - 1) + if kept(t) { t.push('\n') } else { Seq::empty() }
    }
}

/// The code as fixtures compare it.
pub open spec fn spec_normalize_code(s: Seq<char>) -> Seq<char> {
    normalize_lines(spec_lines(s), spec_lines(s).len() as int)
}

proof fn lemma_lines_nonempty(s: Seq<char>)
    ensures
        spec_lines(s).len() > 0,
    decreases s.len(),
{
    if s.len() > 0 {
        lemma_lines_nonempty(s.drop_last());
    }
}

fn str_chars(s: &str) -> (r: Vec<char>)
    ensures
        r@ == s@,
{
    let n = s.unicode_len();
    let mut v: Vec<char> = Vec::new();
    let mut i: usize = 0;
    while i < n
        invariant
            i <= n,
            n == s@.len(),
            v@ == s@.take(i as int),
        decreases n - i,
    {
        v.push(s.get_char(i));
        assert(v@ =~= s@.take(i + 1));
        i = i + 1;
    }
    assert(s@.take(n as int) =~= s@);
    v
}

/// Whether a trimmed line is kept: not empty and not a lone `;`.
fn is_kept(t: &String) -> (r: bool)
    ensures
        r == kept(t@),
{
    let r = t.unicode_len() > 0 && !(t.unicode_len() == 1 && t.get_char(0) == ';');
    proof {
        if t@.len() == 1 {
            assert(t@[0] == ';' ==> t@ =~= seq![';']);
            assert(t@ =~= seq![';'] ==> t@[0] == ';');
        }
    }
    r
}

/// The code with each line trimmed, blank lines and lone `;` lines left
/// out, and every kept line ended by `\n`.
pub fn normalize_code(code: &str) -> (r: String)
    ensures
        r@ == spec_normalize_code(code@),
{
    let chars = str_chars(code);
    let n = chars.len();
    let mut out = String::new();
    let mut line: Vec<char> = Vec::new();
    let mut i: usize = 0;
    proof {
        lemma_lines_nonempty(code@);
    }
    assert(code@.take(0) =~= Seq::<char>::empty());
    while i < n
        invariant
            i <= n,
            n == code@.len(),
            chars@ == code@,
            spec_lines(code@.take(i as int)).len() > 0,
            line@ == spec_lines(code@.take(i as int)).last(),
            out@ == normalize_lines(spec_lines(code@.take(i as int)), spec_lines(code@.take(i as int)).len() - 1),
        decreases n - i,
    {
        let c = chars[i];
        let ghost pre = code@.take(i as int);
        assert(code@.take(i + 1).drop_last() =~= pre);
        assert(code@.take(i + 1).last() == c);
        proof {
            lemma_lines_nonempty(pre);
        }
        if c == '\n' {
            let ghost before = out@;
            let mut t = String::new();
            push_trimmed(&mut t, &line);
            let keep = is_kept(&t);
            if keep {
                push_str(&mut out, t.as_str());
                push_char(&mut out, '\n');
            }
            proof {
                let ls = spec_lines(pre);
                let ls2 = spec_lines(code@.take(i + 1));
                assert(ls2 == ls.push(Seq::<char>::empty()));
                assert(ls2[ls.len() - 1] == ls.last());
                assert(ls2.len() - 1 == ls.len());
                lemma_normalize_prefix(ls, ls2, ls.len() - 1);
                assert(out@ =~= normalize_lines(ls2, ls2.len() - 1));
            }
            line = Vec::new();
        } else {
            line.push(c);
            proof {
                let ls = spec_lines(pre);
                let ls2 = spec_lines(code@.take(i + 1));
                assert(ls2 == ls.update(ls.len() - 1, ls.last().push(c)));
                lemma_normalize_prefix(ls, ls2, ls.len() - 1);
            }
        }
        i = i + 1;
    }
    assert(code@.take(n as int) =~= code@);
    let mut t = String::new();
    push_trimmed(&mut t, &line);
    let keep = is_kept(&t);
    if keep {
        push_str(&mut out, t.as_str());
        push_char(&mut out, '\n');
    }
    proof {
        let ls = spec_lines(code@);
        assert(out@ =~= normalize_lines(ls, ls.len() as int));
    }
    out
}

/// Two line lists with the same first `n` lines normalize alike there.
proof fn lemma_normalize_prefix(a: Seq<Seq<char>>, b: Seq<Seq<char>>, n: int)
    requires
        0 <= n <= a.len(),
        n <= b.len(),
        forall|i: int| 0 <= i < n ==> #[trigger] a[i] == b[i],
    ensures
        normalize_lines(a, n) == normalize_lines(b, n),
    decreases n,
{
    if n > 0 {
        lemma_normalize_prefix(a, b, n - 1);
    }
}

/// An output matches the expected one when both normalize to the same
/// text, up to surrounding white space.
pub open spec fn spec_outputs_match(expected: Seq<char>, actual: Seq<char>) -> bool {
    spec_trim(spec_normalize_code(actual)) == spec_trim(spec_normalize_code(expected))
}

pub fn outputs_match(expected: &str, actual: &str) -> (r: bool)
    ensures
        r == spec_outputs_match(expected@, actual@),
{
    let e = normalize_code(expected);
    let a = normalize_code(actual);
    let ec = str_chars(e.as_str());
    let ac = str_chars(a.as_str());
    let mut et = String::new();
    push_trimmed(&mut et, &ec);
    let mut at = String::new();
    push_trimmed(&mut at, &ac);
    crate::text::str_eq(at.as_str(), et.as_str())
}

/// A fixture directory that one of the ignore patterns matches is skipped.
pub fn is_ignored(ignore: &Vec<Pattern>, path: &str) -> (r: bool)
    ensures
        r == any_match(ignore@, path@),
{
    any_is_match(ignore, path)
}

} // verus!
