//! The template expansion driver: repeatedly finds maximal innermost
//! `{{...}}` spans (whose content holds no nested `{{`), hands each span's
//! `|`-separated content to the dispatcher, and splices the replacement back
//! in. One pass rewrites every such span left to right; passes repeat until a
//! fixed point, resolving nesting one layer at a time from the inside out.
//! The number of passes is bounded so a pathological expansion that keeps
//! reintroducing markup cannot loop forever; the driver reports whether the
//! fixed point was reached.

use vstd::prelude::*;

use crate::template::expand_template;
use crate::template::spec_expand_template;
use crate::text::chars_eq;
use crate::text::chars_to_string;
use crate::text::push_chars;
use crate::text::spec_split;
use crate::text::split_char;
use crate::text::str_to_chars;
use crate::text::views;

verus! {

/// The bound on fixed-point passes: on exceeding it the driver returns the
/// last computed string and reports that it did not converge.
pub const MAX_PASSES: usize = 64;

/// The first position at or after `j` where a closing `}}` starts, provided
/// no `{` stands in between; `None` when a `{` or the end of the text comes
/// first. This is what makes matched spans innermost.
pub open spec fn spec_find_close(s: Seq<char>, j: nat) -> Option<nat>
    decreases s.len() - j,
{
    if j + 2 > s.len() {
        None
    } else if s[j as int] == '}' && s[j + 1 as int] == '}' {
        Some(j)
    } else if s[j as int] == '{' {
        None
    } else {
        spec_find_close(s, j + 1)
    }
}

/// The leftmost template span starting at or after `i`: `Some((start, end))`
/// means `{{` stands at `start`, `}}` at `end`, and the content between them
/// holds no `{`.
pub open spec fn spec_find_span(s: Seq<char>, i: nat) -> Option<(nat, nat)>
    decreases s.len() - i,
{
    if i + 4 > s.len() {
        None
    } else if s[i as int] == '{' && s[i + 1 as int] == '{' {
        match spec_find_close(s, i + 2) {
            Some(end) => Some((i, end)),
            None => spec_find_span(s, i + 1),
        }
    } else {
        spec_find_span(s, i + 1)
    }
}

/// What a found closing position means.
pub proof fn lemma_find_close_some(s: Seq<char>, j: nat, end: nat)
    requires
        spec_find_close(s, j) == Some(end),
    ensures
        j <= end,
        end + 2 <= s.len(),
        s[end as int] == '}',
        s[end + 1 as int] == '}',
        forall|k: int| j <= k < end ==> #[trigger] s[k] != '{',
    decreases s.len() - j,
{
    if j + 2 > s.len() {
        assert(false);
    } else if s[j as int] == '}' && s[j + 1 as int] == '}' {
    } else if s[j as int] == '{' {
        assert(false);
    } else {
        lemma_find_close_some(s, j + 1, end);
    }
}

/// What a found span means: well-formed delimiters inside the bounds of `s`,
/// and a content region free of `{`. This is the invariant the driver
/// maintains for the dispatcher: no matched span ever holds a nested `{{`.
pub proof fn lemma_find_span_some(s: Seq<char>, i: nat, start: nat, end: nat)
    requires
        spec_find_span(s, i) == Some((start, end)),
    ensures
        i <= start,
        start + 2 <= end,
        end + 2 <= s.len(),
        s[start as int] == '{',
        s[start + 1 as int] == '{',
        s[end as int] == '}',
        s[end + 1 as int] == '}',
        forall|k: int| start + 2 <= k < end ==> #[trigger] s[k] != '{',
    decreases s.len() - i,
{
    if i + 4 > s.len() {
        assert(false);
    } else if s[i as int] == '{' && s[i + 1 as int] == '{' {
        match spec_find_close(s, i + 2) {
            Some(e) => {
                lemma_find_close_some(s, i + 2, e);
            },
            None => {
                lemma_find_span_some(s, i + 1, start, end);
            },
        }
    } else {
        lemma_find_span_some(s, i + 1, start, end);
    }
}

/// Whether `s` holds an opening `{{` anywhere.
pub open spec fn spec_has_open(s: Seq<char>) -> bool {
    exists|k: int| 0 <= k && k + 1 < s.len() && #[trigger] s[k] == '{' && s[k + 1] == '{'
}

/// A text without `{{` has no template span.
pub proof fn lemma_no_open_no_span(s: Seq<char>, i: nat)
    requires
        !spec_has_open(s),
    ensures
        spec_find_span(s, i) is None,
    decreases s.len() - i,
{
    if i + 4 > s.len() {
    } else if s[i as int] == '{' && s[i + 1 as int] == '{' {
        assert(spec_has_open(s));
    } else {
        lemma_no_open_no_span(s, i + 1);
    }
}

/// One substitution pass over `s`: every innermost span, left to right, is
/// replaced by the dispatcher's expansion of its `|`-split content.
pub open spec fn spec_pass(s: Seq<char>) -> Seq<char>
    decreases s.len(),
{
    match spec_find_span(s, 0) {
        None => s,
        Some((start, end)) => if start + 2 <= end && end + 2 <= s.len() {
            s.subrange(0, start as int) + spec_expand_template(
                spec_split(s.subrange(start + 2 as int, end as int), '|'),
            ) + spec_pass(s.skip(end + 2 as int))
        } else {
            s
        },
    }
}

/// `n` passes over `s`.
pub open spec fn spec_expand_n(s: Seq<char>, n: nat) -> Seq<char>
    decreases n,
{
    if n == 0 {
        s
    } else {
        spec_expand_n(spec_pass(s), (n - 1) as nat)
    }
}

/// Whether some prefix of at most `n` passes beyond the first reaches a text
/// that a further pass leaves unchanged.
pub open spec fn spec_converges(s: Seq<char>, n: nat) -> bool
    decreases n,
{
    if spec_pass(s) == s {
        true
    } else if n == 0 {
        false
    } else {
        spec_converges(spec_pass(s), (n - 1) as nat)
    }
}

/// A fixed point of one pass stays fixed under any number of passes.
pub proof fn lemma_fixed_stays(s: Seq<char>, n: nat)
    requires
        spec_pass(s) == s,
    ensures
        spec_expand_n(s, n) == s,
    decreases n,
{
    if n > 0 {
        lemma_fixed_stays(s, (n - 1) as nat);
    }
}

/// Passes compose: `a + b` passes are `b` passes after `a` passes.
pub proof fn lemma_expand_n_add(s: Seq<char>, a: nat, b: nat)
    ensures
        spec_expand_n(s, a + b) == spec_expand_n(spec_expand_n(s, a), b),
    decreases a,
{
    if a > 0 {
        lemma_expand_n_add(spec_pass(s), (a - 1) as nat, b);
    }
}

/// One more pass is one pass applied to the previous result.
pub proof fn lemma_expand_n_succ(s: Seq<char>, n: nat)
    ensures
        spec_expand_n(s, n + 1) == spec_pass(spec_expand_n(s, n)),
    decreases n,
{
    reveal_with_fuel(spec_expand_n, 2);
    if n > 0 {
        lemma_expand_n_succ(spec_pass(s), (n - 1) as nat);
    }
}

/// If the text after `j` passes is a fixed point, the driver converges
/// within any bound of at least `j`.
pub proof fn lemma_converges_from_witness(s: Seq<char>, j: nat, n: nat)
    requires
        j <= n,
        spec_pass(spec_expand_n(s, j)) == spec_expand_n(s, j),
    ensures
        spec_converges(s, n),
    decreases j,
{
    if spec_pass(s) == s {
    } else {
        if j == 0 {
            assert(false);
        } else {
            lemma_converges_from_witness(spec_pass(s), (j - 1) as nat, (n - 1) as nat);
        }
    }
}

/// If no prefix of at most `n` passes reaches a fixed point, the driver does
/// not converge within `n`.
pub proof fn lemma_not_converges(s: Seq<char>, n: nat)
    requires
        forall|j: nat|
            j <= n ==> spec_pass(#[trigger] spec_expand_n(s, j)) != spec_expand_n(s, j),
    ensures
        !spec_converges(s, n),
    decreases n,
{
    assert(spec_pass(spec_expand_n(s, 0)) != spec_expand_n(s, 0));
    if n > 0 {
        assert forall|j: nat| j <= (n - 1) as nat implies spec_pass(
            #[trigger] spec_expand_n(spec_pass(s), j),
        ) != spec_expand_n(spec_pass(s), j) by {
            assert(spec_expand_n(spec_pass(s), j) == spec_expand_n(s, j + 1));
        }
        lemma_not_converges(spec_pass(s), (n - 1) as nat);
    }
}

/// Find a closing `}}` reachable from `j` without crossing a `{`.
fn find_close(s: &[char], j: usize) -> (r: Option<usize>)
    ensures
        match r {
            Some(end) => spec_find_close(s@, j as nat) == Some(end as nat) && j <= end && end + 2
                <= s@.len(),
            None => spec_find_close(s@, j as nat) is None,
        },
{
    let slen = s.len();
    let mut k = j;
    loop
        invariant
            slen == s@.len(),
            j <= k,
            spec_find_close(s@, j as nat) == spec_find_close(s@, k as nat),
        decreases slen + 2 - k,
    {
        if k >= slen || slen - k < 2 {
            return None;
        }
        let c = *vstd::slice::slice_index_get(s, k);
        if c == '}' && *vstd::slice::slice_index_get(s, k + 1) == '}' {
            return Some(k);
        }
        if c == '{' {
            return None;
        }
        k = k + 1;
    }
}

/// Find the leftmost innermost template span at or after `i`.
fn find_span(s: &[char], i: usize) -> (r: Option<(usize, usize)>)
    ensures
        match r {
            Some(p) => spec_find_span(s@, i as nat) == Some(((p.0 as nat), (p.1 as nat))) && p.0 + 2
                <= p.1 && p.1 + 2 <= s@.len(),
            None => spec_find_span(s@, i as nat) is None,
        },
{
    let slen = s.len();
    let mut k = i;
    loop
        invariant
            slen == s@.len(),
            i <= k,
            spec_find_span(s@, i as nat) == spec_find_span(s@, k as nat),
        decreases slen + 4 - k,
    {
        if k >= slen || slen - k < 4 {
            return None;
        }
        if *vstd::slice::slice_index_get(s, k) == '{' && *vstd::slice::slice_index_get(s, k + 1)
            == '{' {
            match find_close(s, k + 2) {
                Some(end) => {
                    return Some((k, end));
                },
                None => {},
            }
        }
        k = k + 1;
    }
}

/// One substitution pass over a character sequence.
pub fn expand_pass_chars(s: &[char]) -> (r: Vec<char>)
    ensures
        r@ == spec_pass(s@),
    decreases s@.len(),
{
    let slen = s.len();
    match find_span(s, 0) {
        None => vstd::slice::slice_to_vec(s),
        Some((start, end)) => {
            let content = vstd::slice::slice_subrange(s, start + 2, end);
            let parts = split_char(content, '|');
            let rep = expand_template(parts.as_slice());
            let mut out = vstd::slice::slice_to_vec(vstd::slice::slice_subrange(s, 0, start));
            push_chars(&mut out, rep.as_slice());
            let tail = expand_pass_chars(vstd::slice::slice_subrange(s, end + 2, slen));
            push_chars(&mut out, tail.as_slice());
            proof {
                assert(s@.subrange(end + 2 as int, s@.len() as int) =~= s@.skip(end + 2 as int));
            }
            out
        },
    }
}

/// Run substitution passes until a fixed point or the pass bound; the flag
/// reports whether the fixed point was reached.
pub fn expand_all_chars(s: &[char]) -> (r: (Vec<char>, bool))
    ensures
        r.0@ == spec_expand_n(s@, MAX_PASSES as nat),
        r.1 == spec_converges(s@, (MAX_PASSES - 1) as nat),
{
    let mut cur = vstd::slice::slice_to_vec(s);
    let mut i: usize = 0;
    loop
        invariant
            i <= MAX_PASSES,
            cur@ == spec_expand_n(s@, i as nat),
            forall|j: nat|
                j < i ==> spec_pass(#[trigger] spec_expand_n(s@, j)) != spec_expand_n(s@, j),
        decreases MAX_PASSES - i,
    {
        if i >= MAX_PASSES {
            proof {
                lemma_not_converges(s@, (MAX_PASSES - 1) as nat);
            }
            return (cur, false);
        }
        let next = expand_pass_chars(cur.as_slice());
        if chars_eq(&next, &cur) {
            proof {
                lemma_converges_from_witness(s@, i as nat, (MAX_PASSES - 1) as nat);
                lemma_expand_n_add(s@, i as nat, (MAX_PASSES - i) as nat);
                lemma_fixed_stays(cur@, (MAX_PASSES - i) as nat);
            }
            return (cur, true);
        }
        proof {
            lemma_expand_n_succ(s@, i as nat);
        }
        cur = next;
        i = i + 1;
    }
}

/// Expand every template span in `text`, innermost first, iterating to a
/// fixed point. Returns the final text and whether a fixed point was reached
/// within the pass bound.
pub fn expand_all(text: &str) -> (r: (String, bool))
    ensures
        r.0@ == spec_expand_n(text@, MAX_PASSES as nat),
        r.1 == spec_converges(text@, (MAX_PASSES - 1) as nat),
{
    let chars = str_to_chars(text);
    let (v, converged) = expand_all_chars(chars.as_slice());
    (chars_to_string(&v), converged)
}

/// One substitution pass over `text`: each innermost span is rewritten once,
/// so nesting resolves one layer per pass.
pub fn expand_pass(text: &str) -> (r: String)
    ensures
        r@ == spec_pass(text@),
{
    let chars = str_to_chars(text);
    let v = expand_pass_chars(chars.as_slice());
    chars_to_string(&v)
}

/// The driver's configuration switch: in raw mode the input is returned
/// unchanged; otherwise templates are expanded to a fixed point.
pub fn expand_text(text: &str, raw: bool) -> (r: String)
    ensures
        raw ==> r@ == text@,
        !raw ==> r@ == spec_expand_n(text@, MAX_PASSES as nat),
{
    if raw {
        text.to_owned()
    } else {
        let (out, _converged) = expand_all(text);
        out
    }
}

/// A text without `{{` is already a fixed point: expansion returns it
/// unchanged, whatever the pass count.
pub proof fn lemma_no_templates_identity(s: Seq<char>, n: nat)
    requires
        !spec_has_open(s),
    ensures
        spec_pass(s) == s,
        spec_expand_n(s, n) == s,
        spec_converges(s, n),
{
    lemma_no_open_no_span(s, 0);
    lemma_fixed_stays(s, n);
}

/// Expansion is a fixed point of itself: when the driver converges, running
/// it again on its own output changes nothing and converges at once.
pub proof fn lemma_expand_all_fixed_point(s: Seq<char>)
    requires
        spec_converges(s, (MAX_PASSES - 1) as nat),
    ensures
        spec_expand_n(spec_expand_n(s, MAX_PASSES as nat), MAX_PASSES as nat) == spec_expand_n(
            s,
            MAX_PASSES as nat,
        ),
        spec_converges(spec_expand_n(s, MAX_PASSES as nat), (MAX_PASSES - 1) as nat),
{
    lemma_converges_witness_exists(s, (MAX_PASSES - 1) as nat);
    let j = choose|j: nat|
        j <= (MAX_PASSES - 1) as nat && spec_pass(#[trigger] spec_expand_n(s, j))
            == spec_expand_n(s, j);
    lemma_expand_n_add(s, j, (MAX_PASSES - j) as nat);
    lemma_fixed_stays(spec_expand_n(s, j), (MAX_PASSES - j) as nat);
    lemma_fixed_stays(spec_expand_n(s, MAX_PASSES as nat), MAX_PASSES as nat);
}

/// Convergence within `n` passes means some prefix of at most `n` passes
/// reaches a fixed point.
pub proof fn lemma_converges_witness_exists(s: Seq<char>, n: nat)
    requires
        spec_converges(s, n),
    ensures
        exists|j: nat|
            j <= n && spec_pass(#[trigger] spec_expand_n(s, j)) == spec_expand_n(s, j),
    decreases n,
{
    if spec_pass(s) == s {
        assert(spec_expand_n(s, 0) == s);
        assert(spec_pass(spec_expand_n(s, 0)) == spec_expand_n(s, 0));
    } else {
        lemma_converges_witness_exists(spec_pass(s), (n - 1) as nat);
        let j = choose|j: nat|
            j <= (n - 1) as nat && spec_pass(#[trigger] spec_expand_n(spec_pass(s), j))
                == spec_expand_n(spec_pass(s), j);
        assert(spec_expand_n(spec_pass(s), j) == spec_expand_n(s, j + 1));
        assert(spec_pass(spec_expand_n(s, j + 1)) == spec_expand_n(s, j + 1));
    }
}

} // verus!
