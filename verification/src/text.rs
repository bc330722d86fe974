//! Character-sequence utilities shared by the template engine: conversions
//! between `str`/`String` and `Vec<char>`, equality and prefix tests against
//! string literals, splitting, joining, substring replacement and trimming.

use vstd::prelude::*;

verus! {

/// Convert a string slice to its sequence of characters.
pub fn str_to_chars(s: &str) -> (r: Vec<char>)
    ensures
        r@ == s@,
{
    let n = s.unicode_len();
    let mut r: Vec<char> = Vec::new();
    let mut i: usize = 0;
    while i < n
        invariant
            n == s@.len(),
            i <= n,
            r@ == s@.subrange(0, i as int),
        decreases n - i,
    {
        r.push(s.get_char(i));
        i = i + 1;
        proof {
            assert(r@ =~= s@.subrange(0, i as int));
        }
    }
    proof {
        assert(r@ =~= s@);
    }
    r
}

/// Relies on `String::push` from std: appends the given character to the end
/// of the string.
pub assume_specification[ String::push ](s: &mut String, c: char)
    ensures
        final(s)@ == old(s)@.push(c),
;

/// Build a `String` from a sequence of characters.
pub fn chars_to_string(v: &Vec<char>) -> (r: String)
    ensures
        r@ == v@,
{
    let mut r = String::new();
    let mut i: usize = 0;
    while i < v.len()
        invariant
            i <= v@.len(),
            r@ == v@.subrange(0, i as int),
        decreases v@.len() - i,
    {
        r.push(v[i]);
        i = i + 1;
        proof {
            assert(r@ =~= v@.subrange(0, i as int));
        }
    }
    proof {
        assert(r@ =~= v@);
    }
    r
}

/// Whether the character slice `a` holds exactly the characters of `b`.
pub fn chars_eq_str(a: &[char], b: &str) -> (r: bool)
    ensures
        r == (a@ == b@),
{
    let n = b.unicode_len();
    if a.len() != n {
        proof {
            assert(a@ != b@);
        }
        return false;
    }
    let mut i: usize = 0;
    while i < n
        invariant
            n == b@.len(),
            a@.len() == n,
            i <= n,
            forall|k: int| 0 <= k < i ==> a@[k] == b@[k],
        decreases n - i,
    {
        if *vstd::slice::slice_index_get(a, i) != b.get_char(i) {
            proof {
                assert(a@[i as int] != b@[i as int]);
            }
            return false;
        }
        i = i + 1;
    }
    proof {
        assert(a@ =~= b@);
    }
    true
}

/// Whether the two character vectors hold the same characters.
pub fn chars_eq(a: &Vec<char>, b: &Vec<char>) -> (r: bool)
    ensures
        r == (a@ == b@),
{
    if a.len() != b.len() {
        proof {
            assert(a@ != b@);
        }
        return false;
    }
    let mut i: usize = 0;
    while i < a.len()
        invariant
            a@.len() == b@.len(),
            i <= a@.len(),
            forall|k: int| 0 <= k < i ==> a@[k] == b@[k],
        decreases a@.len() - i,
    {
        if a[i] != b[i] {
            proof {
                assert(a@[i as int] != b@[i as int]);
            }
            return false;
        }
        i = i + 1;
    }
    proof {
        assert(a@ =~= b@);
    }
    true
}

/// Append a copy of every character of `add` to `out`.
pub fn push_chars(out: &mut Vec<char>, add: &[char])
    ensures
        final(out)@ == old(out)@ + add@,
{
    let mut i: usize = 0;
    while i < add.len()
        invariant
            i <= add@.len(),
            out@ == old(out)@ + add@.subrange(0, i as int),
        decreases add@.len() - i,
    {
        out.push(*vstd::slice::slice_index_get(add, i));
        i = i + 1;
        proof {
            assert(old(out)@ + add@.subrange(0, i - 1) + seq![add@[i - 1]] =~= old(out)@
                + add@.subrange(0, i as int));
        }
    }
    proof {
        assert(old(out)@ + add@.subrange(0, add@.len() as int) =~= old(out)@ + add@);
    }
}

/// Append every character of the literal `add` to `out`.
pub fn push_str(out: &mut Vec<char>, add: &str)
    ensures
        final(out)@ == old(out)@ + add@,
{
    let v = str_to_chars(add);
    push_chars(out, v.as_slice());
}

/// ASCII title-casing of a single character: uppercase `'a'..='z'`, leave
/// everything else (including non-ASCII) untouched.
pub open spec fn spec_title_char(c: char) -> char {
    if 'a' <= c && c <= 'z' {
        ((c as u8) - 32) as char
    } else {
        c
    }
}

/// `s` with only its first character title-cased (ASCII-only semantics).
pub open spec fn spec_title(s: Seq<char>) -> Seq<char> {
    if s.len() == 0 {
        s
    } else {
        seq![spec_title_char(s[0])] + s.skip(1)
    }
}

/// Uppercase an ASCII lowercase letter; other characters pass through.
pub fn title_char(c: char) -> (r: char)
    ensures
        r == spec_title_char(c),
{
    if 'a' <= c && c <= 'z' {
        ((c as u8) - 32) as char
    } else {
        c
    }
}

/// Title-case the first character of `s`, leaving the rest unchanged.
pub fn title(s: &[char]) -> (r: Vec<char>)
    ensures
        r@ == spec_title(s@),
{
    if s.len() == 0 {
        Vec::new()
    } else {
        let mut r: Vec<char> = Vec::new();
        r.push(title_char(*vstd::slice::slice_index_get(s, 0)));
        push_chars(&mut r, vstd::slice::slice_subrange(s, 1, s.len()));
        proof {
            assert(r@ =~= spec_title(s@));
        }
        r
    }
}

/// `p` is a prefix of `s`.
pub open spec fn spec_starts_with(s: Seq<char>, p: Seq<char>) -> bool {
    p.len() <= s.len() && s.subrange(0, p.len() as int) == p
}

/// Whether the character slice `s` starts with the characters of the literal `p`.
pub fn starts_with_str(s: &[char], p: &str) -> (r: bool)
    ensures
        r == spec_starts_with(s@, p@),
{
    let n = p.unicode_len();
    if s.len() < n {
        proof {
            assert(!spec_starts_with(s@, p@));
        }
        return false;
    }
    let mut i: usize = 0;
    while i < n
        invariant
            n == p@.len(),
            n <= s@.len(),
            i <= n,
            forall|k: int| 0 <= k < i ==> s@[k] == p@[k],
        decreases n - i,
    {
        if *vstd::slice::slice_index_get(s, i) != p.get_char(i) {
            proof {
                assert(s@.subrange(0, p@.len() as int)[i as int] != p@[i as int]);
            }
            return false;
        }
        i = i + 1;
    }
    proof {
        assert(s@.subrange(0, p@.len() as int) =~= p@);
    }
    true
}

/// Index of the first occurrence of `pat` in `s` at or after `from`;
/// `None` when there is none (or when `pat` is empty).
pub open spec fn spec_find_at(s: Seq<char>, pat: Seq<char>, from: nat) -> Option<nat>
    decreases s.len() - from,
{
    if pat.len() == 0 || from + pat.len() > s.len() {
        None
    } else if s.subrange(from as int, (from + pat.len()) as int) == pat {
        Some(from)
    } else {
        spec_find_at(s, pat, from + 1)
    }
}

/// What a `Some` answer of `spec_find_at` means: an occurrence of `pat`
/// inside the bounds of `s`, and the first one at or after `from`.
pub proof fn lemma_find_at_some(s: Seq<char>, pat: Seq<char>, from: nat, i: nat)
    requires
        spec_find_at(s, pat, from) == Some(i),
    ensures
        from <= i,
        i + pat.len() <= s.len(),
        pat.len() >= 1,
        s.subrange(i as int, (i + pat.len()) as int) == pat,
        forall|j: nat| from <= j < i ==> #[trigger] s.subrange(j as int, (j + pat.len()) as int) != pat,
    decreases s.len() - from,
{
    if pat.len() == 0 || from + pat.len() > s.len() {
        assert(false);
    } else if s.subrange(from as int, (from + pat.len()) as int) == pat {
    } else {
        lemma_find_at_some(s, pat, from + 1, i);
    }
}

/// Whether `pat` occurs in `s` at position `i`.
fn matches_at(s: &[char], pat: &str, i: usize) -> (r: bool)
    requires
        i + pat@.len() <= s@.len(),
    ensures
        r == (s@.subrange(i as int, i + pat@.len()) == pat@),
{
    let slen = s.len();
    let n = pat.unicode_len();
    let mut j: usize = 0;
    while j < n
        invariant
            n == pat@.len(),
            slen == s@.len(),
            i + n <= s@.len(),
            j <= n,
            forall|k: int| 0 <= k < j ==> s@[i + k] == pat@[k],
        decreases n - j,
    {
        if *vstd::slice::slice_index_get(s, i + j) != pat.get_char(j) {
            proof {
                assert(s@.subrange(i as int, i + pat@.len())[j as int] != pat@[j as int]);
            }
            return false;
        }
        j = j + 1;
    }
    proof {
        assert(s@.subrange(i as int, i + pat@.len()) =~= pat@);
    }
    true
}

/// Index of the first occurrence of the literal `pat` in `s` at or after `from`.
pub fn find_at(s: &[char], pat: &str, from: usize) -> (r: Option<usize>)
    requires
        pat@.len() >= 1,
    ensures
        match r {
            Some(i) => from <= i && i + pat@.len() <= s@.len() && spec_find_at(
                s@,
                pat@,
                from as nat,
            ) == Some(i as nat),
            None => spec_find_at(s@, pat@, from as nat) is None,
        },
{
    let n = pat.unicode_len();
    let mut i: usize = from;
    loop
        invariant
            n == pat@.len(),
            n >= 1,
            from <= i,
            spec_find_at(s@, pat@, from as nat) == spec_find_at(s@, pat@, i as nat),
        decreases s@.len() + 1 - i,
    {
        if s.len() < n || i > s.len() - n {
            return None;
        }
        if matches_at(s, pat, i) {
            return Some(i);
        }
        i = i + 1;
    }
}

/// `s` with every occurrence of `pat` replaced by `rep`, scanning left to
/// right and resuming after each replacement.
pub open spec fn spec_replace_all(s: Seq<char>, pat: Seq<char>, rep: Seq<char>) -> Seq<char>
    decreases s.len(),
{
    match spec_find_at(s, pat, 0) {
        None => s,
        Some(i) => if i + pat.len() <= s.len() && pat.len() >= 1 {
            s.subrange(0, i as int) + rep + spec_replace_all(s.skip((i + pat.len()) as int), pat, rep)
        } else {
            s
        },
    }
}

/// Replace every occurrence of the literal `pat` in `s` by `rep`.
pub fn replace_all(s: &[char], pat: &str, rep: &str) -> (r: Vec<char>)
    requires
        pat@.len() >= 1,
    ensures
        r@ == spec_replace_all(s@, pat@, rep@),
    decreases s@.len(),
{
    match find_at(s, pat, 0) {
        None => vstd::slice::slice_to_vec(s),
        Some(i) => {
            proof {
                lemma_find_at_some(s@, pat@, 0, i as nat);
            }
            let slen = s.len();
            let mut out = vstd::slice::slice_to_vec(vstd::slice::slice_subrange(s, 0, i));
            push_str(&mut out, rep);
            let skip: usize = i + pat.unicode_len();
            let tail = replace_all(vstd::slice::slice_subrange(s, skip, slen), pat, rep);
            push_chars(&mut out, tail.as_slice());
            proof {
                assert(s@.subrange(skip as int, s@.len() as int) =~= s@.skip((i + pat@.len()) as int));
            }
            out
        },
    }
}

/// The pieces of `s` between occurrences of the separator `sep`, in order;
/// always at least one piece, and empty pieces are kept.
pub open spec fn spec_split(s: Seq<char>, sep: char) -> Seq<Seq<char>>
    decreases s.len(),
{
    match spec_find_at(s, seq![sep], 0) {
        None => seq![s],
        Some(i) => if i + 1 <= s.len() {
            seq![s.subrange(0, i as int)] + spec_split(s.skip(i + 1 as int), sep)
        } else {
            seq![s]
        },
    }
}

/// The character views of a sequence of character vectors.
pub open spec fn views(v: Seq<Vec<char>>) -> Seq<Seq<char>> {
    Seq::new(v.len(), |i: int| v[i]@)
}

/// Split `s` on the separator character `sep`, keeping empty pieces.
pub fn split_char(s: &[char], sep: char) -> (r: Vec<Vec<char>>)
    ensures
        views(r@) == spec_split(s@, sep),
        r@.len() >= 1,
    decreases s@.len(),
{
    let mut sep_lit = String::new();
    sep_lit.push(sep);
    proof {
        assert(sep_lit@ =~= seq![sep]);
    }
    match find_at(s, sep_lit.as_str(), 0) {
        None => {
            let mut r: Vec<Vec<char>> = Vec::new();
            r.push(vstd::slice::slice_to_vec(s));
            proof {
                assert(views(r@) =~= seq![s@]);
            }
            r
        },
        Some(i) => {
            proof {
                lemma_find_at_some(s@, seq![sep], 0, i as nat);
            }
            let slen = s.len();
            let head = vstd::slice::slice_to_vec(vstd::slice::slice_subrange(s, 0, i));
            let mut r: Vec<Vec<char>> = Vec::new();
            r.push(head);
            let mut tail = split_char(vstd::slice::slice_subrange(s, i + 1, slen), sep);
            proof {
                assert(s@.subrange(i + 1, s@.len() as int) =~= s@.skip(i + 1));
            }
            r.append(&mut tail);
            proof {
                assert(views(r@) =~= seq![s@.subrange(0, i as int)] + spec_split(
                    s@.skip(i + 1),
                    sep,
                ));
            }
            r
        },
    }
}

/// The pieces of `parts` glued together with `sep` between neighbours.
pub open spec fn spec_join(parts: Seq<Seq<char>>, sep: Seq<char>) -> Seq<char>
    decreases parts.len(),
{
    if parts.len() == 0 {
        Seq::empty()
    } else if parts.len() == 1 {
        parts[0]
    } else {
        parts[0] + sep + spec_join(parts.drop_first(), sep)
    }
}

/// Join the character vectors of `parts` with the literal `sep` between them.
pub fn join(parts: &[Vec<char>], sep: &str) -> (r: Vec<char>)
    ensures
        r@ == spec_join(views(parts@), sep@),
    decreases parts@.len(),
{
    if parts.len() == 0 {
        Vec::new()
    } else if parts.len() == 1 {
        let mut r: Vec<char> = Vec::new();
        push_chars(&mut r, vstd::slice::slice_index_get(parts, 0).as_slice());
        proof {
            assert(r@ =~= views(parts@)[0]);
        }
        r
    } else {
        let mut r: Vec<char> = Vec::new();
        push_chars(&mut r, vstd::slice::slice_index_get(parts, 0).as_slice());
        push_str(&mut r, sep);
        let tail = join(vstd::slice::slice_subrange(parts, 1, parts.len()), sep);
        push_chars(&mut r, tail.as_slice());
        proof {
            assert(views(parts@.subrange(1, parts@.len() as int)) =~= views(
                parts@,
            ).drop_first());
            assert(r@ =~= views(parts@)[0] + sep@ + spec_join(views(parts@).drop_first(), sep@));
        }
        r
    }
}

/// Splitting on a separator and joining with it again gives back the very
/// characters that were split: nothing is lost or reordered.
pub proof fn lemma_join_split(s: Seq<char>, sep: char)
    ensures
        spec_join(spec_split(s, sep), seq![sep]) == s,
    decreases s.len(),
{
    match spec_find_at(s, seq![sep], 0) {
        None => {},
        Some(i) => {
            lemma_find_at_some(s, seq![sep], 0, i);
            let tail = s.skip(i + 1 as int);
            lemma_join_split(tail, sep);
            let parts = seq![s.subrange(0, i as int)] + spec_split(tail, sep);
            assert(parts.drop_first() =~= spec_split(tail, sep));
            if spec_split(tail, sep).len() == 0 {
                assert(spec_join(spec_split(tail, sep), seq![sep]) == Seq::<char>::empty());
                assert(tail.len() == 0);
                assert(s.subrange(i as int, i + 1 as int)[0] == sep);
                assert(spec_join(parts, seq![sep]) =~= s);
            } else {
                assert(s.subrange(i as int, i + 1 as int)[0] == sep);
                assert(spec_join(parts, seq![sep]) =~= s);
            }
        },
    }
}

/// ASCII whitespace.
pub open spec fn spec_is_ws(c: char) -> bool {
    c == ' ' || c == '\t' || c == '\n' || c == '\r'
}

/// `s` with its trailing ASCII whitespace removed.
pub open spec fn spec_trim_end(s: Seq<char>) -> Seq<char>
    decreases s.len(),
{
    if s.len() > 0 && spec_is_ws(s.last()) {
        spec_trim_end(s.drop_last())
    } else {
        s
    }
}

/// Whether `c` is ASCII whitespace.
pub fn is_ws(c: char) -> (r: bool)
    ensures
        r == spec_is_ws(c),
{
    c == ' ' || c == '\t' || c == '\n' || c == '\r'
}

/// Remove trailing ASCII whitespace from `s`.
pub fn trim_end(s: &[char]) -> (r: Vec<char>)
    ensures
        r@ == spec_trim_end(s@),
{
    let mut n = s.len();
    proof {
        assert(s@.subrange(0, s@.len() as int) =~= s@);
    }
    while n > 0 && is_ws(*vstd::slice::slice_index_get(s, n - 1))
        invariant
            n <= s@.len(),
            spec_trim_end(s@) == spec_trim_end(s@.subrange(0, n as int)),
        decreases n,
    {
        proof {
            assert(s@.subrange(0, n as int).drop_last() =~= s@.subrange(0, n - 1));
        }
        n = n - 1;
    }
    let r = vstd::slice::slice_to_vec(vstd::slice::slice_subrange(s, 0, n));
    proof {
        assert(spec_trim_end(s@.subrange(0, n as int)) == s@.subrange(0, n as int));
    }
    r
}

} // verus!
