//! The place-name parser: turns a sequence of tokens describing a geographic
//! entity (as found in `place` and `alt sp` templates) into descriptive prose.
//! Each token is classified by an exact literal or a prefix and contributes a
//! fragment to an accumulating buffer; the buffer is then trimmed and adjacent
//! comma artifacts are collapsed.

use vstd::prelude::*;

use crate::text::push_chars;
use crate::text::push_str;
use crate::text::chars_eq_str;
use crate::text::starts_with_str;
use crate::text::replace_all;
use crate::text::spec_replace_all;
use crate::text::split_char;
use crate::text::spec_split;
use crate::text::str_to_chars;
use crate::text::title;
use crate::text::spec_title;
use crate::text::trim_end;
use crate::text::spec_trim_end;
use crate::text::spec_starts_with;
use crate::text::views;

verus! {

/// How deep `One of <<..>>` compounds may nest before the parser stops
/// recursing and emits the token verbatim. Sub-tokens are produced by
/// splitting on spaces and so can never start with the marker `One of`
/// (which itself contains a space): real inputs never reach the bound.
pub const PLACE_DEPTH: usize = 4;

/// The fragment one place token contributes to the output buffer.
pub open spec fn spec_place_token(t: Seq<char>, depth: nat) -> Seq<char>
    decreases depth, 0nat, 0nat,
{
    if t == "ucomm"@ {
        "(Unincorporated Community) "@
    } else if t == "CDP"@ || t == "cdp"@ {
        "(Census-Designated Place) "@
    } else if t == "minor city"@ {
        "(Minor City) "@
    } else if t == "electoral division"@ {
        "(Electoral Division) "@
    } else if spec_starts_with(t, "seat="@) {
        " (Seat "@ + spec_split(t, '=').last() + ")"@
    } else if spec_starts_with(t, "One of"@) {
        if depth > 0 {
            spec_parse_place(
                spec_split(spec_replace_all(spec_replace_all(t, "<<"@, ""@), ">>"@, ""@), ' '),
                (depth - 1) as nat,
            )
        } else {
            t + " "@
        }
    } else if spec_starts_with(t, "in "@) || t == "and"@ {
        t + " "@
    } else if spec_starts_with(t, "c/"@) {
        t.skip(2)
    } else if spec_starts_with(t, "cc/"@) {
        t.skip(3)
    } else if spec_starts_with(t, "s/"@) {
        t.skip(2) + ", "@
    } else if spec_starts_with(t, "co/"@) {
        t.skip(3) + ", "@
    } else if spec_starts_with(t, "state/"@) {
        spec_title(t.skip(6)) + ", "@
    } else if spec_starts_with(t, "city/"@) {
        spec_title(t.skip(5)) + ", "@
    } else if spec_starts_with(t, "town/"@) {
        spec_title(t.skip(5)) + ", "@
    } else if spec_starts_with(t, "prefecture:"@) {
        spec_title(spec_replace_all(t.skip(11), "Suf/"@, ""@)) + " prefecture, "@
    } else if spec_starts_with(t, "ar:"@) {
        spec_title(spec_replace_all(t.skip(3), "Suf/"@, ""@)) + " Autonomous Region, "@
    } else {
        t + " "@
    }
}

/// The concatenation of the fragments of all tokens, in order.
pub open spec fn spec_place_concat(tokens: Seq<Seq<char>>, depth: nat) -> Seq<char>
    decreases depth, tokens.len(), 1nat,
{
    if tokens.len() == 0 {
        Seq::empty()
    } else {
        spec_place_token(tokens[0], depth) + spec_place_concat(tokens.drop_first(), depth)
    }
}

/// The parsed prose for a token sequence: the accumulated fragments with
/// trailing ASCII whitespace removed and every `,,` collapsed to `,`.
pub open spec fn spec_parse_place(tokens: Seq<Seq<char>>, depth: nat) -> Seq<char>
    decreases depth, tokens.len(), 2nat,
{
    spec_replace_all(spec_trim_end(spec_place_concat(tokens, depth)), ",,"@, ","@)
}

fn place_token(t: &[char], depth: usize) -> (r: Vec<char>)
    ensures
        r@ == spec_place_token(t@, depth as nat),
    decreases depth, 0nat, 0nat,
{
    proof {
        reveal_strlit(" ");
        reveal_strlit("<<");
        reveal_strlit(">>");
        reveal_strlit("c/");
        reveal_strlit("cc/");
        reveal_strlit("s/");
        reveal_strlit("co/");
        reveal_strlit("state/");
        reveal_strlit("city/");
        reveal_strlit("town/");
        reveal_strlit("prefecture:");
        reveal_strlit("ar:");
        reveal_strlit("Suf/");
    }
    if chars_eq_str(t, "ucomm") {
        str_to_chars("(Unincorporated Community) ")
    } else if chars_eq_str(t, "CDP") || chars_eq_str(t, "cdp") {
        str_to_chars("(Census-Designated Place) ")
    } else if chars_eq_str(t, "minor city") {
        str_to_chars("(Minor City) ")
    } else if chars_eq_str(t, "electoral division") {
        str_to_chars("(Electoral Division) ")
    } else if starts_with_str(t, "seat=") {
        let parts = split_char(t, '=');
        let mut r = str_to_chars(" (Seat ");
        push_chars(&mut r, vstd::slice::slice_index_get(parts.as_slice(), parts.len() - 1).as_slice());
        push_str(&mut r, ")");
        proof {
            assert(views(parts@).last() == parts@[parts@.len() - 1]@);
        }
        r
    } else if starts_with_str(t, "One of") {
        if depth > 0 {
            let once = replace_all(t, "<<", "");
            let stripped = replace_all(once.as_slice(), ">>", "");
            let parts = split_char(stripped.as_slice(), ' ');
            parse_place_depth(parts.as_slice(), depth - 1)
        } else {
            let mut r = vstd::slice::slice_to_vec(t);
            r.push(' ');
            proof {
                assert(r@ =~= t@ + " "@);
            }
            r
        }
    } else if starts_with_str(t, "in ") || chars_eq_str(t, "and") {
        let mut r = vstd::slice::slice_to_vec(t);
        r.push(' ');
        proof {
            assert(r@ =~= t@ + " "@);
        }
        r
    } else if starts_with_str(t, "c/") {
        let r = vstd::slice::slice_to_vec(vstd::slice::slice_subrange(t, 2, t.len()));
        proof {
            assert(t@.subrange(2, t@.len() as int) =~= t@.skip(2));
        }
        r
    } else if starts_with_str(t, "cc/") {
        let r = vstd::slice::slice_to_vec(vstd::slice::slice_subrange(t, 3, t.len()));
        proof {
            assert(t@.subrange(3, t@.len() as int) =~= t@.skip(3));
        }
        r
    } else if starts_with_str(t, "s/") {
        let mut r = vstd::slice::slice_to_vec(vstd::slice::slice_subrange(t, 2, t.len()));
        push_str(&mut r, ", ");
        proof {
            assert(t@.subrange(2, t@.len() as int) =~= t@.skip(2));
        }
        r
    } else if starts_with_str(t, "co/") {
        let mut r = vstd::slice::slice_to_vec(vstd::slice::slice_subrange(t, 3, t.len()));
        push_str(&mut r, ", ");
        proof {
            assert(t@.subrange(3, t@.len() as int) =~= t@.skip(3));
        }
        r
    } else if starts_with_str(t, "state/") {
        let mut r = title(vstd::slice::slice_subrange(t, 6, t.len()));
        push_str(&mut r, ", ");
        proof {
            assert(t@.subrange(6, t@.len() as int) =~= t@.skip(6));
        }
        r
    } else if starts_with_str(t, "city/") {
        let mut r = title(vstd::slice::slice_subrange(t, 5, t.len()));
        push_str(&mut r, ", ");
        proof {
            assert(t@.subrange(5, t@.len() as int) =~= t@.skip(5));
        }
        r
    } else if starts_with_str(t, "town/") {
        let mut r = title(vstd::slice::slice_subrange(t, 5, t.len()));
        push_str(&mut r, ", ");
        proof {
            assert(t@.subrange(5, t@.len() as int) =~= t@.skip(5));
        }
        r
    } else if starts_with_str(t, "prefecture:") {
        let rest = replace_all(vstd::slice::slice_subrange(t, 11, t.len()), "Suf/", "");
        let mut r = title(rest.as_slice());
        push_str(&mut r, " prefecture, ");
        proof {
            assert(t@.subrange(11, t@.len() as int) =~= t@.skip(11));
        }
        r
    } else if starts_with_str(t, "ar:") {
        let rest = replace_all(vstd::slice::slice_subrange(t, 3, t.len()), "Suf/", "");
        let mut r = title(rest.as_slice());
        push_str(&mut r, " Autonomous Region, ");
        proof {
            assert(t@.subrange(3, t@.len() as int) =~= t@.skip(3));
        }
        r
    } else {
        let mut r = vstd::slice::slice_to_vec(t);
        r.push(' ');
        proof {
            assert(r@ =~= t@ + " "@);
        }
        r
    }
}

fn place_concat(tokens: &[Vec<char>], depth: usize) -> (r: Vec<char>)
    ensures
        r@ == spec_place_concat(views(tokens@), depth as nat),
    decreases depth, tokens@.len(), 1nat,
{
    if tokens.len() == 0 {
        Vec::new()
    } else {
        let mut r = place_token(vstd::slice::slice_index_get(tokens, 0).as_slice(), depth);
        let rest = place_concat(vstd::slice::slice_subrange(tokens, 1, tokens.len()), depth);
        push_chars(&mut r, rest.as_slice());
        proof {
            assert(views(tokens@.subrange(1, tokens@.len() as int)) =~= views(
                tokens@,
            ).drop_first());
        }
        r
    }
}

/// The parser with an explicit recursion bound for `One of` compounds.
pub fn parse_place_depth(tokens: &[Vec<char>], depth: usize) -> (r: Vec<char>)
    ensures
        r@ == spec_parse_place(views(tokens@), depth as nat),
    decreases depth, tokens@.len(), 2nat,
{
    proof {
        reveal_strlit(",,");
    }
    let buf = place_concat(tokens, depth);
    let trimmed = trim_end(buf.as_slice());
    replace_all(trimmed.as_slice(), ",,", ",")
}

/// Turn a sequence of place tokens into a human-readable descriptive string.
pub fn parse_place(tokens: &[Vec<char>]) -> (r: Vec<char>)
    ensures
        r@ == spec_parse_place(views(tokens@), PLACE_DEPTH as nat),
{
    parse_place_depth(tokens, PLACE_DEPTH)
}

} // verus!
