//! The template dispatcher: maps a parsed template invocation (name plus
//! ordered argument list) to its expansion text. The vocabulary is a closed,
//! hand-curated set of common wiki template names; an unrecognized name, or a
//! recognized one whose required argument positions are missing, falls back to
//! reproducing the original span text unchanged, delimiters included.

use vstd::prelude::*;

use crate::place::parse_place;
use crate::place::spec_parse_place;
use crate::place::PLACE_DEPTH;
use crate::text::chars_eq_str;
use crate::text::join;
use crate::text::push_chars;
use crate::text::push_str;
use crate::text::spec_join;
use crate::text::spec_split;
use crate::text::spec_starts_with;
use crate::text::spec_title;
use crate::text::starts_with_str;
use crate::text::str_to_chars;
use crate::text::title;
use crate::text::views;

verus! {

/// The original span text of an invocation: its arguments joined back with
/// `|` between the `{{` `}}` delimiters.
pub open spec fn spec_passthrough(args: Seq<Seq<char>>) -> Seq<char> {
    "{{"@ + spec_join(args, "|"@) + "}}"@
}

/// The template names the dispatcher recognizes.
pub open spec fn spec_known_name(name: Seq<char>) -> bool {
    ||| name == ","@
    ||| name == "1"@
    ||| name == "cap"@
    ||| name == "ngd"@
    ||| name == "unsupported"@
    ||| name == "non-gloss definition"@
    ||| name == "gloss"@
    ||| name == "alternative form of"@
    ||| name == "alt form"@
    ||| name == "ja-romanization of"@
    ||| name == "sumti"@
    ||| name == "ja-def"@
    ||| name == "qualifier"@
    ||| name == "lb"@
    ||| name == "q"@
    ||| name == "c"@
    ||| name == "m"@
    ||| name == "l"@
    ||| name == "w"@
    ||| name == "senseid"@
    ||| name == "alternative case form of"@
    ||| name == "plural of"@
    ||| name == "infl of"@
    ||| name == "syn of"@
    ||| name == "synonym of"@
    ||| name == "acronym of"@
    ||| name == "initialism of"@
    ||| name == "abbreviation of"@
    ||| name == "clipping of"@
    ||| name == "surname"@
    ||| name == "given name"@
    ||| name == "defdate"@
    ||| name == "place"@
    ||| name == "taxfmt"@
    ||| name == "alt sp"@
}

/// The arguments with every `_` filler dropped.
pub open spec fn spec_keep(parts: Seq<Seq<char>>) -> Seq<Seq<char>>
    decreases parts.len(),
{
    if parts.len() == 0 {
        Seq::empty()
    } else if parts[0] == "_"@ {
        spec_keep(parts.drop_first())
    } else {
        seq![parts[0]] + spec_keep(parts.drop_first())
    }
}

/// The `alt sp` place argument with a leading `t=` marker stripped.
pub open spec fn spec_strip_t(a: Seq<char>) -> Seq<char> {
    if spec_starts_with(a, "t="@) {
        a.skip(2)
    } else {
        a
    }
}

/// The expansion of one template invocation. `args[0]` is the template name,
/// the rest are its positional parameters; the result for an unrecognized or
/// malformed invocation is the original span text.
pub open spec fn spec_expand_template(args: Seq<Seq<char>>) -> Seq<char> {
    if args.len() == 0 {
        spec_passthrough(args)
    } else {
        let name = args[0];
        if name == ","@ {
            ","@
        } else if name == "1"@ || name == "cap"@ {
            if args.len() >= 2 {
                spec_title(args[1])
            } else {
                spec_passthrough(args)
            }
        } else if name == "ngd"@ || name == "unsupported"@ || name == "non-gloss definition"@
            || name == "gloss"@ {
            if args.len() >= 2 {
                args[1]
            } else {
                spec_passthrough(args)
            }
        } else if name == "alternative form of"@ || name == "alt form"@ {
            if args.len() >= 3 {
                "Alternative form of "@ + args[2]
            } else {
                spec_passthrough(args)
            }
        } else if name == "ja-romanization of"@ {
            if args.len() >= 2 {
                "Rōmaji transcription of "@ + args[1]
            } else {
                spec_passthrough(args)
            }
        } else if name == "sumti"@ {
            if args.len() >= 2 {
                "x"@ + args[1]
            } else {
                spec_passthrough(args)
            }
        } else if name == "ja-def"@ {
            if args.len() >= 2 {
                args[1] + ":"@
            } else {
                spec_passthrough(args)
            }
        } else if name == "qualifier"@ || name == "q"@ {
            if args.len() >= 2 {
                "("@ + args[1] + ")"@
            } else {
                spec_passthrough(args)
            }
        } else if name == "lb"@ {
            if args.len() >= 2 {
                "("@ + spec_join(spec_keep(args.skip(2)), ", "@) + ")"@
            } else {
                spec_passthrough(args)
            }
        } else if name == "c"@ || name == "m"@ || name == "l"@ || name == "w"@ {
            if args.len() >= 3 {
                args[2]
            } else {
                spec_passthrough(args)
            }
        } else if name == "senseid"@ {
            Seq::empty()
        } else if name == "alternative case form of"@ {
            if args.len() >= 3 {
                "Alternative case form of "@ + args[2]
            } else {
                spec_passthrough(args)
            }
        } else if name == "plural of"@ {
            if args.len() >= 3 {
                "Plural of "@ + args[2]
            } else {
                spec_passthrough(args)
            }
        } else if name == "infl of"@ {
            if args.len() >= 3 {
                "Inflected form of "@ + args[2]
            } else {
                spec_passthrough(args)
            }
        } else if name == "syn of"@ || name == "synonym of"@ {
            if args.len() >= 3 {
                "Synonym of "@ + args[2]
            } else {
                spec_passthrough(args)
            }
        } else if name == "acronym of"@ {
            if args.len() >= 3 {
                "Acronym of "@ + args[2]
            } else {
                spec_passthrough(args)
            }
        } else if name == "initialism of"@ {
            if args.len() >= 3 {
                "Initialism of "@ + args[2]
            } else {
                spec_passthrough(args)
            }
        } else if name == "abbreviation of"@ {
            if args.len() >= 3 {
                "Abbreviation of "@ + args[2]
            } else {
                spec_passthrough(args)
            }
        } else if name == "clipping of"@ {
            if args.len() >= 3 {
                "Clipping of "@ + args[2]
            } else {
                spec_passthrough(args)
            }
        } else if name == "surname"@ {
            "Surname"@
        } else if name == "given name"@ {
            "Given name"@
        } else if name == "defdate"@ {
            if args.len() >= 2 {
                "["@ + args[1] + "]"@
            } else {
                spec_passthrough(args)
            }
        } else if name == "place"@ {
            if args.len() >= 2 {
                "(Place) "@ + spec_parse_place(args.skip(2), PLACE_DEPTH as nat)
            } else {
                spec_passthrough(args)
            }
        } else if name == "taxfmt"@ {
            if args.len() >= 2 {
                spec_join(args.subrange(1, args.len() - 1), " "@)
            } else {
                spec_passthrough(args)
            }
        } else if name == "alt sp"@ {
            if args.len() >= 4 {
                "Alt spelling of "@ + args[2] + " "@ + spec_parse_place(
                    seq![spec_strip_t(args[3])] + args.skip(4),
                    PLACE_DEPTH as nat,
                )
            } else {
                spec_passthrough(args)
            }
        } else {
            spec_passthrough(args)
        }
    }
}

/// The fallback really is the original span text bit-for-bit, delimiters
/// included: rebuilding `{{` + content + `}}` from the `|`-split arguments
/// gives back the very characters of the matched span.
pub proof fn lemma_passthrough_verbatim(content: Seq<char>)
    ensures
        spec_passthrough(spec_split(content, '|')) == "{{"@ + content + "}}"@,
{
    reveal_strlit("|");
    crate::text::lemma_join_split(content, '|');
    assert("|"@ =~= seq!['|']);
    assert(spec_join(spec_split(content, '|'), "|"@) == content);
}

/// The original span text, rebuilt from the argument list.
fn passthrough(args: &[Vec<char>]) -> (r: Vec<char>)
    ensures
        r@ == spec_passthrough(views(args@)),
{
    let mut r = str_to_chars("{{");
    let joined = join(args, "|");
    push_chars(&mut r, joined.as_slice());
    push_str(&mut r, "}}");
    r
}

/// Copy a slice of argument vectors.
fn copy_parts(parts: &[Vec<char>]) -> (r: Vec<Vec<char>>)
    ensures
        views(r@) == views(parts@),
{
    let mut r: Vec<Vec<char>> = Vec::new();
    let mut i: usize = 0;
    while i < parts.len()
        invariant
            i <= parts@.len(),
            r@.len() == i,
            forall|k: int| 0 <= k < i ==> #[trigger] r@[k]@ == parts@[k]@,
        decreases parts@.len() - i,
    {
        r.push(vstd::slice::slice_to_vec(vstd::slice::slice_index_get(parts, i).as_slice()));
        i = i + 1;
    }
    proof {
        assert forall|k: int| 0 <= k < parts@.len() implies views(r@)[k] == views(parts@)[k] by {
            assert(r@[k]@ == parts@[k]@);
        }
        assert(views(r@) =~= views(parts@));
    }
    r
}

/// Drop every `_` filler argument.
fn keep(parts: &[Vec<char>]) -> (r: Vec<Vec<char>>)
    ensures
        views(r@) == spec_keep(views(parts@)),
    decreases parts@.len(),
{
    if parts.len() == 0 {
        Vec::new()
    } else {
        let mut rest = keep(vstd::slice::slice_subrange(parts, 1, parts.len()));
        proof {
            assert(views(parts@.subrange(1, parts@.len() as int)) =~= views(
                parts@,
            ).drop_first());
        }
        if chars_eq_str(vstd::slice::slice_index_get(parts, 0).as_slice(), "_") {
            rest
        } else {
            let mut r: Vec<Vec<char>> = Vec::new();
            r.push(
                vstd::slice::slice_to_vec(vstd::slice::slice_index_get(parts, 0).as_slice()),
            );
            r.append(&mut rest);
            proof {
                assert(views(r@) =~= seq![views(parts@)[0]] + spec_keep(
                    views(parts@).drop_first(),
                ));
            }
            r
        }
    }
}

/// Expand one template invocation: `args[0]` is the template name, the rest
/// its parameters. An unrecognized name, or a recognized one with missing
/// argument positions, reproduces the original span text bit-for-bit,
/// delimiters included.
pub fn expand_template(args: &[Vec<char>]) -> (r: Vec<char>)
    ensures
        r@ == spec_expand_template(views(args@)),
        args@.len() >= 1 && !spec_known_name(args@[0]@) ==> r@ == spec_passthrough(views(args@)),
{
    if args.len() == 0 {
        return passthrough(args);
    }
    let name = vstd::slice::slice_index_get(args, 0).as_slice();
    if chars_eq_str(name, ",") {
        str_to_chars(",")
    } else if chars_eq_str(name, "1") || chars_eq_str(name, "cap") {
        if args.len() >= 2 {
            title(vstd::slice::slice_index_get(args, 1).as_slice())
        } else {
            passthrough(args)
        }
    } else if chars_eq_str(name, "ngd") || chars_eq_str(name, "unsupported") || chars_eq_str(
        name,
        "non-gloss definition",
    ) || chars_eq_str(name, "gloss") {
        if args.len() >= 2 {
            vstd::slice::slice_to_vec(vstd::slice::slice_index_get(args, 1).as_slice())
        } else {
            passthrough(args)
        }
    } else if chars_eq_str(name, "alternative form of") || chars_eq_str(name, "alt form") {
        if args.len() >= 3 {
            let mut r = str_to_chars("Alternative form of ");
            push_chars(&mut r, vstd::slice::slice_index_get(args, 2).as_slice());
            r
        } else {
            passthrough(args)
        }
    } else if chars_eq_str(name, "ja-romanization of") {
        if args.len() >= 2 {
            let mut r = str_to_chars("Rōmaji transcription of ");
            push_chars(&mut r, vstd::slice::slice_index_get(args, 1).as_slice());
            r
        } else {
            passthrough(args)
        }
    } else if chars_eq_str(name, "sumti") {
        if args.len() >= 2 {
            let mut r = str_to_chars("x");
            push_chars(&mut r, vstd::slice::slice_index_get(args, 1).as_slice());
            r
        } else {
            passthrough(args)
        }
    } else if chars_eq_str(name, "ja-def") {
        if args.len() >= 2 {
            let mut r = vstd::slice::slice_to_vec(
                vstd::slice::slice_index_get(args, 1).as_slice(),
            );
            push_str(&mut r, ":");
            r
        } else {
            passthrough(args)
        }
    } else if chars_eq_str(name, "qualifier") || chars_eq_str(name, "q") {
        if args.len() >= 2 {
            let mut r = str_to_chars("(");
            push_chars(&mut r, vstd::slice::slice_index_get(args, 1).as_slice());
            push_str(&mut r, ")");
            r
        } else {
            passthrough(args)
        }
    } else if chars_eq_str(name, "lb") {
        if args.len() >= 2 {
            let kept = keep(vstd::slice::slice_subrange(args, 2, args.len()));
            let joined = join(kept.as_slice(), ", ");
            let mut r = str_to_chars("(");
            push_chars(&mut r, joined.as_slice());
            push_str(&mut r, ")");
            proof {
                assert(views(args@.subrange(2, args@.len() as int)) =~= views(args@).skip(2));
            }
            r
        } else {
            passthrough(args)
        }
    } else if chars_eq_str(name, "c") || chars_eq_str(name, "m") || chars_eq_str(name, "l")
        || chars_eq_str(name, "w") {
        if args.len() >= 3 {
            vstd::slice::slice_to_vec(vstd::slice::slice_index_get(args, 2).as_slice())
        } else {
            passthrough(args)
        }
    } else if chars_eq_str(name, "senseid") {
        Vec::new()
    } else if chars_eq_str(name, "alternative case form of") {
        if args.len() >= 3 {
            let mut r = str_to_chars("Alternative case form of ");
            push_chars(&mut r, vstd::slice::slice_index_get(args, 2).as_slice());
            r
        } else {
            passthrough(args)
        }
    } else if chars_eq_str(name, "plural of") {
        if args.len() >= 3 {
            let mut r = str_to_chars("Plural of ");
            push_chars(&mut r, vstd::slice::slice_index_get(args, 2).as_slice());
            r
        } else {
            passthrough(args)
        }
    } else if chars_eq_str(name, "infl of") {
        if args.len() >= 3 {
            let mut r = str_to_chars("Inflected form of ");
            push_chars(&mut r, vstd::slice::slice_index_get(args, 2).as_slice());
            r
        } else {
            passthrough(args)
        }
    } else if chars_eq_str(name, "syn of") || chars_eq_str(name, "synonym of") {
        if args.len() >= 3 {
            let mut r = str_to_chars("Synonym of ");
            push_chars(&mut r, vstd::slice::slice_index_get(args, 2).as_slice());
            r
        } else {
            passthrough(args)
        }
    } else if chars_eq_str(name, "acronym of") {
        if args.len() >= 3 {
            let mut r = str_to_chars("Acronym of ");
            push_chars(&mut r, vstd::slice::slice_index_get(args, 2).as_slice());
            r
        } else {
            passthrough(args)
        }
    } else if chars_eq_str(name, "initialism of") {
        if args.len() >= 3 {
            let mut r = str_to_chars("Initialism of ");
            push_chars(&mut r, vstd::slice::slice_index_get(args, 2).as_slice());
            r
        } else {
            passthrough(args)
        }
    } else if chars_eq_str(name, "abbreviation of") {
        if args.len() >= 3 {
            let mut r = str_to_chars("Abbreviation of ");
            push_chars(&mut r, vstd::slice::slice_index_get(args, 2).as_slice());
            r
        } else {
            passthrough(args)
        }
    } else if chars_eq_str(name, "clipping of") {
        if args.len() >= 3 {
            let mut r = str_to_chars("Clipping of ");
            push_chars(&mut r, vstd::slice::slice_index_get(args, 2).as_slice());
            r
        } else {
            passthrough(args)
        }
    } else if chars_eq_str(name, "surname") {
        str_to_chars("Surname")
    } else if chars_eq_str(name, "given name") {
        str_to_chars("Given name")
    } else if chars_eq_str(name, "defdate") {
        if args.len() >= 2 {
            let mut r = str_to_chars("[");
            push_chars(&mut r, vstd::slice::slice_index_get(args, 1).as_slice());
            push_str(&mut r, "]");
            r
        } else {
            passthrough(args)
        }
    } else if chars_eq_str(name, "place") {
        if args.len() >= 2 {
            let rest = parse_place(vstd::slice::slice_subrange(args, 2, args.len()));
            let mut r = str_to_chars("(Place) ");
            push_chars(&mut r, rest.as_slice());
            proof {
                assert(views(args@.subrange(2, args@.len() as int)) =~= views(args@).skip(2));
            }
            r
        } else {
            passthrough(args)
        }
    } else if chars_eq_str(name, "taxfmt") {
        if args.len() >= 2 {
            let r = join(vstd::slice::slice_subrange(args, 1, args.len() - 1), " ");
            proof {
                assert(views(args@.subrange(1, args@.len() - 1)) =~= views(args@).subrange(
                    1,
                    views(args@).len() - 1,
                ));
            }
            r
        } else {
            passthrough(args)
        }
    } else if chars_eq_str(name, "alt sp") {
        if args.len() >= 4 {
            proof {
                reveal_strlit("t=");
            }
            let third = vstd::slice::slice_index_get(args, 3).as_slice();
            let stripped: Vec<char> = if starts_with_str(third, "t=") {
                let v = vstd::slice::slice_to_vec(
                    vstd::slice::slice_subrange(third, 2, third.len()),
                );
                proof {
                    assert(third@.subrange(2, third@.len() as int) =~= third@.skip(2));
                }
                v
            } else {
                vstd::slice::slice_to_vec(third)
            };
            let mut tokens: Vec<Vec<char>> = Vec::new();
            tokens.push(stripped);
            let mut tail = copy_parts(vstd::slice::slice_subrange(args, 4, args.len()));
            tokens.append(&mut tail);
            proof {
                assert(views(args@.subrange(4, args@.len() as int)) =~= views(args@).skip(4));
                assert(views(tokens@) =~= seq![spec_strip_t(views(args@)[3])] + views(
                    args@,
                ).skip(4));
            }
            let prose = parse_place(tokens.as_slice());
            let mut r = str_to_chars("Alt spelling of ");
            push_chars(&mut r, vstd::slice::slice_index_get(args, 2).as_slice());
            push_str(&mut r, " ");
            push_chars(&mut r, prose.as_slice());
            r
        } else {
            passthrough(args)
        }
    } else {
        passthrough(args)
    }
}

} // verus!
