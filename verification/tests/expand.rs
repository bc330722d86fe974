use define3::expand::expand_all;
use define3::expand::expand_pass;
use define3::expand::expand_text;

#[test]
fn end_to_end_expansion() {
    let input = "A {{qualifier|dated}} {{plural of|en|cat}}";
    assert_eq!(expand_text(input, false), "A (dated) Plural of cat");
}

#[test]
fn raw_mode_returns_input_unchanged() {
    let input = "A {{qualifier|dated}} {{plural of|en|cat}}";
    assert_eq!(expand_text(input, true), input);
}

#[test]
fn no_templates_is_identity() {
    let input = "nothing to do here; } and { alone are fine";
    let (out, converged) = expand_all(input);
    assert_eq!(out, input);
    assert!(converged);
}

#[test]
fn expansion_reaches_a_fixed_point() {
    let input = "{{cap|word}} and {{lb|en|_|archaic}} and {{unknown|x}}";
    let (once, c1) = expand_all(input);
    assert!(c1);
    let (twice, c2) = expand_all(&once);
    assert!(c2);
    assert_eq!(once, twice);
    assert_eq!(once, "Word and (archaic) and {{unknown|x}}");
}

#[test]
fn nested_templates_resolve_innermost_first() {
    let input = "{{qualifier|{{plural of|en|cat}}}}";
    let after_one = expand_pass(input);
    assert_eq!(after_one, "{{qualifier|Plural of cat}}");
    let after_two = expand_pass(&after_one);
    assert_eq!(after_two, "(Plural of cat)");
    let (full, converged) = expand_all(input);
    assert_eq!(full, "(Plural of cat)");
    assert!(converged);
}

#[test]
fn unresolvable_spans_stay_verbatim() {
    let (out, converged) = expand_all("x {{foo|y}} z");
    assert_eq!(out, "x {{foo|y}} z");
    assert!(converged);
    let (out2, converged2) = expand_all("{{}}");
    assert_eq!(out2, "{{}}");
    assert!(converged2);
}

#[test]
fn spans_with_inner_open_brace_are_skipped() {
    // The first `{{` cannot close before another `{`, so the match starts at
    // the inner pair, exactly as the innermost-first grammar demands.
    let (out, converged) = expand_all("{{{senseid|en|x}}");
    assert_eq!(out, "{");
    assert!(converged);
}

#[test]
fn single_pass_rewrites_all_spans_left_to_right() {
    let out = expand_pass("{{cap|a}}-{{cap|b}}-{{cap|c}}");
    assert_eq!(out, "A-B-C");
}

#[test]
fn content_may_hold_single_braces() {
    let (out, converged) = expand_all("{{qualifier|a}b}}");
    assert_eq!(out, "(a}b)");
    assert!(converged);
}

#[test]
fn place_template_end_to_end() {
    let (out, converged) = expand_all("{{place|en|state/california|seat=Sacramento}}");
    assert_eq!(out, "(Place) California,  (Seat Sacramento)");
    assert!(converged);
}
