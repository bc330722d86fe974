use define3::template::expand_template;

fn cv(s: &str) -> Vec<char> {
    s.chars().collect()
}

fn args(parts: &[&str]) -> Vec<Vec<char>> {
    parts.iter().map(|p| cv(p)).collect()
}

fn expand(parts: &[&str]) -> String {
    expand_template(&args(parts)).into_iter().collect()
}

#[test]
fn unknown_name_is_passthrough() {
    assert_eq!(expand(&["foobar", "x", "y"]), "{{foobar|x|y}}");
    assert_eq!(expand(&["no such template"]), "{{no such template}}");
}

#[test]
fn missing_arguments_are_passthrough() {
    assert_eq!(expand(&["plural of"]), "{{plural of}}");
    assert_eq!(expand(&["qualifier"]), "{{qualifier}}");
    assert_eq!(expand(&["alt sp", "en", "color"]), "{{alt sp|en|color}}");
}

#[test]
fn qualifier_wraps_in_parens() {
    assert_eq!(expand(&["qualifier", "archaic"]), "(archaic)");
    assert_eq!(expand(&["q", "rare"]), "(rare)");
}

#[test]
fn lb_drops_filler_arguments() {
    assert_eq!(expand(&["lb", "en", "_", "dated"]), "(dated)");
    assert_eq!(expand(&["lb", "en", "slang", "dated"]), "(slang, dated)");
    assert_eq!(expand(&["lb", "en"]), "()");
}

#[test]
fn plural_of_names_second_argument() {
    assert_eq!(expand(&["plural of", "en", "cat"]), "Plural of cat");
}

#[test]
fn comma_and_literals() {
    assert_eq!(expand(&[","]), ",");
    assert_eq!(expand(&["surname", "en"]), "Surname");
    assert_eq!(expand(&["given name", "en"]), "Given name");
    assert_eq!(expand(&["senseid", "en", "colour"]), "");
}

#[test]
fn cap_title_cases_first_character() {
    assert_eq!(expand(&["cap", "foo"]), "Foo");
    assert_eq!(expand(&["1", "bar"]), "Bar");
    assert_eq!(expand(&["cap", "żona"]), "żona");
}

#[test]
fn verbatim_argument_templates() {
    assert_eq!(expand(&["ngd", "Used as filler"]), "Used as filler");
    assert_eq!(expand(&["gloss", "of a horse"]), "of a horse");
    assert_eq!(expand(&["w", "en", "Vienna"]), "Vienna");
    assert_eq!(expand(&["m", "de", "Wien"]), "Wien");
}

#[test]
fn of_family_prefixes() {
    assert_eq!(
        expand(&["alternative form of", "en", "colour"]),
        "Alternative form of colour"
    );
    assert_eq!(expand(&["alt form", "en", "grey"]), "Alternative form of grey");
    assert_eq!(expand(&["infl of", "en", "run"]), "Inflected form of run");
    assert_eq!(expand(&["syn of", "en", "big"]), "Synonym of big");
    assert_eq!(expand(&["synonym of", "en", "big"]), "Synonym of big");
    assert_eq!(expand(&["acronym of", "en", "laser"]), "Acronym of laser");
    assert_eq!(expand(&["initialism of", "en", "ABC"]), "Initialism of ABC");
    assert_eq!(expand(&["abbreviation of", "en", "Dr"]), "Abbreviation of Dr");
    assert_eq!(expand(&["clipping of", "en", "math"]), "Clipping of math");
    assert_eq!(
        expand(&["alternative case form of", "en", "God"]),
        "Alternative case form of God"
    );
}

#[test]
fn ja_and_sumti_forms() {
    assert_eq!(
        expand(&["ja-romanization of", "neko"]),
        "Rōmaji transcription of neko"
    );
    assert_eq!(expand(&["ja-def", "猫"]), "猫:");
    assert_eq!(expand(&["sumti", "1"]), "x1");
}

#[test]
fn defdate_brackets() {
    assert_eq!(expand(&["defdate", "from 1864"]), "[from 1864]");
}

#[test]
fn taxfmt_joins_all_but_last() {
    assert_eq!(expand(&["taxfmt", "Felis", "catus", "ver=230907"]), "Felis catus");
    assert_eq!(expand(&["taxfmt", "only"]), "");
}

#[test]
fn place_template_delegates_to_parser() {
    assert_eq!(
        expand(&["place", "en", "ucomm", "in Texas"]),
        "(Place) (Unincorporated Community) in Texas"
    );
}

#[test]
fn alt_sp_strips_t_marker_and_parses_place() {
    assert_eq!(
        expand(&["alt sp", "en", "color", "t=state/texas"]),
        "Alt spelling of color Texas,"
    );
    assert_eq!(
        expand(&["alt sp", "en", "color", "state/texas"]),
        "Alt spelling of color Texas,"
    );
}
