use define3::place::parse_place;

fn cv(s: &str) -> Vec<char> {
    s.chars().collect()
}

fn place(tokens: &[&str]) -> String {
    let toks: Vec<Vec<char>> = tokens.iter().map(|t| cv(t)).collect();
    parse_place(&toks).into_iter().collect()
}

#[test]
fn state_with_seat() {
    // The state rule emits `California, ` and the seat rule emits a fragment
    // with its own leading space, so two spaces stand between them.
    assert_eq!(
        place(&["state/california", "seat=Sacramento"]),
        "California,  (Seat Sacramento)"
    );
}

#[test]
fn unincorporated_community_in_state() {
    assert_eq!(place(&["ucomm", "in", "Texas"]), "(Unincorporated Community) in Texas");
}

#[test]
fn literal_keywords() {
    assert_eq!(place(&["CDP"]), "(Census-Designated Place)");
    assert_eq!(place(&["cdp"]), "(Census-Designated Place)");
    assert_eq!(place(&["minor city"]), "(Minor City)");
    assert_eq!(place(&["electoral division"]), "(Electoral Division)");
}

#[test]
fn seat_takes_value_after_last_equals() {
    // Only trailing whitespace is trimmed: the seat fragment's own leading
    // space survives when it opens the buffer.
    assert_eq!(place(&["seat=a=Boise"]), " (Seat Boise)");
    assert_eq!(place(&["seat="]), " (Seat )");
}

#[test]
fn prefixed_tokens_strip_their_prefix() {
    assert_eq!(place(&["c/us"]), "us");
    assert_eq!(place(&["cc/US"]), "US");
    assert_eq!(place(&["s/texas", "c/us"]), "texas, us");
    assert_eq!(place(&["co/Dallas", "s/texas"]), "Dallas, texas,");
}

#[test]
fn state_city_town_title_case_first_character() {
    assert_eq!(place(&["state/california"]), "California,");
    assert_eq!(place(&["city/houston"]), "Houston,");
    assert_eq!(place(&["town/llano"]), "Llano,");
}

#[test]
fn prefecture_and_autonomous_region() {
    assert_eq!(place(&["prefecture:Suf/nagano"]), "Nagano prefecture,");
    assert_eq!(place(&["ar:Suf/tibet"]), "Tibet Autonomous Region,");
    assert_eq!(place(&["prefecture:aichi"]), "Aichi prefecture,");
}

#[test]
fn in_prefix_and_and_pass_through() {
    assert_eq!(place(&["in the south"]), "in the south");
    assert_eq!(place(&["s/a", "and", "s/b"]), "a, and b,");
}

#[test]
fn one_of_compound_recurses() {
    assert_eq!(
        place(&["One of <<s/texas s/utah>>"]),
        "One of texas, utah,"
    );
}

#[test]
fn unknown_tokens_are_verbatim() {
    assert_eq!(place(&["somewhere", "nice"]), "somewhere nice");
    assert_eq!(place(&[]), "");
}

#[test]
fn adjacent_commas_collapse() {
    assert_eq!(place(&["s/a,"]), "a,");
}
