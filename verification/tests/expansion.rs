use stduritemplate::expand;
use stduritemplate::ExpansionError;
use stduritemplate::Substitutions;
use stduritemplate::Value;

fn scalar(name: &str, v: &str) -> (String, Value) {
    (name.to_string(), Value::Scalar(v.to_string()))
}

fn list(name: &str, vs: &[&str]) -> (String, Value) {
    (name.to_string(), Value::List(vs.iter().map(|s| s.to_string()).collect()))
}

fn pairs(name: &str, ps: &[(&str, &str)]) -> (String, Value) {
    (
        name.to_string(),
        Value::Pairs(ps.iter().map(|(k, v)| (k.to_string(), v.to_string())).collect()),
    )
}

#[test]
fn literal_passthrough_no_braces() {
    let subs: Substitutions = vec![scalar("x", "unused")];
    assert_eq!(expand("hello world/, nothing here", &subs).unwrap(), "hello world/, nothing here");
    let empty: Substitutions = vec![];
    assert_eq!(expand("", &empty).unwrap(), "");
}

#[test]
fn absent_token_elides_without_consuming_first_slot() {
    let subs: Substitutions = vec![scalar("y", "5")];
    assert_eq!(expand("{x}{y}", &subs).unwrap(), "5");
}

#[test]
fn empty_list_and_map_elide() {
    let subs: Substitutions = vec![list("l", &[]), pairs("m", &[]), scalar("y", "5")];
    assert_eq!(expand("{/l,m,y}", &subs).unwrap(), "/5");
}

#[test]
fn operator_table_fidelity() {
    let subs: Substitutions = vec![scalar("var", "value")];
    assert_eq!(expand("{var}", &subs).unwrap(), "value");
    assert_eq!(expand("{+var}", &subs).unwrap(), "value");
    assert_eq!(expand("{#var}", &subs).unwrap(), "#value");
    assert_eq!(expand("{.var}", &subs).unwrap(), ".value");
    assert_eq!(expand("{/var}", &subs).unwrap(), "/value");
    assert_eq!(expand("{;var}", &subs).unwrap(), ";var=value");
    assert_eq!(expand("{?var}", &subs).unwrap(), "?var=value");
    assert_eq!(expand("{&var}", &subs).unwrap(), "&var=value");
}

#[test]
fn list_rendering() {
    let subs: Substitutions = vec![list("list", &["a", "b", "c"])];
    assert_eq!(expand("{list}", &subs).unwrap(), "a,b,c");
    assert_eq!(expand("{list*}", &subs).unwrap(), "a,b,c");
    assert_eq!(expand("{/list*}", &subs).unwrap(), "/a/b/c");
}

#[test]
fn list_rendering_named_forms() {
    let subs: Substitutions = vec![list("list", &["a", "b", "c"])];
    assert_eq!(expand("{?list}", &subs).unwrap(), "?list=a,b,c");
    assert_eq!(expand("{?list*}", &subs).unwrap(), "?list=a&list=b&list=c");
    assert_eq!(expand("{;list}", &subs).unwrap(), ";list=a,b,c");
}

#[test]
fn map_rendering_single_entry() {
    let subs: Substitutions = vec![pairs("m", &[("a", "1")])];
    assert_eq!(expand("{m}", &subs).unwrap(), "a,1");
    assert_eq!(expand("{m*}", &subs).unwrap(), "a=1");
}

#[test]
fn map_rendering_two_entries_in_order() {
    let subs: Substitutions = vec![pairs("m", &[("a", "1"), ("b", "2")])];
    assert_eq!(expand("{m}", &subs).unwrap(), "a,1,b,2");
    assert_eq!(expand("{m*}", &subs).unwrap(), "a=1,b=2");
    assert_eq!(expand("{?m*}", &subs).unwrap(), "?a=1&b=2");
}

#[test]
fn truncation_counts_characters() {
    let subs: Substitutions = vec![scalar("var", "hello")];
    assert_eq!(expand("{var:3}", &subs).unwrap(), "hel");
    assert_eq!(expand("{var:9}", &subs).unwrap(), "hello");
}

#[test]
fn truncation_applies_before_encoding() {
    let subs: Substitutions = vec![scalar("var", "a b")];
    assert_eq!(expand("{var:2}", &subs).unwrap(), "a%20");
}

#[test]
fn truncation_to_zero_is_a_hard_zero() {
    let subs: Substitutions = vec![scalar("var", "hello")];
    assert_eq!(expand("{var:0}", &subs).unwrap(), "");
    assert_eq!(expand("{?var:0}", &subs).unwrap(), "?var=");
}

#[test]
fn percent_encoding_space() {
    let subs: Substitutions = vec![scalar("var", "a b")];
    assert_eq!(expand("{var}", &subs).unwrap(), "a%20b");
    assert_eq!(expand("{+var}", &subs).unwrap(), "a%20b");
}

#[test]
fn preencoded_triple_preserved_only_under_reserved_operators() {
    let subs: Substitutions = vec![scalar("var", "%20")];
    assert_eq!(expand("{+var}", &subs).unwrap(), "%20");
    assert_eq!(expand("{#var}", &subs).unwrap(), "#%20");
    assert_eq!(expand("{var}", &subs).unwrap(), "%2520");
}

#[test]
fn percent_not_starting_a_triple_is_reencoded() {
    let subs: Substitutions = vec![scalar("var", "%zz"), scalar("tail", "a%2")];
    assert_eq!(expand("{+var}", &subs).unwrap(), "%25zz");
    assert_eq!(expand("{+tail}", &subs).unwrap(), "a%252");
}

#[test]
fn non_ascii_is_utf8_percent_encoded() {
    let subs: Substitutions = vec![scalar("var", "\u{FC}x")];
    assert_eq!(expand("{var}", &subs).unwrap(), "%C3%BCx");
    assert_eq!(expand("{var:1}", &subs).unwrap(), "%C3%BC");
}

#[test]
fn empty_scalar_still_expands() {
    let subs: Substitutions = vec![scalar("x", "")];
    assert_eq!(expand("{x}", &subs).unwrap(), "");
    assert_eq!(expand("{;x}", &subs).unwrap(), ";x");
    assert_eq!(expand("{?x}", &subs).unwrap(), "?x=");
}

#[test]
fn first_token_slot_resets_per_group() {
    let subs: Substitutions = vec![scalar("a", "1"), scalar("b", "2")];
    assert_eq!(expand("{?a,b}", &subs).unwrap(), "?a=1&b=2");
    assert_eq!(expand("{#a}{#b}", &subs).unwrap(), "#1#2");
}

#[test]
fn commas_outside_tokens_pass_through() {
    let subs: Substitutions = vec![scalar("a", "1")];
    assert_eq!(expand("x,y{a},z", &subs).unwrap(), "x,y1,z");
}

#[test]
fn error_invalid_character_opening_a_name() {
    let subs: Substitutions = vec![];
    assert_eq!(expand("{-bad}", &subs).unwrap_err(), ExpansionError::InvalidCharacter('-', 1));
}

#[test]
fn error_invalid_character_inside_a_name() {
    let subs: Substitutions = vec![];
    assert_eq!(expand("{a=b}", &subs).unwrap_err(), ExpansionError::InvalidCharacter('=', 2));
}

#[test]
fn error_unterminated_token() {
    let subs: Substitutions = vec![scalar("abc", "v")];
    assert_eq!(expand("{abc", &subs).unwrap_err(), ExpansionError::InvalidToken);
}

#[test]
fn error_stray_close_brace() {
    let subs: Substitutions = vec![];
    assert_eq!(expand("ab}c", &subs).unwrap_err(), ExpansionError::InvalidToken);
}

#[test]
fn error_non_digit_in_max_length_modifier() {
    let subs: Substitutions = vec![scalar("abc", "v")];
    assert_eq!(expand("{abc:x}", &subs).unwrap_err(), ExpansionError::InvalidCharacter('x', 5));
}

#[test]
fn error_max_length_overflow() {
    let subs: Substitutions = vec![scalar("a", "v")];
    let template = "{a:9999999999999999999999999}";
    let col = template.find('}').unwrap();
    assert_eq!(expand(template, &subs).unwrap_err(), ExpansionError::InvalidMaxChars(col));
}

#[test]
fn error_trimming_a_map() {
    let subs: Substitutions = vec![pairs("m", &[("a", "1")])];
    assert_eq!(expand("{m:3}", &subs).unwrap_err(), ExpansionError::TrimNotAllowedOnMap);
}

#[test]
fn empty_variable_specification_is_rejected() {
    let subs: Substitutions = vec![scalar("x", "v")];
    assert_eq!(expand("{x,}", &subs).unwrap_err(), ExpansionError::InvalidToken);
    assert_eq!(expand("{+}", &subs).unwrap_err(), ExpansionError::InvalidToken);
}

#[test]
fn expansion_is_deterministic_and_literals_idempotent() {
    let subs: Substitutions = vec![scalar("var", "a b"), list("l", &["x", "y"])];
    let template = "/base{/var,l}{?var}";
    let r1 = expand(template, &subs).unwrap();
    let r2 = expand(template, &subs).unwrap();
    assert_eq!(r1, r2);

    let literal = "no tokens here, at all";
    let once = expand(literal, &subs).unwrap();
    let twice = expand(&once, &subs).unwrap();
    assert_eq!(once, literal);
    assert_eq!(twice, once);
}

#[test]
fn duplicate_names_resolve_to_the_first_binding() {
    let subs: Substitutions = vec![scalar("x", "first"), scalar("x", "second")];
    assert_eq!(expand("{x}", &subs).unwrap(), "first");
}

#[test]
fn empty_token_group_expands_to_nothing() {
    let subs: Substitutions = vec![scalar("x", "v")];
    assert_eq!(expand("a{}b", &subs).unwrap(), "ab");
}

#[test]
fn character_classifiers() {
    assert!(!stduritemplate::is_surrogate('a'));
    assert!(stduritemplate::is_iprivate('\u{E000}'));
    assert!(!stduritemplate::is_iprivate('e'));
    assert!(stduritemplate::is_ucschar('\u{A0}'));
    assert!(!stduritemplate::is_ucschar('z'));
}
