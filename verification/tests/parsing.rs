use levenshtein::{parse_strategy, Strategy};

#[test]
fn recognized_tags_parse_to_their_strategies() {
    assert!(matches!(parse_strategy("naive"), Ok(Strategy::Naive)));
    assert!(matches!(parse_strategy("idiomatic"), Ok(Strategy::Idiomatic)));
    assert!(matches!(parse_strategy("ideomatic"), Ok(Strategy::Idiomatic)));
    assert!(matches!(parse_strategy("matrix"), Ok(Strategy::Matrix)));
}

#[test]
fn unknown_tag_fails_and_carries_the_text() {
    let err = parse_strategy("bogus").unwrap_err();
    assert_eq!(err.tag, "bogus");
    assert_eq!(err.message(), "unknown strategy bogus");
}

#[test]
fn parsing_is_case_sensitive_and_exact() {
    assert!(parse_strategy("Naive").is_err());
    assert!(parse_strategy("MATRIX").is_err());
    assert!(parse_strategy("naive ").is_err());
    assert!(parse_strategy("").is_err());
    let err = parse_strategy("idiomatic2").unwrap_err();
    assert_eq!(err.tag, "idiomatic2");
}
