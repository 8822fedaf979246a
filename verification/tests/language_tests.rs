use ytapp::language::{parse_language, Language};

#[test]
fn parses_known_codes() {
    assert!(matches!(parse_language(Some("en".into())), Some(Language::English)));
    assert!(matches!(parse_language(Some("ne".into())), Some(Language::Nepali)));
}

#[test]
fn handles_auto_and_unknown() {
    assert!(parse_language(Some("auto".into())).is_none());
    assert!(parse_language(Some("xx".into())).is_none());
    assert!(parse_language(None).is_none());
}

#[test]
fn parses_full_names() {
    assert!(matches!(parse_language(Some("spanish".into())), Some(Language::Spanish)));
    assert!(matches!(parse_language(Some("gujarati".into())), Some(Language::Gujarati)));
    assert!(matches!(parse_language(Some("maori".into())), Some(Language::Maori)));
}

#[test]
fn codes_are_case_sensitive() {
    assert!(parse_language(Some("EN".into())).is_none());
    assert!(parse_language(Some("English".into())).is_none());
}
