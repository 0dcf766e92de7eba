use wolf_screen_recorder::i18n::I18nEngine;

fn sources() -> Vec<(String, String)> {
    vec![
        ("en".to_string(), r#"{"hello": "Hello", "only_en": "English only", "count": 5}"#.to_string()),
        ("ro".to_string(), r#"{"hello": "Salut", "record": "Înregistrează"}"#.to_string()),
        ("xx".to_string(), "not json at all".to_string()),
        ("yy".to_string(), "[1, 2, 3]".to_string()),
    ]
}

#[test]
fn english_is_active_at_first() {
    let e = I18nEngine::new(&sources());
    assert_eq!(e.get_language(), "en");
    assert_eq!(e.t("hello"), "Hello");
}

#[test]
fn active_language_first_then_english_then_key() {
    let mut e = I18nEngine::new(&sources());
    e.set_language("ro");
    assert_eq!(e.get_language(), "ro");
    assert_eq!(e.t("hello"), "Salut");
    assert_eq!(e.t("record"), "Înregistrează");
    assert_eq!(e.t("only_en"), "English only");
    assert_eq!(e.t("missing.key"), "missing.key");
}

#[test]
fn unknown_language_is_refused() {
    let mut e = I18nEngine::new(&sources());
    e.set_language("ro");
    e.set_language("de");
    assert_eq!(e.get_language(), "ro");
    // Sources that are not JSON objects give no dictionary.
    e.set_language("xx");
    assert_eq!(e.get_language(), "ro");
    e.set_language("yy");
    assert_eq!(e.get_language(), "ro");
}

#[test]
fn non_string_members_are_skipped() {
    let e = I18nEngine::new(&sources());
    assert_eq!(e.t("count"), "count");
}

#[test]
fn no_sources_gives_the_keys_back() {
    let mut e = I18nEngine::new(&vec![]);
    assert_eq!(e.t("status.ready"), "status.ready");
    e.set_language("ro");
    assert_eq!(e.get_language(), "en");
}

#[test]
fn engine_from_parsed_members() {
    let parsed = vec![
        (
            "en".to_string(),
            Some(vec![
                ("a".to_string(), Some("A".to_string())),
                ("b".to_string(), None),
                ("a".to_string(), Some("A2".to_string())),
            ]),
        ),
        ("fr".to_string(), None),
        ("de".to_string(), Some(vec![("c".to_string(), Some("C".to_string()))])),
    ];
    let mut e = I18nEngine::from_parsed(&parsed);
    assert_eq!(e.get_language(), "en");
    assert_eq!(e.t("a"), "A2");
    assert_eq!(e.t("b"), "b");
    e.set_language("fr");
    assert_eq!(e.get_language(), "en");
    e.set_language("de");
    assert_eq!(e.t("c"), "C");
    assert_eq!(e.t("a"), "A2");
}
