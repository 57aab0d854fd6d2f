use regex::Regex;
use wikipedia_graph::codegen::{
    code_from_url, is_number, languages_as_enum_code, languages_from_sitematrix,
    try_languages_from_sitematrix, wikipedia_code_variants, LanguageData, WikimediaCode,
};
use wikipedia_graph::text::capitalize;

fn by_pattern(url: &str) -> Option<String> {
    Regex::new(r#"https://([a-z]*)\..+"#)
        .unwrap()
        .captures(url)
        .map(|capture| capture.extract::<1>().1[0].to_string())
}

fn german() -> LanguageData {
    LanguageData::new(
        "de",
        "Deutsch",
        "German",
        vec![
            (WikimediaCode::Wikipedia, "de".to_string()),
            (WikimediaCode::Wiktionary, "de".to_string()),
        ],
    )
}

#[test]
fn the_words_for_the_projects() {
    let words = [
        (WikimediaCode::Wikipedia, "wiki"),
        (WikimediaCode::Wiktionary, "wiktionary"),
        (WikimediaCode::Wikinews, "wikinews"),
        (WikimediaCode::Wikiquote, "wikiquote"),
        (WikimediaCode::Wikisource, "wikisource"),
        (WikimediaCode::Wikiversity, "wikiversity"),
        (WikimediaCode::Wikivoayge, "wikivoyage"),
    ];
    for (project, word) in words {
        assert_eq!(WikimediaCode::from_str(word), Some(project));
        assert_eq!(project.as_str(), word);
    }
    assert_eq!(WikimediaCode::Wikibooks.as_str(), "wikibooks");
    for word in ["wikibooks", "", "Wiki", "wikipedia", "wiki "] {
        assert_eq!(WikimediaCode::from_str(word), None);
    }
    assert_eq!(wikipedia_code_variants().len(), 8);
    assert_eq!(wikipedia_code_variants()[2], WikimediaCode::Wikibooks);
}

#[test]
fn the_arms_of_a_language() {
    let language = german();
    assert_eq!(language.enum_variant_unqualified(), "German");
    assert_eq!(language.enum_variant(), "WikiLanguages::German");
    assert_eq!(language.name_match_arm(), "WikiLanguages::German => \"Deutsch\",\n");
    assert_eq!(
        language.code_match_arm(&WikimediaCode::Wikipedia),
        Some("WikiLanguages::German => \"de\",\n".to_string())
    );
    assert_eq!(
        language.option_code_match_arm(&WikimediaCode::Wiktionary),
        Some("WikiLanguages::German => Some(\"de\"),\n".to_string())
    );
    assert_eq!(language.code_match_arm(&WikimediaCode::Wikinews), None);
    assert_eq!(language.option_code_match_arm(&WikimediaCode::Wikibooks), None);
}

#[test]
fn the_variant_is_made_of_letters_and_digits() {
    let variant = |local_name: &str| {
        LanguageData::new("x", "x", local_name, Vec::new()).enum_variant_unqualified()
    };
    assert_eq!(variant("norwegian (bokmål)"), "Norwegianbokml");
    assert_eq!(variant("ancient greek"), "AncientGreek");
    assert_eq!(variant("  old_english "), "OldEnglish");
    assert_eq!(variant("Min Nan Chinese"), "MinNanChinese");
    assert_eq!(variant("ñ"), "");
    assert_eq!(capitalize("norwegian (bokmål)".to_string()), "Norwegian (bokmål)");
    assert_eq!(capitalize(" a  b\t\tc ".to_string()), "A B\tC");
}

#[test]
fn of_codes_given_twice_the_later_counts() {
    let language = LanguageData::new(
        "no",
        "norsk",
        "Norwegian",
        vec![
            (WikimediaCode::Wikipedia, "nb".to_string()),
            (WikimediaCode::Wikinews, "no".to_string()),
            (WikimediaCode::Wikipedia, "no".to_string()),
        ],
    );
    assert_eq!(
        language.code_match_arm(&WikimediaCode::Wikipedia),
        Some("WikiLanguages::Norwegian => \"no\",\n".to_string())
    );
}

#[test]
fn the_code_in_an_address() {
    assert_eq!(code_from_url("https://de.wikipedia.org"), Some("de".to_string()));
    assert_eq!(code_from_url("see https://en.wiktionary.org/wiki"), Some("en".to_string()));
    assert_eq!(code_from_url("https://.org"), Some("".to_string()));
    assert_eq!(code_from_url("https://zh-min-nan.wikipedia.org"), None);
    assert_eq!(code_from_url("http://de.wikipedia.org"), None);
    assert_eq!(code_from_url("https://de."), None);
    assert_eq!(code_from_url("https://de.\n"), None);
    assert_eq!(code_from_url("https://DE.wikipedia.org"), None);
    assert_eq!(code_from_url("https://x https://fr.wikipedia.org"), Some("fr".to_string()));
    assert_eq!(code_from_url(""), None);
    for url in [
        "https://de.wikipedia.org",
        "https://de",
        "https://de.",
        "https://de.x",
        "https://de.\nx",
        "https://https://a.b",
        "xhttps://ab.c https://de.f",
        "https://a1.b https://c.d",
        "https://é.b https://c.dé",
        "https://.",
        "https://..",
        "https:/a.b",
        "HTTPS://a.b",
    ] {
        assert_eq!(code_from_url(url), by_pattern(url), "{:?}", url);
    }
}

#[test]
fn the_languages_of_the_site_matrix() {
    let text = r#"{
        "count": 3,
        "0": {"code":"de","name":"Deutsch","localname":"German","site":[
            {"url":"https://de.wikipedia.org","dbname":"dewiki","code":"wiki"},
            {"url":"https://de.wiktionary.org","dbname":"dewiktionary","code":"wiktionary"},
            {"url":"https://de.wikibooks.org","dbname":"dewikibooks","code":"wikibooks"},
            {"url":"http://de.wikinews.org","code":"wikinews"},
            {"code":"wikiquote"},
            {"url":"https://de.wikivoyage.org"}
        ]},
        "1": {"code":"en","name":"English","localname":"English","site":[]},
        "2": {"code":"xx","name":"No sites","localname":"None"},
        "3": {"code":"yy","localname":"No name","site":[]},
        "x": {"code":"zz","name":"No number","localname":"None","site":[]},
        "specials": [{"url":"https://commons.wikimedia.org","code":"commons"}]
    }"#;
    let matrix: serde_json::Value = serde_json::from_str(text).unwrap();
    let languages = languages_from_sitematrix(&matrix);
    assert_eq!(languages.len(), 2);
    assert_eq!(languages[0].enum_variant(), "WikiLanguages::German");
    assert_eq!(languages[0].name_match_arm(), "WikiLanguages::German => \"Deutsch\",\n");
    assert_eq!(
        languages[0].code_match_arm(&WikimediaCode::Wikipedia),
        Some("WikiLanguages::German => \"de\",\n".to_string())
    );
    assert!(languages[0].code_match_arm(&WikimediaCode::Wiktionary).is_some());
    for project in [
        WikimediaCode::Wikibooks,
        WikimediaCode::Wikinews,
        WikimediaCode::Wikiquote,
        WikimediaCode::Wikivoayge,
    ] {
        assert_eq!(languages[0].code_match_arm(&project), None);
    }
    assert_eq!(languages[1].enum_variant_unqualified(), "English");
    assert_eq!(languages[1].code_match_arm(&WikimediaCode::Wikipedia), None);
    assert!(languages_from_sitematrix(&serde_json::from_str("{}").unwrap()).is_empty());
    assert_eq!(try_languages_from_sitematrix(&matrix).unwrap().len(), 2);
    for text in ["[]", "1", "\"0\"", "null"] {
        assert!(try_languages_from_sitematrix(&serde_json::from_str(text).unwrap()).is_none());
    }
}

#[test]
fn the_text_of_the_enum() {
    let languages = vec![
        german(),
        LanguageData::new("en", "English", "English", vec![(WikimediaCode::Wikipedia, "en".to_string())]),
        LanguageData::new(
            "gsw",
            "Alemannisch",
            "German",
            vec![(WikimediaCode::Wikipedia, "als".to_string())],
        ),
    ];
    let code = languages_as_enum_code(languages);
    assert_eq!(code.variants, vec!["German", "English", "GermanGsw"]);
    assert_eq!(code.code_functions.len(), 8);
    assert_eq!(code.code_functions[0].0, "as_code_wiki");
    assert_eq!(
        code.code_functions[0].1,
        "match self {\n    WikiLanguages::German => Some(\"de\"),\n    WikiLanguages::English => Some(\"en\"),\n    WikiLanguages::GermanGsw => Some(\"als\"),\n    _ => None,\n}"
    );
    assert_eq!(code.code_functions[1].0, "as_code_wiktionary");
    assert_eq!(
        code.code_functions[1].1,
        "match self {\n    WikiLanguages::German => Some(\"de\"),\n    _ => None,\n}"
    );
    assert_eq!(code.code_functions[2].0, "as_code_wikibooks");
    assert_eq!(code.code_functions[2].1, "match self {\n    _ => None,\n}");
    assert_eq!(code.code_functions[7].0, "as_code_wikivoyage");
    assert_eq!(
        code.name_function,
        "match self {\n    WikiLanguages::German => \"Deutsch\",\n    WikiLanguages::English => \"English\",\n    WikiLanguages::GermanGsw => \"Alemannisch\",\n}"
    );
    let empty = languages_as_enum_code(Vec::new());
    assert!(empty.variants.is_empty());
    assert_eq!(empty.name_function, "match self {\n}");
}

#[test]
fn a_number_is_read_as_the_standard_library_reads_it() {
    for text in [
        "",
        "0",
        "7",
        "007",
        "+7",
        "+",
        "++7",
        "-7",
        "-0",
        "7+",
        " 7",
        "7 ",
        "1_000",
        "12a",
        "a12",
        "٣",
        "１２",
        "count",
        "specials",
        "18446744073709551615",
        "18446744073709551616",
        "+18446744073709551615",
        "018446744073709551615",
        "99999999999999999999",
        "184467440737095516150",
        "1844674407370955161",
        "0000000000000000000000000000000000000001",
    ] {
        assert_eq!(is_number(text), text.parse::<u64>().is_ok(), "{:?}", text);
    }
    for number in 0..2000u64 {
        assert!(is_number(&number.to_string()));
        assert!(is_number(&(u64::MAX - number).to_string()));
        assert!(!is_number(&format!("{}", u64::MAX as u128 + 1 + number as u128)));
    }
}
