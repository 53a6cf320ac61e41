use ltengine::languages::{
    detect_lang, find_code_of_name, get_language_from_code, language_at, languages,
    match_detection,
};

#[test]
fn deployment_languages_resolve() {
    for code in ["de", "en", "uk"] {
        assert_eq!(get_language_from_code(code).unwrap().code, code);
    }
    assert_eq!(get_language_from_code("pb").unwrap().code, "pt-BR");
    assert_eq!(
        get_language_from_code("pt-BR").unwrap().name,
        "Portuguese (Brazil)"
    );
    assert!(get_language_from_code("xx").is_none());
}

#[test]
fn detects_deployment_languages() {
    let cases = [
        (
            "Das ist ein ganz normaler deutscher Satz über das Wetter.",
            "de",
        ),
        (
            "This is a perfectly normal English sentence about the weather.",
            "en",
        ),
        ("Це звичайне українське речення про погоду сьогодні.", "uk"),
    ];
    for (text, code) in cases {
        assert_eq!(detect_lang(text).unwrap().language.code, code, "{text}");
    }
}

#[test]
fn confidence_is_a_share() {
    let detection = detect_lang("Das ist ein ganz normaler deutscher Satz.").unwrap();
    let confidence = f64::from_bits(detection.confidence_bits);
    assert!(confidence > 0.0 && confidence <= 1.0);
    assert!(detect_lang("").is_none());
    assert!(detect_lang("123 !?").is_none());
}

#[test]
fn every_language_is_found_by_its_codes() {
    let all = languages();
    assert_eq!(all.len(), 49);
    for language in &all {
        assert_eq!(get_language_from_code(language.code).unwrap().code, language.code);
        assert_eq!(
            get_language_from_code(language.internal_code).unwrap().code,
            language.code
        );
        assert_eq!(language.targets.len(), 49);
        assert!(language.targets.contains(&language.code));
    }
}

#[test]
fn detectable_languages_are_those_of_whatlang() {
    let all = languages();
    let code_of = |code: &str| all.iter().find(|l| l.code == code).unwrap().lang_detect;
    assert_eq!(code_of("de"), Some("deu"));
    assert_eq!(code_of("uk"), Some("ukr"));
    assert_eq!(code_of("zh-Hans"), Some("cmn"));
    assert_eq!(code_of("ga"), None);
    for language in &all {
        if let Some(code) = language.lang_detect {
            assert!(whatlang::Lang::from_code(code).is_some());
        }
    }
}

#[test]
fn names_are_matched_with_the_last_of_equals() {
    let known = vec![("aaa", "German"), ("cmn", "Mandarin"), ("bbb", "German")];
    assert_eq!(find_code_of_name(&known, "German"), Some("bbb"));
    assert_eq!(find_code_of_name(&known, "Chinese"), Some("cmn"));
    assert_eq!(find_code_of_name(&known, "Mandarin"), None);
    let arabic = language_at(&known, 0);
    assert_eq!(arabic.lang_detect, None);
}

#[test]
fn detections_are_matched_with_served_languages() {
    let all = languages();
    let detection = match_detection(&all, Some(("deu", 7))).unwrap();
    assert_eq!(detection.language.code, "de");
    assert_eq!(detection.confidence_bits, 7);
    assert!(match_detection(&all, Some(("xxx", 7))).is_none());
    assert!(match_detection(&all, None).is_none());
}
