use deeplx_pro::lang::{
    find_lang, find_lang_uppercased, languages, resolve_source_lang, resolve_target_lang,
    source_lang_from_uppercased, target_lang_from_uppercased,
};

#[test]
fn lang_aliases_resolve() {
    assert_eq!(resolve_target_lang("EN").unwrap(), "en-US");
    assert_eq!(resolve_target_lang("en").unwrap(), "en-US");
    assert_eq!(resolve_target_lang("PT").unwrap(), "pt-BR");
    assert_eq!(resolve_target_lang("ZH").unwrap(), "zh-Hans");
    assert_eq!(resolve_target_lang("ZH-HANT").unwrap(), "zh-Hant");
    assert_eq!(resolve_target_lang("zh_hans").unwrap(), "zh-Hans");
    assert!(resolve_target_lang("XX").is_err());
}

#[test]
fn source_lang_auto_returns_none() {
    assert_eq!(resolve_source_lang("").unwrap(), None);
    assert_eq!(resolve_source_lang("auto").unwrap(), None);
    assert_eq!(resolve_source_lang("AUTO").unwrap(), None);
    assert_eq!(resolve_source_lang("EN").unwrap(), Some("en-US"));
}

#[test]
fn languages_table_complete() {
    let mut seen = std::collections::HashSet::new();
    for l in languages() {
        assert!(!l.code.is_empty());
        assert!(!l.name.is_empty());
        assert!(!l.internal.is_empty());
        assert!(seen.insert(l.code), "duplicate code: {}", l.code);
    }
    let formality_true: Vec<&str> = languages()
        .iter()
        .filter(|l| l.formality)
        .map(|l| l.code)
        .collect();
    for expected in ["DE", "FR", "IT", "ES", "ES-419", "NL", "PL", "PT-BR", "PT-PT", "RU", "JA"] {
        assert!(formality_true.contains(&expected), "{} should support formality", expected);
    }
}

#[test]
fn languages_table_has_thirty_six_entries_and_eleven_formal() {
    let table = languages();
    assert_eq!(table.len(), 36);
    assert_eq!(table.iter().filter(|l| l.formality).count(), 11);
    assert_eq!(table[0].code, "AR");
    assert_eq!(table[35].code, "ZH-HANT");
}

#[test]
fn target_lang_error_message_names_the_code() {
    assert_eq!(resolve_target_lang("XX").unwrap_err(), "unsupported target language: XX");
    assert_eq!(resolve_target_lang("xx").unwrap_err(), "unsupported target language: xx");
}

#[test]
fn source_lang_error_message_names_the_normalized_code() {
    assert_eq!(resolve_source_lang("xx_yy").unwrap_err(), "unsupported source language: XX-YY");
}

#[test]
fn lang_lookup_is_case_insensitive_and_reads_underscore_as_dash() {
    assert_eq!(resolve_target_lang("en-gb").unwrap(), "en-GB");
    assert_eq!(resolve_target_lang("Es_419").unwrap(), "es-419");
    assert_eq!(resolve_source_lang("pt_pt").unwrap(), Some("pt-PT"));
    assert_eq!(resolve_source_lang("zh").unwrap(), Some("zh-Hans"));
}

#[test]
fn find_lang_gives_the_whole_entry() {
    let l = find_lang("de").unwrap();
    assert_eq!(l.code, "DE");
    assert_eq!(l.name, "German");
    assert_eq!(l.internal, "de");
    assert!(l.formality);
    assert!(find_lang("").is_none());
    assert!(find_lang("EN-AU").is_none());
}

#[test]
fn uppercased_lookup_does_not_upper_case_again() {
    assert!(find_lang_uppercased("en").is_none());
    assert_eq!(find_lang_uppercased("EN").unwrap().internal, "en-US");
    assert_eq!(find_lang_uppercased("ZH_HANT").unwrap().internal, "zh-Hant");
    assert_eq!(target_lang_from_uppercased("de", "DE").unwrap(), "de");
    assert_eq!(target_lang_from_uppercased("q", "Q").unwrap_err(), "unsupported target language: q");
    assert_eq!(source_lang_from_uppercased("AUTO", "AUTO").unwrap(), None);
    assert_eq!(source_lang_from_uppercased("", "").unwrap(), None);
    assert_eq!(source_lang_from_uppercased("JA", "JA").unwrap(), Some("ja"));
    assert_eq!(
        source_lang_from_uppercased("A_B", "A-B").unwrap_err(),
        "unsupported source language: A-B"
    );
}

#[test]
fn listed_and_internal_codes_resolve_to_their_entry() {
    for l in languages() {
        assert_eq!(find_lang(l.code).unwrap().code, l.code);
        assert_eq!(find_lang(l.internal).unwrap().code, l.code);
        assert_eq!(resolve_target_lang(l.internal).unwrap(), l.internal);
    }
}

#[test]
fn codes_differing_in_ascii_case_select_the_same_language() {
    assert_eq!(find_lang("zH-hAnT").unwrap().code, "ZH-HANT");
    assert_eq!(find_lang("Pt-Br").unwrap().code, find_lang("pT-bR").unwrap().code);
    assert_eq!(find_lang("eN").unwrap().internal, "en-US");
    assert!(find_lang("Xx").is_none() && find_lang("xX").is_none());
}
