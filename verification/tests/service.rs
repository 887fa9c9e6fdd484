use deeplx_pro::api::{
    api_key_accepts, check_api_key, check_v2_texts, health, language_entries, legacy_response,
    listen_address, proxy_kind, source_or_auto, translate_headers, v2_response, warmup_headers,
    ProxyKind, TextField, WARMUP_URL,
};
use deeplx_pro::error::TranslateError;
use deeplx_pro::instance::{format_instance_id, new_instance_id};
use deeplx_pro::text::{
    count_chars, is_blank, replace_underscores, starts_with, str_eq_ignore_ascii_case,
};

#[test]
fn text_field_single_or_list() {
    assert_eq!(TextField::Single("a".to_string()).into_texts(), vec!["a".to_string()]);
    assert_eq!(
        TextField::Multiple(vec!["a".to_string(), "b".to_string()]).into_texts(),
        vec!["a".to_string(), "b".to_string()]
    );
}

#[test]
fn v2_text_count_limits() {
    let e = check_v2_texts(&vec![]).err().unwrap();
    assert_eq!((e.code, e.message.as_str()), (400, "text cannot be empty"));
    let e = check_v2_texts(&vec!["x".to_string(); 51]).err().unwrap();
    assert_eq!((e.code, e.message.as_str()), (400, "too many texts: maximum 50 per request"));
    assert!(check_v2_texts(&vec!["x".to_string(); 50]).is_ok());
    assert!(check_v2_texts(&vec!["x".to_string()]).is_ok());
}

#[test]
fn v2_response_keeps_order_and_defaults_detected_to_empty() {
    let r = v2_response(Ok(vec![
        ("Hallo".to_string(), Some("EN".to_string())),
        ("Welt".to_string(), None),
    ]))
    .ok()
    .unwrap();
    assert_eq!(r.translations.len(), 2);
    assert_eq!(r.translations[0].text, "Hallo");
    assert_eq!(r.translations[0].detected_source_language, "EN");
    assert_eq!(r.translations[1].text, "Welt");
    assert_eq!(r.translations[1].detected_source_language, "");
    let e = v2_response(Err(TranslateError::RateLimit)).err().unwrap();
    assert_eq!((e.code, e.message.as_str()), (429, "429: too many requests"));
}

#[test]
fn legacy_response_shape() {
    let r = legacy_response(Ok(("Hallo".to_string(), Some("EN".to_string())))).ok().unwrap();
    assert_eq!(r.code, 200);
    assert_eq!(r.data, "Hallo");
    assert_eq!(r.source_lang, Some("EN".to_string()));
    let e = legacy_response(Err(TranslateError::Client("unsupported target language: XX".to_string())))
        .err()
        .unwrap();
    assert_eq!(e.code, 400);
}

#[test]
fn source_defaults_to_auto() {
    assert_eq!(source_or_auto(&None), "auto");
    assert_eq!(source_or_auto(&Some("EN".to_string())), "EN");
}

#[test]
fn languages_for_source_omit_formality() {
    let src = language_entries("SoUrCe");
    assert_eq!(src.len(), 36);
    assert!(src.iter().all(|e| e.supports_formality.is_none()));
    let tgt = language_entries("");
    assert_eq!(tgt[4].language, "DE");
    assert_eq!(tgt[4].name, "German");
    assert_eq!(tgt[4].supports_formality, Some(true));
    assert_eq!(tgt[0].supports_formality, Some(false));
    let other = language_entries("sources");
    assert!(other.iter().all(|e| e.supports_formality.is_some()));
}

#[test]
fn health_is_ok() {
    assert_eq!(health().status, "ok");
}

#[test]
fn proxy_kinds() {
    assert!(proxy_kind(&None).is_none());
    assert!(proxy_kind(&Some(String::new())).is_none());
    assert!(matches!(proxy_kind(&Some("socks5h://h:1".to_string())), Some(ProxyKind::All)));
    assert!(matches!(proxy_kind(&Some("socks4://h:1".to_string())), Some(ProxyKind::All)));
    assert!(matches!(proxy_kind(&Some("socks4a://h:1".to_string())), Some(ProxyKind::All)));
    assert!(matches!(proxy_kind(&Some("socks5://h:1".to_string())), Some(ProxyKind::All)));
    assert!(matches!(proxy_kind(&Some("http://h:1".to_string())), Some(ProxyKind::Http)));
    assert!(matches!(proxy_kind(&Some("https://h:1".to_string())), Some(ProxyKind::Https)));
    assert!(matches!(proxy_kind(&Some("h:1".to_string())), Some(ProxyKind::Https)));
}

#[test]
fn configuration_defaults() {
    assert_eq!(listen_address(None, None), "127.0.0.1:9000");
    assert_eq!(listen_address(Some("0.0.0.0".to_string()), Some("80".to_string())), "0.0.0.0:80");
}

#[test]
fn request_headers() {
    assert_eq!(WARMUP_URL, "https://www.deepl.com/translator");
    let w = warmup_headers();
    assert_eq!(w.len(), 3);
    assert_eq!(w[1], ("Accept-Language", "en-US,en;q=0.9"));
    let t = translate_headers();
    assert_eq!(t.len(), 6);
    assert_eq!(t[0], ("Origin", "chrome-extension://cofdbpoegempjloogbagkncekinflcnj"));
}

#[test]
fn instance_id_from_bytes() {
    assert_eq!(format_instance_id([0u8; 16]), "00000000-0000-4000-8000-000000000000");
    assert_eq!(format_instance_id([0xffu8; 16]), "ffffffff-ffff-4fff-bfff-ffffffffffff");
    let b = [0x12u8, 0x34, 0x56, 0x78, 0x9a, 0xbc, 0xde, 0xf0, 0x12, 0x34, 0x56, 0x78, 0x9a, 0xbc, 0xde, 0xf0];
    assert_eq!(format_instance_id(b), "12345678-9abc-4ef0-9234-56789abcdef0");
}

#[test]
fn new_instance_id_is_a_v4_uuid() {
    let id = new_instance_id();
    let c: Vec<char> = id.chars().collect();
    assert_eq!(c.len(), 36);
    assert_eq!((c[8], c[13], c[18], c[23]), ('-', '-', '-', '-'));
    assert_eq!(c[14], '4');
    assert!("89ab".contains(c[19]));
    assert!(id.chars().all(|ch| ch == '-' || ch.is_ascii_hexdigit() && !ch.is_ascii_uppercase()));
}

#[test]
fn text_helpers() {
    assert_eq!(count_chars("你好a"), 3);
    assert!(is_blank(""));
    assert!(is_blank(" \u{2003}\u{85}\n"));
    assert!(!is_blank(" x "));
    assert!(starts_with("socks5://x", "socks5://"));
    assert!(!starts_with("sock", "socks"));
    assert!(str_eq_ignore_ascii_case("Source", "SOURCE"));
    assert!(!str_eq_ignore_ascii_case("source", "sourc"));
    assert_eq!(replace_underscores("a_b__c"), "a-b--c");
}

#[test]
fn api_key_disabled_when_unset_or_empty() {
    assert!(api_key_accepts(&None, None, None));
    assert!(api_key_accepts(&Some(String::new()), None, None));
    assert!(check_api_key(&None, Some("Bearer other"), None).is_ok());
}

#[test]
fn api_key_accepted_in_any_of_three_headers() {
    let key = Some("change-me".to_string());
    assert!(api_key_accepts(&key, Some("DeepL-Auth-Key change-me"), None));
    assert!(api_key_accepts(&key, Some("Bearer change-me"), None));
    assert!(api_key_accepts(&key, None, Some("change-me")));
    assert!(api_key_accepts(&key, Some("Bearer wrong"), Some("change-me")));
}

#[test]
fn api_key_refused_when_missing_or_wrong() {
    let key = Some("change-me".to_string());
    assert!(!api_key_accepts(&key, None, None));
    assert!(!api_key_accepts(&key, Some("change-me"), None));
    assert!(!api_key_accepts(&key, Some("Bearer change-me "), None));
    assert!(!api_key_accepts(&key, Some("Basic change-me"), Some("other")));
    let e = check_api_key(&key, Some("DeepL-Auth-Key nope"), None).err().unwrap();
    assert_eq!((e.code, e.message.as_str()), (401, "invalid or missing API key"));
}
