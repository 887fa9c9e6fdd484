use deeplx_pro::error::{err_to_response, TranslateError};
use deeplx_pro::upstream::{
    build_request, check_reply, check_status, finish_single, prepare_single, OneshotResponse,
    TranslationItem, ONESHOT_FREE,
};

fn client_message(r: Result<deeplx_pro::upstream::PreparedRequest, TranslateError>) -> String {
    match r {
        Err(TranslateError::Client(m)) => m,
        _ => panic!("expected a client error"),
    }
}

#[test]
fn blank_text_is_refused() {
    let m = client_message(prepare_single(" \n\t\u{3000}", "auto", "DE", "id"));
    assert_eq!(m, "text cannot be empty");
    let m = client_message(prepare_single("", "auto", "XX", "id"));
    assert_eq!(m, "text cannot be empty");
}

#[test]
fn over_long_text_is_refused_with_payload_too_large() {
    let text = "a".repeat(1501);
    let err = prepare_single(&text, "auto", "DE", "id").err().unwrap();
    assert!(matches!(err, TranslateError::TextTooLong));
    let resp = err_to_response(err);
    assert_eq!(resp.code, 413);
    assert_eq!(resp.message, "text exceeds 1500 characters");
    assert!(prepare_single(&"a".repeat(1500), "auto", "DE", "id").is_ok());
}

#[test]
fn unsupported_languages_are_refused_target_first() {
    let m = client_message(prepare_single("hi", "YY", "XX", "id"));
    assert_eq!(m, "unsupported target language: XX");
    let m = client_message(prepare_single("hi", "yy", "DE", "id"));
    assert_eq!(m, "unsupported source language: YY");
    let r = err_to_response(prepare_single("hi", "auto", "exceeds", "id").err().unwrap());
    assert_eq!(r.code, 400);
    assert_eq!(r.message, "unsupported target language: exceeds");
}

#[test]
fn prepared_request_uses_free_endpoint() {
    let p = prepare_single("Hello", "auto", "zh", "the-id").ok().unwrap();
    assert_eq!(p.endpoint, ONESHOT_FREE);
    assert_eq!(p.endpoint, "https://oneshot-free.www.deepl.com/v1/translate");
    assert_eq!(p.authorization, "None");
    assert_eq!(p.body.text, vec!["Hello".to_string()]);
    assert_eq!(p.body.target_lang, "zh-Hans");
    assert_eq!(p.body.source_lang, None);
    assert_eq!(p.body.usage_type, "Translate");
    assert_eq!(p.body.app_information.os, "brex_macOS");
    assert_eq!(p.body.app_information.os_version, "brex_chrome_120.0.0.0");
    assert_eq!(p.body.app_information.app_version, "1.86.0");
    assert_eq!(p.body.app_information.app_build, "chrome_web_store");
    assert_eq!(p.body.app_information.instance_id, "the-id");
}

#[test]
fn every_prepared_request_uses_free_endpoint_without_account() {
    let p = prepare_single("Hello", "en", "DE", "id").ok().unwrap();
    assert_eq!(p.endpoint, ONESHOT_FREE);
    assert_eq!(p.authorization, "None");
    assert_eq!(p.body.source_lang, Some("en-US".to_string()));
    assert_eq!(p.body.target_lang, "de");
}

#[test]
fn build_request_checks_in_order() {
    let r = build_request("x", Err("bad t".to_string()), Err("bad s".to_string()), "i");
    assert_eq!(client_message(r), "bad t");
    let r = build_request("x", Ok("de"), Err("bad s".to_string()), "i");
    assert_eq!(client_message(r), "bad s");
    let r = build_request(" ", Err("bad t".to_string()), Err("bad s".to_string()), "i");
    assert_eq!(client_message(r), "text cannot be empty");
    let r = build_request(&"y".repeat(1501), Err("bad t".to_string()), Ok(None), "i");
    assert!(matches!(r, Err(TranslateError::TextTooLong)));
    let r = build_request("x", Ok("de"), Ok(Some("fr")), "i").ok().unwrap();
    assert_eq!(r.body.source_lang, Some("fr".to_string()));
}

#[test]
fn network_failure_is_retryable() {
    match check_reply(None) {
        Err(e) => {
            assert!(matches!(e, TranslateError::Network));
            assert!(e.is_retryable());
        }
        Ok(_) => panic!(),
    }
}

#[test]
fn status_429_is_rate_limit() {
    match check_reply(Some((429, b"slow down".to_vec()))) {
        Err(e) => {
            assert!(matches!(e, TranslateError::RateLimit));
            assert!(e.is_retryable());
            assert_eq!(e.message(), "429: too many requests");
            assert_eq!(err_to_response(e).code, 429);
        }
        Ok(_) => panic!(),
    }
}

#[test]
fn error_status_becomes_upstream_error_with_reason_and_body() {
    match check_reply(Some((503, b"down".to_vec()))) {
        Err(TranslateError::Upstream(m)) => assert_eq!(m, "HTTP 503 Service Unavailable: down"),
        _ => panic!(),
    }
    match check_reply(Some((404, vec![0x66, 0xff, 0x6f]))) {
        Err(e) => {
            assert_eq!(e.message(), "HTTP 404 Not Found: f\u{FFFD}o");
            assert!(!e.is_retryable());
            assert_eq!(err_to_response(e).code, 502);
        }
        Ok(_) => panic!(),
    }
    match check_status(302, "302 Found", "moved") {
        Err(TranslateError::Upstream(m)) => assert_eq!(m, "HTTP 302 Found: moved"),
        _ => panic!(),
    }
}

#[test]
fn success_status_hands_back_the_body() {
    assert_eq!(check_reply(Some((200, b"{}".to_vec()))).ok().unwrap(), b"{}".to_vec());
    assert!(check_status(204, "", "").is_ok());
}

#[test]
fn finish_single_reads_the_first_translation() {
    let resp = OneshotResponse {
        translations: vec![
            TranslationItem { text: "Hallo".to_string(), detected_source_language: "EN".to_string() },
            TranslationItem { text: "x".to_string(), detected_source_language: String::new() },
        ],
    };
    let (t, d) = finish_single(Ok(resp)).ok().unwrap();
    assert_eq!(t, "Hallo");
    assert_eq!(d, Some("EN".to_string()));
    let resp = OneshotResponse {
        translations: vec![TranslationItem { text: "Hi".to_string(), detected_source_language: String::new() }],
    };
    assert_eq!(finish_single(Ok(resp)).ok().unwrap(), ("Hi".to_string(), None));
}

#[test]
fn finish_single_reports_bad_replies() {
    match finish_single(Ok(OneshotResponse { translations: vec![] })) {
        Err(TranslateError::Upstream(m)) => assert_eq!(m, "no translations in response"),
        _ => panic!(),
    }
    match finish_single(Err("expected value".to_string())) {
        Err(e) => {
            assert_eq!(e.message(), "json parse: expected value");
            assert_eq!(err_to_response(e).code, 502);
        }
        _ => panic!(),
    }
}

#[test]
fn client_errors_map_to_400_and_too_long_to_413() {
    let r = err_to_response(TranslateError::Client("unsupported target language: XX".to_string()));
    assert_eq!(r.code, 400);
    assert_eq!(r.message, "unsupported target language: XX");
    let r = err_to_response(TranslateError::Client("it exceeds".to_string()));
    assert_eq!(r.code, 400);
    let r = err_to_response(TranslateError::TextTooLong);
    assert_eq!((r.code, r.message.as_str()), (413, "text exceeds 1500 characters"));
    let r = err_to_response(TranslateError::Network);
    assert_eq!((r.code, r.message.as_str()), (502, "network error"));
    let r = err_to_response(TranslateError::Upstream("boom".to_string()));
    assert_eq!((r.code, r.message.as_str()), (502, "boom"));
}
