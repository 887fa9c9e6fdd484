use vstd::prelude::*;
use vstd::utf8::{decode_utf8, valid_utf8};

use crate::error::{is_client, is_upstream, status_for, TranslateError};
use crate::lang::{
    opt_str_result_view, resolve_source_lang, resolve_target_lang, source_lang_result,
    str_result_view, target_lang_result, underscores_to_dashes, upper,
};
use crate::text::{count_chars, concat_str, is_blank, is_whitespace};

verus! {

/// The most characters that one upstream request may carry.
pub const MAX_TEXT_LENGTH: usize = 1500;

/// DeepL's endpoint to which every translation request is sent.
pub const ONESHOT_FREE: &'static str = "https://oneshot-free.www.deepl.com/v1/translate";

/// The client description sent with every request.
pub struct AppInformation {
    pub os: String,
    pub os_version: String,
    pub app_version: String,
    pub app_build: String,
    pub instance_id: String,
}

/// The body of one upstream translation request.
pub struct OneshotRequest {
    pub text: Vec<String>,
    pub target_lang: &'static str,
    pub source_lang: Option<String>,
    pub usage_type: String,
    pub app_information: AppInformation,
}

/// Everything needed to send one upstream translation request.
pub struct PreparedRequest {
    pub endpoint: &'static str,
    pub authorization: String,
    pub body: OneshotRequest,
}

/// One translation in an upstream reply.
pub struct TranslationItem {
    pub text: String,
    pub detected_source_language: String,
}

/// An upstream reply.
pub struct OneshotResponse {
    pub translations: Vec<TranslationItem>,
}

/// Whether every character of `t` is white space (so `t.trim()` is empty).
pub open spec fn all_whitespace(t: Seq<char>) -> bool {
    forall|i: int| 0 <= i < t.len() ==> is_whitespace(#[trigger] t[i])
}

/// Whether a request for `text` is refused before it is sent, given how its
/// target and source codes resolved.
pub open spec fn refused(
    text: Seq<char>,
    target: Result<Seq<char>, Seq<char>>,
    source: Result<Option<Seq<char>>, Seq<char>>,
) -> bool {
    all_whitespace(text) || text.len() > MAX_TEXT_LENGTH || target is Err || source is Err
}

/// The error with which such a request is refused, checked in this order: a
/// blank text (`text cannot be empty`), a text of more than
/// `MAX_TEXT_LENGTH` characters, then an unresolvable target, then an
/// unresolvable source (each with the resolver's message).
pub open spec fn refused_as(
    e: TranslateError,
    text: Seq<char>,
    target: Result<Seq<char>, Seq<char>>,
    source: Result<Option<Seq<char>>, Seq<char>>,
) -> bool {
    if all_whitespace(text) {
        is_client(e, "text cannot be empty"@)
    } else if text.len() > MAX_TEXT_LENGTH {
        e is TextTooLong
    } else if target is Err {
        is_client(e, target->Err_0)
    } else {
        is_client(e, source->Err_0)
    }
}

/// A refused request is answered 413 exactly when its text is too long (and
/// not blank), and 400 in every other case, whatever the language codes.
pub proof fn law_refusal_status(
    e: TranslateError,
    text: Seq<char>,
    target: Result<Seq<char>, Seq<char>>,
    source: Result<Option<Seq<char>>, Seq<char>>,
)
    requires
        refused(text, target, source),
        refused_as(e, text, target, source),
    ensures
        status_for(e) == 413 <==> !all_whitespace(text) && text.len() > MAX_TEXT_LENGTH,
        status_for(e) == 400 <==> !(!all_whitespace(text) && text.len() > MAX_TEXT_LENGTH),
{
}

/// The views of an optional string.
pub open spec fn opt_view(o: Option<String>) -> Option<Seq<char>> {
    match o {
        Some(s) => Some(s@),
        None => None,
    }
}

/// The request prepared for `text`: sent to the free endpoint, with the
/// `Authorization` value `None`, carrying the text, the resolved languages and
/// the client description.
pub open spec fn prepared_as(
    p: PreparedRequest,
    text: Seq<char>,
    target: Seq<char>,
    source: Option<Seq<char>>,
    instance_id: Seq<char>,
) -> bool {
    &&& p.endpoint@ == ONESHOT_FREE@
    &&& p.authorization@ == "None"@
    &&& p.body.text@.len() == 1
    &&& p.body.text@[0]@ == text
    &&& p.body.target_lang@ == target
    &&& opt_view(p.body.source_lang) == source
    &&& p.body.usage_type@ == "Translate"@
    &&& p.body.app_information.os@ == "brex_macOS"@
    &&& p.body.app_information.os_version@ == "brex_chrome_120.0.0.0"@
    &&& p.body.app_information.app_version@ == "1.86.0"@
    &&& p.body.app_information.app_build@ == "chrome_web_store"@
    &&& p.body.app_information.instance_id@ == instance_id
}

/// Builds the upstream request for one piece of text once its target and
/// source codes have been resolved, or refuses it.
pub fn build_request(
    text: &str,
    target: Result<&'static str, String>,
    source: Result<Option<&'static str>, String>,
    instance_id: &str,
) -> (r: Result<PreparedRequest, TranslateError>)
    ensures
        refused(text@, str_result_view(target), opt_str_result_view(source)) ==> r is Err
            && refused_as(r->Err_0, text@, str_result_view(target), opt_str_result_view(source)),
        !refused(text@, str_result_view(target), opt_str_result_view(source)) ==> r is Ok
            && prepared_as(
            r->Ok_0,
            text@,
            str_result_view(target)->Ok_0,
            opt_str_result_view(source)->Ok_0,
            instance_id@,
        ),
{
    if is_blank(text) {
        return Err(TranslateError::Client("text cannot be empty".to_owned()));
    }
    if count_chars(text) > MAX_TEXT_LENGTH {
        return Err(TranslateError::TextTooLong);
    }
    let target = match target {
        Ok(t) => t,
        Err(e) => return Err(TranslateError::Client(e)),
    };
    let source = match source {
        Ok(s) => s,
        Err(e) => return Err(TranslateError::Client(e)),
    };
    let mut texts: Vec<String> = Vec::new();
    texts.push(text.to_owned());
    let source_lang = match source {
        Some(s) => Some(s.to_owned()),
        None => None,
    };
    let body = OneshotRequest {
        text: texts,
        target_lang: target,
        source_lang,
        usage_type: "Translate".to_owned(),
        app_information: AppInformation {
            os: "brex_macOS".to_owned(),
            os_version: "brex_chrome_120.0.0.0".to_owned(),
            app_version: "1.86.0".to_owned(),
            app_build: "chrome_web_store".to_owned(),
            instance_id: instance_id.to_owned(),
        },
    };
    Ok(PreparedRequest { endpoint: ONESHOT_FREE, authorization: "None".to_owned(), body })
}

/// Prepares the upstream request for one piece of text, resolving its target
/// and source language codes, or refuses it.
pub fn prepare_single(
    text: &str,
    source_lang: &str,
    target_lang: &str,
    instance_id: &str,
) -> (r: Result<PreparedRequest, TranslateError>)
    ensures
        ({
            let target = target_lang_result(target_lang@, upper(target_lang@));
            let source = source_lang_result(
                upper(source_lang@),
                upper(underscores_to_dashes(upper(source_lang@))),
            );
            &&& refused(text@, target, source) ==> r is Err && refused_as(
                r->Err_0,
                text@,
                target,
                source,
            )
            &&& !refused(text@, target, source) ==> r is Ok && prepared_as(
                r->Ok_0,
                text@,
                target->Ok_0,
                source->Ok_0,
                instance_id@,
            )
        }),
{
    let target = resolve_target_lang(target_lang);
    let source = resolve_source_lang(source_lang);
    build_request(text, target, source, instance_id)
}

/// The decimal digits of a three-digit status code.
pub open spec fn decimal3(code: u16) -> Seq<char> {
    seq![
        (('0' as u16) + code / 100) as char,
        (('0' as u16) + (code / 10) % 10) as char,
        (('0' as u16) + code % 10) as char,
    ]
}

/// Names the reason phrase that the `http` crate's `StatusCode::canonical_reason`
/// gives for a status code, or `<unknown status code>` when it has none.
pub uninterp spec fn status_reason(code: u16) -> Seq<char>;

/// Formats a status code as `axum::http::StatusCode`'s `Display` does: the
/// code, a space, and its reason phrase (named `status_reason`; the table of
/// phrases is not restated). `StatusCode::from_u16` only accepts codes from
/// 100 to 999.
#[verifier::external_body]
fn status_line(code: u16) -> (r: String)
    requires
        100 <= code <= 999,
    ensures
        r@ == decimal3(code) + " "@ + status_reason(code),
{
    match axum::http::StatusCode::from_u16(code) {
        Ok(st) => st.to_string(),
        Err(_) => String::new(),
    }
}

/// Names what `String::from_utf8_lossy` returns for a byte sequence.
pub uninterp spec fn lossy_utf8(b: Seq<u8>) -> Seq<char>;

/// Calls `String::from_utf8_lossy`: valid UTF-8 is decoded as it is; invalid
/// sequences become U+FFFD (that replacement rule is not restated: the result
/// is named `lossy_utf8`).
#[verifier::external_body]
fn utf8_lossy(b: &[u8]) -> (r: String)
    ensures
        r@ == lossy_utf8(b@),
        valid_utf8(b@) ==> r@ == decode_utf8(b@),
{
    String::from_utf8_lossy(b).into_owned()
}

/// What an upstream status means: 429 is rate limiting, any status outside
/// 200..=299 an upstream error whose message is `HTTP <status line>: <body>`,
/// and a success status lets the body be read.
pub fn check_status(status: u16, status_line: &str, body_text: &str) -> (r: Result<(), TranslateError>)
    ensures
        status == 429 ==> r is Err && r->Err_0 is RateLimit,
        status != 429 && !(200 <= status < 300) ==> r is Err && is_upstream(
            r->Err_0,
            "HTTP "@ + status_line@ + ": "@ + body_text@,
        ),
        200 <= status < 300 ==> r is Ok,
{
    if status == 429 {
        return Err(TranslateError::RateLimit);
    }
    if !(200 <= status && status < 300) {
        let m = concat_str("HTTP ", status_line);
        let m = concat_str(m.as_str(), ": ");
        let m = concat_str(m.as_str(), body_text);
        return Err(TranslateError::Upstream(m));
    }
    Ok(())
}

/// Interprets what came back for a sent request: `None` when sending it or
/// reading the reply failed at the network layer, else the status and the
/// body. A success gives the body back for parsing.
pub fn check_reply(reply: Option<(u16, Vec<u8>)>) -> (r: Result<Vec<u8>, TranslateError>)
    requires
        reply matches Some((status, _)) ==> 100 <= status <= 999,
    ensures
        reply is None ==> r is Err && r->Err_0 is Network,
        reply matches Some((status, body)) ==> {
            &&& status == 429 ==> r is Err && r->Err_0 is RateLimit
            &&& status != 429 && !(200 <= status < 300) ==> r is Err && is_upstream(
                r->Err_0,
                "HTTP "@ + decimal3(status) + " "@ + status_reason(status) + ": "@ + lossy_utf8(
                    body@,
                ),
            )
            &&& 200 <= status < 300 ==> r is Ok && r->Ok_0@ == body@
        },
{
    match reply {
        None => Err(TranslateError::Network),
        Some((status, body)) => {
            let line = status_line(status);
            let text = utf8_lossy(body.as_slice());
            assert("HTTP "@ + line@ + ": "@ + text@ =~= "HTTP "@ + decimal3(status) + " "@
                + status_reason(status) + ": "@ + lossy_utf8(body@));
            match check_status(status, line.as_str(), text.as_str()) {
                Ok(()) => Ok(body),
                Err(e) => Err(e),
            }
        },
    }
}

/// The views of a translated text and the language detected for it.
pub open spec fn translation_view(t: (String, Option<String>)) -> (Seq<char>, Option<Seq<char>>) {
    (t.0@, opt_view(t.1))
}

/// The text of an upstream translation and its detected source language,
/// `None` when that is empty.
pub open spec fn first_translation(t: TranslationItem) -> (Seq<char>, Option<Seq<char>>) {
    (
        t.text@,
        if t.detected_source_language@.len() == 0 {
            None
        } else {
            Some(t.detected_source_language@)
        },
    )
}

/// Reads the first translation of a parsed upstream reply: its text, and the
/// detected source language unless that is empty. A reply that could not be
/// parsed (`Err` with the parser's message) or that holds no translation is
/// an upstream error.
pub fn finish_single(parsed: Result<OneshotResponse, String>) -> (r: Result<
    (String, Option<String>),
    TranslateError,
>)
    ensures
        parsed is Err ==> r is Err && is_upstream(r->Err_0, "json parse: "@ + parsed->Err_0@),
        parsed is Ok && parsed->Ok_0.translations@.len() == 0 ==> r is Err && is_upstream(
            r->Err_0,
            "no translations in response"@,
        ),
        parsed is Ok && parsed->Ok_0.translations@.len() > 0 ==> r is Ok && translation_view(
            r->Ok_0,
        ) == first_translation(parsed->Ok_0.translations@[0]),
{
    match parsed {
        Err(e) => Err(TranslateError::Upstream(concat_str("json parse: ", e.as_str()))),
        Ok(resp) => {
            let mut translations = resp.translations;
            if translations.len() == 0 {
                return Err(TranslateError::Upstream("no translations in response".to_owned()));
            }
            let first = translations.remove(0);
            let detected = if first.detected_source_language.as_str().is_empty() {
                None
            } else {
                Some(first.detected_source_language)
            };
            Ok((first.text, detected))
        },
    }
}

} // verus!
