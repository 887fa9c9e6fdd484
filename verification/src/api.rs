use vstd::prelude::*;
use vstd::string::*;

use crate::error::{err_to_response, status_for, ErrorResponse, TranslateError};
use crate::lang::{language_table, languages};
use crate::text::{
    ascii_upper, concat_str, eq_ignore_ascii_case, starts_with, str_eq, str_eq_ignore_ascii_case,
};
use crate::upstream::{opt_view, translation_view};

verus! {

/// The answer of the simple `/translate` endpoint.
pub struct TranslateResponse {
    pub code: u16,
    pub data: String,
    pub source_lang: Option<String>,
}

/// One translation in the answer of `/v2/translate`.
pub struct OfficialTranslation {
    pub detected_source_language: String,
    pub text: String,
}

/// The answer of `/v2/translate`.
pub struct OfficialTranslateResponse {
    pub translations: Vec<OfficialTranslation>,
}

/// One language in the answer of `/v2/languages`.
pub struct LanguageEntry {
    pub language: &'static str,
    pub name: &'static str,
    pub supports_formality: Option<bool>,
}

/// The answer of `/health`.
pub struct HealthResponse {
    pub status: &'static str,
}

/// The `text` field of a `/v2/translate` request: one string or a list.
pub enum TextField {
    Single(String),
    Multiple(Vec<String>),
}

impl TextField {
    /// The texts to translate: the single string as a one-element list, or
    /// the list as given.
    pub fn into_texts(self) -> (v: Vec<String>)
        ensures
            self matches TextField::Single(s) ==> v@ == seq![s],
            self matches TextField::Multiple(l) ==> v == l,
    {
        match self {
            TextField::Single(s) => {
                let mut v: Vec<String> = Vec::new();
                v.push(s);
                assert(v@ =~= seq![s]);
                v
            },
            TextField::Multiple(l) => l,
        }
    }
}

/// The source language a request names, `auto` when it names none.
pub fn source_or_auto(source_lang: &Option<String>) -> (s: String)
    ensures
        s@ == match source_lang {
            Some(x) => x@,
            None => "auto"@,
        },
{
    match source_lang {
        Some(x) => x.clone(),
        None => "auto".to_owned(),
    }
}

/// The answer of `/translate`: code 200 with the translation and the detected
/// language, or the error answer.
pub fn legacy_response(outcome: Result<(String, Option<String>), TranslateError>) -> (r: Result<
    TranslateResponse,
    ErrorResponse,
>)
    ensures
        outcome is Ok ==> r is Ok && r->Ok_0.code == 200 && (r->Ok_0.data@, opt_view(
            r->Ok_0.source_lang,
        )) == translation_view(outcome->Ok_0),
        outcome is Err ==> r is Err && r->Err_0.code == status_for(outcome->Err_0)
            && r->Err_0.message@ == outcome->Err_0.spec_message(),
{
    match outcome {
        Ok((data, detected)) => Ok(TranslateResponse { code: 200, data, source_lang: detected }),
        Err(e) => Err(err_to_response(e)),
    }
}

/// The most texts one `/v2/translate` request may carry.
pub const MAX_TEXTS_PER_REQUEST: usize = 50;

/// Checks the texts of a `/v2/translate` request: at least one, at most 50;
/// a refusal is a client error (400).
pub fn check_v2_texts(texts: &Vec<String>) -> (r: Result<(), ErrorResponse>)
    ensures
        texts@.len() == 0 ==> r is Err && r->Err_0.code == 400 && r->Err_0.message@
            == "text cannot be empty"@,
        texts@.len() > 50 ==> r is Err && r->Err_0.code == 400 && r->Err_0.message@
            == "too many texts: maximum 50 per request"@,
        1 <= texts@.len() <= 50 ==> r is Ok,
{
    if texts.len() == 0 {
        return Err(err_to_response(TranslateError::Client("text cannot be empty".to_owned())));
    }
    if texts.len() > MAX_TEXTS_PER_REQUEST {
        return Err(
            err_to_response(TranslateError::Client("too many texts: maximum 50 per request".to_owned())),
        );
    }
    Ok(())
}

/// Whether a request may use the translation endpoints. With no key
/// configured (or an empty one) every request may; else the request must
/// carry the key as `Authorization: DeepL-Auth-Key <key>`, as
/// `Authorization: Bearer <key>`, or as `X-API-Key: <key>`.
pub open spec fn key_accepted(
    expected: Option<Seq<char>>,
    authorization: Option<Seq<char>>,
    x_api_key: Option<Seq<char>>,
) -> bool {
    match expected {
        None => true,
        Some(k) => k.len() == 0 || authorization == Some("DeepL-Auth-Key "@ + k)
            || authorization == Some("Bearer "@ + k) || x_api_key == Some(k),
    }
}

/// The view of an optional string slice.
pub open spec fn opt_str_view(s: Option<&str>) -> Option<Seq<char>> {
    match s {
        Some(x) => Some(x@),
        None => None,
    }
}

fn header_is(header: Option<&str>, expected: &str) -> (r: bool)
    ensures
        r == (opt_str_view(header) == Some(expected@)),
{
    match header {
        Some(h) => str_eq(h, expected),
        None => false,
    }
}

/// Checks the API key that a request to a translation endpoint presents,
/// given the configured key `expected` and the request's `Authorization` and
/// `X-API-Key` headers.
pub fn api_key_accepts(
    expected: &Option<String>,
    authorization: Option<&str>,
    x_api_key: Option<&str>,
) -> (ok: bool)
    ensures
        ok == key_accepted(opt_view(*expected), opt_str_view(authorization), opt_str_view(x_api_key)),
{
    match expected {
        None => true,
        Some(k) => {
            if k.as_str().is_empty() {
                return true;
            }
            let deepl = concat_str("DeepL-Auth-Key ", k.as_str());
            let bearer = concat_str("Bearer ", k.as_str());
            header_is(authorization, deepl.as_str()) || header_is(authorization, bearer.as_str())
                || header_is(x_api_key, k.as_str())
        },
    }
}

/// The answer to a request to a translation endpoint that presents no valid
/// API key.
pub open spec fn unauthorized_message() -> Seq<char> {
    "invalid or missing API key"@
}

/// Admits a request to a translation endpoint, or refuses it with code 401
/// when it does not present the configured API key.
pub fn check_api_key(
    expected: &Option<String>,
    authorization: Option<&str>,
    x_api_key: Option<&str>,
) -> (r: Result<(), ErrorResponse>)
    ensures
        key_accepted(opt_view(*expected), opt_str_view(authorization), opt_str_view(x_api_key))
            ==> r is Ok,
        !key_accepted(opt_view(*expected), opt_str_view(authorization), opt_str_view(x_api_key))
            ==> r is Err && r->Err_0.code == 401 && r->Err_0.message@ == unauthorized_message(),
{
    if api_key_accepts(expected, authorization, x_api_key) {
        Ok(())
    } else {
        Err(ErrorResponse { code: 401, message: "invalid or missing API key".to_owned() })
    }
}

/// The views of one `/v2` translation: detected language, then text.
pub open spec fn official_view(t: OfficialTranslation) -> (Seq<char>, Seq<char>) {
    (t.detected_source_language@, t.text@)
}

/// What `/v2/translate` reports for a translated text: the detected language
/// (empty when none was reported) and the translation.
pub open spec fn official_of(t: (Seq<char>, Option<Seq<char>>)) -> (Seq<char>, Seq<char>) {
    (
        match t.1 {
            Some(d) => d,
            None => Seq::empty(),
        },
        t.0,
    )
}

/// The answer of `/v2/translate`: one entry per text, in order, or the error
/// answer.
pub fn v2_response(outcome: Result<Vec<(String, Option<String>)>, TranslateError>) -> (r: Result<
    OfficialTranslateResponse,
    ErrorResponse,
>)
    ensures
        outcome is Ok ==> r is Ok && r->Ok_0.translations@.len() == outcome->Ok_0@.len() && (
        forall|i: int|
            0 <= i < outcome->Ok_0@.len() ==> official_view(#[trigger] r->Ok_0.translations@[i])
                == official_of(translation_view(outcome->Ok_0@[i]))),
        outcome is Err ==> r is Err && r->Err_0.code == status_for(outcome->Err_0)
            && r->Err_0.message@ == outcome->Err_0.spec_message(),
{
    match outcome {
        Err(e) => Err(err_to_response(e)),
        Ok(results) => {
            let ghost rs = results@;
            let mut results = results;
            let mut out: Vec<OfficialTranslation> = Vec::new();
            let n = results.len();
            let mut i: usize = 0;
            while i < n
                invariant
                    n == rs.len(),
                    i <= n,
                    results@ == rs.subrange(i as int, n as int),
                    out@.len() == i,
                    forall|j: int|
                        0 <= j < i ==> official_view(#[trigger] out@[j]) == official_of(
                            translation_view(rs[j]),
                        ),
                decreases n - i,
            {
                let (text, detected) = results.remove(0);
                assert(rs.subrange(i + 1, n as int) =~= rs.subrange(i as int, n as int).drop_first());
                let d = match detected {
                    Some(d) => d,
                    None => String::new(),
                };
                out.push(OfficialTranslation { detected_source_language: d, text });
                i += 1;
            }
            Ok(OfficialTranslateResponse { translations: out })
        },
    }
}

/// Whether a `/v2/languages` query asks for source languages: `type=source`
/// in any ASCII case; anything else (missing too) means target languages.
pub open spec fn asks_for_sources(lang_type: Seq<char>) -> bool {
    eq_ignore_ascii_case(lang_type, "source"@)
}

/// Only `source`, spelt in any mix of ASCII cases, asks for source
/// languages; every other type (`target`, an empty or missing one, any other
/// word) asks for target languages, whose entries carry `supports_formality`.
pub proof fn law_only_source_asks_for_sources(t: Seq<char>)
    ensures
        asks_for_sources(t) <==> {
            &&& t.len() == 6
            &&& t[0] == 's' || t[0] == 'S'
            &&& t[1] == 'o' || t[1] == 'O'
            &&& t[2] == 'u' || t[2] == 'U'
            &&& t[3] == 'r' || t[3] == 'R'
            &&& t[4] == 'c' || t[4] == 'C'
            &&& t[5] == 'e' || t[5] == 'E'
        },
{
    reveal_strlit("source");
    if t.len() == 6 {
        assert(ascii_upper(t[0]) == ascii_upper('s') <==> (t[0] == 's' || t[0] == 'S'));
        assert(ascii_upper(t[1]) == ascii_upper('o') <==> (t[1] == 'o' || t[1] == 'O'));
        assert(ascii_upper(t[2]) == ascii_upper('u') <==> (t[2] == 'u' || t[2] == 'U'));
        assert(ascii_upper(t[3]) == ascii_upper('r') <==> (t[3] == 'r' || t[3] == 'R'));
        assert(ascii_upper(t[4]) == ascii_upper('c') <==> (t[4] == 'c' || t[4] == 'C'));
        assert(ascii_upper(t[5]) == ascii_upper('e') <==> (t[5] == 'e' || t[5] == 'E'));
    }
}

/// The answer of `/v2/languages`: every language of the table in order, with
/// `supports_formality` for target languages only.
pub fn language_entries(lang_type: &str) -> (v: Vec<LanguageEntry>)
    ensures
        v@.len() == language_table().len(),
        forall|i: int|
            0 <= i < v@.len() ==> {
                &&& (#[trigger] v@[i]).language == language_table()[i].code
                &&& v@[i].name == language_table()[i].name
                &&& v@[i].supports_formality == (if asks_for_sources(lang_type@) {
                    None
                } else {
                    Some(language_table()[i].formality)
                })
            },
{
    let is_source = str_eq_ignore_ascii_case(lang_type, "source");
    let table = languages();
    let n = table.len();
    let mut v: Vec<LanguageEntry> = Vec::new();
    let mut i: usize = 0;
    while i < n
        invariant
            table@ == language_table(),
            n == table@.len(),
            i <= n,
            v@.len() == i,
            is_source == asks_for_sources(lang_type@),
            forall|j: int|
                0 <= j < i ==> {
                    &&& (#[trigger] v@[j]).language == language_table()[j].code
                    &&& v@[j].name == language_table()[j].name
                    &&& v@[j].supports_formality == (if is_source {
                        None
                    } else {
                        Some(language_table()[j].formality)
                    })
                },
        decreases n - i,
    {
        let l = table[i];
        let supports_formality = if is_source {
            None
        } else {
            Some(l.formality)
        };
        v.push(LanguageEntry { language: l.code, name: l.name, supports_formality });
        i += 1;
    }
    v
}

/// The answer of `/health`.
pub fn health() -> (h: HealthResponse)
    ensures
        h.status@ == "ok"@,
{
    HealthResponse { status: "ok" }
}

/// How an outbound proxy is applied.
pub enum ProxyKind {
    /// A SOCKS proxy carries all traffic.
    All,
    /// A proxy for plain HTTP.
    Http,
    /// A proxy for HTTPS.
    Https,
}

/// The proxy setting for a configured proxy URL: none when the URL is absent
/// or empty; `All` for `socks5h://`, `socks5://`, `socks4a://`, `socks4://`;
/// `Http` for `http://`; `Https` for `https://` and for any other URL.
pub open spec fn spec_proxy_kind(proxy: Option<Seq<char>>) -> Option<ProxyKind> {
    match proxy {
        None => None,
        Some(p) => if p.len() == 0 {
            None
        } else if has_prefix(p, "socks5h://"@) || has_prefix(p, "socks5://"@) || has_prefix(
            p,
            "socks4a://"@,
        ) || has_prefix(p, "socks4://"@) {
            Some(ProxyKind::All)
        } else if has_prefix(p, "http://"@) {
            Some(ProxyKind::Http)
        } else {
            Some(ProxyKind::Https)
        },
    }
}

/// `s` begins with `prefix`.
pub open spec fn has_prefix(s: Seq<char>, prefix: Seq<char>) -> bool {
    prefix.len() <= s.len() && s.subrange(0, prefix.len() as int) == prefix
}

/// How to use the configured proxy URL, if any.
pub fn proxy_kind(proxy: &Option<String>) -> (k: Option<ProxyKind>)
    ensures
        k == spec_proxy_kind(opt_view(*proxy)),
{
    match proxy {
        None => None,
        Some(p) => {
            let p = p.as_str();
            if p.is_empty() {
                None
            } else if starts_with(p, "socks5h://") || starts_with(p, "socks5://") || starts_with(
                p,
                "socks4a://",
            ) || starts_with(p, "socks4://") {
                Some(ProxyKind::All)
            } else if starts_with(p, "http://") {
                Some(ProxyKind::Http)
            } else if starts_with(p, "https://") {
                Some(ProxyKind::Https)
            } else {
                Some(ProxyKind::Https)
            }
        },
    }
}

/// The address to listen on: `<host>:<port>`, with host `127.0.0.1` and port
/// `9000` when they are not configured.
pub fn listen_address(host: Option<String>, port: Option<String>) -> (a: String)
    ensures
        a@ == (match host {
            Some(h) => h@,
            None => "127.0.0.1"@,
        }) + ":"@ + (match port {
            Some(p) => p@,
            None => "9000"@,
        }),
{
    let h = match host {
        Some(h) => h,
        None => "127.0.0.1".to_owned(),
    };
    let p = match port {
        Some(p) => p,
        None => "9000".to_owned(),
    };
    let a = concat_str(h.as_str(), ":");
    concat_str(a.as_str(), p.as_str())
}

/// The page fetched to obtain DeepL's cookies.
pub const WARMUP_URL: &'static str = "https://www.deepl.com/translator";

/// The headers of the cookie warm-up request.
pub fn warmup_headers() -> (v: Vec<(&'static str, &'static str)>)
    ensures
        v@ == seq![
            ("Accept", "text/html,application/xhtml+xml,application/xml;q=0.9,*/*;q=0.8"),
            ("Accept-Language", "en-US,en;q=0.9"),
            (
                "User-Agent",
                "Mozilla/5.0 (Windows NT 10.0; Win64; x64) AppleWebKit/537.36 (KHTML, like Gecko) Chrome/120.0.0.0 Safari/537.36",
            ),
        ],
{
    vec![
        ("Accept", "text/html,application/xhtml+xml,application/xml;q=0.9,*/*;q=0.8"),
        ("Accept-Language", "en-US,en;q=0.9"),
        (
            "User-Agent",
            "Mozilla/5.0 (Windows NT 10.0; Win64; x64) AppleWebKit/537.36 (KHTML, like Gecko) Chrome/120.0.0.0 Safari/537.36",
        ),
    ]
}

/// The headers of a translation request, after its `Authorization` header.
pub fn translate_headers() -> (v: Vec<(&'static str, &'static str)>)
    ensures
        v@ == seq![
            ("Origin", "chrome-extension://cofdbpoegempjloogbagkncekinflcnj"),
            ("Accept", "*/*"),
            ("Accept-Encoding", "gzip, deflate, br"),
            ("Sec-Fetch-Site", "cross-site"),
            ("Sec-Fetch-Mode", "cors"),
            ("Sec-Fetch-Dest", "empty"),
        ],
{
    vec![
        ("Origin", "chrome-extension://cofdbpoegempjloogbagkncekinflcnj"),
        ("Accept", "*/*"),
        ("Accept-Encoding", "gzip, deflate, br"),
        ("Sec-Fetch-Site", "cross-site"),
        ("Sec-Fetch-Mode", "cors"),
        ("Sec-Fetch-Dest", "empty"),
    ]
}

} // verus!
