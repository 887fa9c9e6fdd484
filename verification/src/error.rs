use vstd::prelude::*;

verus! {

/// Translation errors, classified by whether a retry may help.
pub enum TranslateError {
    /// DeepL answered 429: worth retrying after a short delay with fresh cookies.
    RateLimit,
    /// The request failed at the network layer (connect, timeout, reset): worth retrying.
    Network,
    /// Any other upstream failure (an HTTP error status, an unreadable reply): not retried.
    Upstream(String),
    /// The text of a request has more characters than one upstream request may
    /// carry: not retried.
    TextTooLong,
    /// Any other problem with the client's request (empty text, unsupported
    /// language): not retried.
    Client(String),
}

impl TranslateError {
    /// The message shown for the error.
    pub open spec fn spec_message(&self) -> Seq<char> {
        match self {
            TranslateError::RateLimit => "429: too many requests"@,
            TranslateError::Network => "network error"@,
            TranslateError::Upstream(s) => s@,
            TranslateError::TextTooLong => "text exceeds 1500 characters"@,
            TranslateError::Client(s) => s@,
        }
    }

    /// The message shown for the error (its display form).
    pub fn message(&self) -> (m: String)
        ensures
            m@ == self.spec_message(),
    {
        match self {
            TranslateError::RateLimit => "429: too many requests".to_owned(),
            TranslateError::Network => "network error".to_owned(),
            TranslateError::Upstream(s) => s.clone(),
            TranslateError::TextTooLong => "text exceeds 1500 characters".to_owned(),
            TranslateError::Client(s) => s.clone(),
        }
    }

    /// Rate limiting and network failures are worth one more attempt.
    pub open spec fn spec_is_retryable(&self) -> bool {
        self is RateLimit || self is Network
    }

    /// Whether the error is worth one more attempt.
    pub fn is_retryable(&self) -> (r: bool)
        ensures
            r == self.spec_is_retryable(),
    {
        match self {
            TranslateError::RateLimit => true,
            TranslateError::Network => true,
            _ => false,
        }
    }
}

/// `e` is an upstream error with message `m`.
pub open spec fn is_upstream(e: TranslateError, m: Seq<char>) -> bool {
    match e {
        TranslateError::Upstream(s) => s@ == m,
        _ => false,
    }
}

/// `e` is a client error with message `m`.
pub open spec fn is_client(e: TranslateError, m: Seq<char>) -> bool {
    match e {
        TranslateError::Client(s) => s@ == m,
        _ => false,
    }
}

/// The body of an error answer: the HTTP status code and a message.
pub struct ErrorResponse {
    pub code: u16,
    pub message: String,
}

/// The HTTP status for an error: 429 for rate limiting, 502 for network and
/// other upstream failures, 413 for a text that is too long, 400 for any other
/// client error.
pub open spec fn status_for(err: TranslateError) -> u16 {
    match err {
        TranslateError::RateLimit => 429,
        TranslateError::Network => 502,
        TranslateError::Upstream(_) => 502,
        TranslateError::TextTooLong => 413,
        TranslateError::Client(_) => 400,
    }
}

/// Maps an error to the HTTP answer: its status code and the error body that
/// repeats the code next to the error's message.
pub fn err_to_response(err: TranslateError) -> (r: ErrorResponse)
    ensures
        r.code == status_for(err),
        r.message@ == err.spec_message(),
{
    let code: u16 = match &err {
        TranslateError::RateLimit => 429,
        TranslateError::Network => 502,
        TranslateError::Upstream(_) => 502,
        TranslateError::TextTooLong => 413,
        TranslateError::Client(_) => 400,
    };
    ErrorResponse { code, message: err.message() }
}

/// How each error is answered: rate limiting with 429 and the message
/// `429: too many requests`; network failures with 502 and `network error`;
/// other upstream failures with 502 and their own message; a text that is
/// too long with 413 and `text exceeds 1500 characters`; any other client
/// error with 400 and its own message.
pub proof fn law_error_answers(err: TranslateError)
    ensures
        err is RateLimit ==> status_for(err) == 429 && err.spec_message() == "429: too many requests"@,
        err is Network ==> status_for(err) == 502 && err.spec_message() == "network error"@,
        err is Upstream ==> status_for(err) == 502 && err.spec_message() == err->Upstream_0@,
        err is TextTooLong ==> status_for(err) == 413 && err.spec_message()
            == "text exceeds 1500 characters"@,
        err is Client ==> status_for(err) == 400 && err.spec_message() == err->Client_0@,
{
}

/// Only rate limiting is answered with 429, and the errors worth a retry
/// (rate limiting, network failures) are never blamed on the client: they are
/// answered with 429 or 502.
pub proof fn law_status_of_retryable_errors(err: TranslateError)
    ensures
        status_for(err) == 429 <==> err is RateLimit,
        err.spec_is_retryable() ==> status_for(err) == 429 || status_for(err) == 502,
{
}

} // verus!
