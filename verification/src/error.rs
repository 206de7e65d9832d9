//! Errors that the API answers with: an HTTP status code and a message.

use vstd::prelude::*;
use crate::text::concat2;

verus! {

/// HTTP 400.
pub const BAD_REQUEST: u16 = 400;

/// HTTP 404.
pub const NOT_FOUND: u16 = 404;

/// HTTP 500.
pub const INTERNAL_SERVER_ERROR: u16 = 500;

/// HTTP 502.
pub const BAD_GATEWAY: u16 = 502;

/// HTTP 503.
pub const SERVICE_UNAVAILABLE: u16 = 503;

/// HTTP 504.
pub const GATEWAY_TIMEOUT: u16 = 504;

/// An error answered to the client as `{"detail": message}` with `status`.
#[derive(Debug)]
pub struct AppError {
    pub status: u16,
    pub message: String,
}

impl AppError {
    /// An error with the given status and message.
    pub fn new(status: u16, message: String) -> (e: Self)
        ensures
            e.status == status,
            e.message@ == message@,
    {
        AppError { status, message }
    }

    /// An internal server error (500) with the given message.
    pub fn internal(message: String) -> (e: Self)
        ensures
            e.status == INTERNAL_SERVER_ERROR,
            e.message@ == message@,
    {
        Self::new(INTERNAL_SERVER_ERROR, message)
    }
}

/// An error with the given status whose message is the text of `message`.
pub fn error_with(status: u16, message: &str) -> (e: AppError)
    ensures
        e.status == status,
        e.message@ == message@,
{
    AppError::new(status, message.to_string())
}

/// The answer to a failed database operation whose error reads `description`.
pub fn db_error(description: &str) -> (e: AppError)
    ensures
        e.status == INTERNAL_SERVER_ERROR,
        e.message@ == "Database error occurred: "@ + description@,
{
    AppError::internal(concat2("Database error occurred: ", description))
}

/// What the logic reads of a failed outgoing HTTP request: the kind of
/// failure and the error's text.
#[derive(Debug)]
pub struct HttpFailure {
    pub is_connect: bool,
    pub is_timeout: bool,
    pub is_builder: bool,
    pub is_request: bool,
    pub description: String,
}

/// Which upstream service a request went to.
pub enum Upstream {
    LmStudio,
    Jkca,
}

/// The answer to a failed request to `upstream`: 503 when the connection
/// failed, 504 on a timeout, 502 for a malformed request, 500 otherwise.
pub open spec fn http_failure_error(upstream: Upstream, f: HttpFailure) -> (u16, Seq<char>) {
    let lm = upstream is LmStudio;
    if f.is_connect {
        (
            SERVICE_UNAVAILABLE,
            if lm {
                "Unable to connect to LM Studio server. Please ensure it's running on http://127.0.0.1:1234"@
            } else {
                "Unable to connect to JKCA runtime. Please ensure jkca-agent is running on http://127.0.0.1:8100"@
            },
        )
    } else if f.is_timeout {
        (
            GATEWAY_TIMEOUT,
            if lm {
                "Request to LM Studio server timed out"@
            } else {
                "Request to JKCA runtime timed out"@
            },
        )
    } else if f.is_builder || f.is_request {
        (
            BAD_GATEWAY,
            if lm {
                "Invalid LM Studio request: "@
            } else {
                "Invalid JKCA request: "@
            } + f.description@,
        )
    } else {
        (
            INTERNAL_SERVER_ERROR,
            if lm {
                "Unexpected HTTP error: "@
            } else {
                "Unexpected JKCA HTTP error: "@
            } + f.description@,
        )
    }
}

/// The answer to a failed request to LM Studio.
pub fn map_lmstudio_error(error: &HttpFailure) -> (e: AppError)
    ensures
        (e.status, e.message@) == http_failure_error(Upstream::LmStudio, *error),
{
    if error.is_connect {
        return error_with(
            SERVICE_UNAVAILABLE,
            "Unable to connect to LM Studio server. Please ensure it's running on http://127.0.0.1:1234",
        );
    }
    if error.is_timeout {
        return error_with(GATEWAY_TIMEOUT, "Request to LM Studio server timed out");
    }
    if error.is_builder || error.is_request {
        return AppError::new(
            BAD_GATEWAY,
            concat2("Invalid LM Studio request: ", error.description.as_str()),
        );
    }
    AppError::internal(concat2("Unexpected HTTP error: ", error.description.as_str()))
}

/// The answer to a failed request to the JKCA runtime.
pub fn map_jkca_error(error: &HttpFailure) -> (e: AppError)
    ensures
        (e.status, e.message@) == http_failure_error(Upstream::Jkca, *error),
{
    if error.is_connect {
        return error_with(
            SERVICE_UNAVAILABLE,
            "Unable to connect to JKCA runtime. Please ensure jkca-agent is running on http://127.0.0.1:8100",
        );
    }
    if error.is_timeout {
        return error_with(GATEWAY_TIMEOUT, "Request to JKCA runtime timed out");
    }
    if error.is_builder || error.is_request {
        return AppError::new(BAD_GATEWAY, concat2("Invalid JKCA request: ", error.description.as_str()));
    }
    AppError::internal(concat2("Unexpected JKCA HTTP error: ", error.description.as_str()))
}


/// A failed upstream request is answered by its kind, checked in the order
/// connection, timeout, malformed request: 503 naming the server to start,
/// 504, 502 with the error's text, and 500 with the error's text otherwise.
pub proof fn law_http_failure_answers(f: HttpFailure)
    ensures
        f.is_connect ==> http_failure_error(Upstream::LmStudio, f) == (
            503u16,
            "Unable to connect to LM Studio server. Please ensure it's running on http://127.0.0.1:1234"@,
        ),
        f.is_connect ==> http_failure_error(Upstream::Jkca, f) == (
            503u16,
            "Unable to connect to JKCA runtime. Please ensure jkca-agent is running on http://127.0.0.1:8100"@,
        ),
        !f.is_connect && f.is_timeout ==> http_failure_error(Upstream::LmStudio, f) == (
            504u16,
            "Request to LM Studio server timed out"@,
        ),
        !f.is_connect && f.is_timeout ==> http_failure_error(Upstream::Jkca, f) == (
            504u16,
            "Request to JKCA runtime timed out"@,
        ),
        !f.is_connect && !f.is_timeout && (f.is_builder || f.is_request) ==> http_failure_error(
            Upstream::LmStudio,
            f,
        ) == (502u16, "Invalid LM Studio request: "@ + f.description@),
        !f.is_connect && !f.is_timeout && (f.is_builder || f.is_request) ==> http_failure_error(
            Upstream::Jkca,
            f,
        ) == (502u16, "Invalid JKCA request: "@ + f.description@),
        !f.is_connect && !f.is_timeout && !f.is_builder && !f.is_request ==> http_failure_error(
            Upstream::LmStudio,
            f,
        ) == (500u16, "Unexpected HTTP error: "@ + f.description@),
        !f.is_connect && !f.is_timeout && !f.is_builder && !f.is_request ==> http_failure_error(
            Upstream::Jkca,
            f,
        ) == (500u16, "Unexpected JKCA HTTP error: "@ + f.description@),
{
}

} // verus!
