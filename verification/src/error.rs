//! Errors of the API client and their messages.

use vstd::prelude::*;
use crate::json::{json_as_str, json_get, parse_json, parsed_json, Json};
use crate::text::{decimal, push_str, write_decimal};

verus! {

/// Errors returned by the API client and the configuration loader.
#[derive(Debug)]
pub enum Error {
    /// Underlying HTTP transport failure (connect, timeout, TLS, ...), with
    /// the transport's own description.
    Http(String),
    /// The API returned a non-success status. `message` holds the raw body;
    /// the message of the error extracts a clean text when the body is JSON.
    Api {
        /// HTTP status code.
        status: u16,
        /// Raw response body.
        message: String,
    },
    /// The API returned HTTP 429. Honor `retry_after_secs` before retrying.
    RateLimited {
        /// Seconds to wait before retrying.
        retry_after_secs: u64,
    },
    /// Configuration is invalid (bad value, conflicting fields, etc.).
    Config(String),
    /// Local I/O failure (e.g. reading a `*_FILE` secret), with its description.
    Io(String),
    /// No API key was provided by any source.
    MissingApiKey,
}

/// The text an API error shows for `body`: the `message` (or, when there is
/// no `message` member, the `detail`) string of a JSON body, else the
/// `error.message` string, else the raw body.
pub open spec fn api_error_detail(body: Seq<char>) -> Seq<char> {
    match parsed_json(body) {
        Some(j) => {
            let first = match json_get(j, "message"@) {
                Some(m) => Some(m),
                None => json_get(j, "detail"@),
            };
            match json_as_str(first) {
                Some(m) => m,
                None => {
                    let nested = match json_get(j, "error"@) {
                        Some(e) => json_get(e, "message"@),
                        None => None,
                    };
                    match json_as_str(nested) {
                        Some(m) => m,
                        None => body,
                    }
                },
            }
        },
        None => body,
    }
}

/// `API error ({status}): {detail}`.
pub open spec fn api_error_text(status: u16, body: Seq<char>) -> Seq<char> {
    "API error ("@ + decimal(status as nat) + "): "@ + api_error_detail(body)
}

/// The message of each error.
pub open spec fn error_text(e: Error) -> Seq<char> {
    match e {
        Error::Http(s) => "HTTP transport error: "@ + s@,
        Error::Api { status, message } => api_error_text(status, message@),
        Error::RateLimited { retry_after_secs } => "rate limited; retry after "@ + decimal(
            retry_after_secs as nat,
        ) + "s"@,
        Error::Config(s) => "configuration error: "@ + s@,
        Error::Io(s) => "I/O error: "@ + s@,
        Error::MissingApiKey => missing_api_key_text(),
    }
}

/// The message of [`Error::MissingApiKey`].
pub open spec fn missing_api_key_text() -> Seq<char> {
    "no API key configured; set MYAPP_API_KEY, MYAPP_API_KEY_FILE, --api-key, or api_key in config.toml"@
}

/// The message tools show for a body that could not be parsed.
pub open spec fn unparsable_tool_text() -> Seq<char> {
    "the upstream server returned a response this tool could not parse (unexpected format or content type)"@
}

/// The message tools show for a 404.
pub open spec fn not_found_tool_text() -> Seq<char> {
    "not found (404): verify the id \u{2014} use the corresponding list tool to find valid ids"@
}

/// What a tool reports for an error: a generic text for a body that could not
/// be parsed (an API error with a success status), a hint for a 404, and the
/// error's own message otherwise.
pub open spec fn tool_error_text(e: Error) -> Seq<char> {
    match e {
        Error::Api { status, .. } => if 200 <= status < 300 {
            unparsable_tool_text()
        } else if status == 404 {
            not_found_tool_text()
        } else {
            error_text(e)
        },
        _ => error_text(e),
    }
}

/// Extracts a clean message from a JSON error body when possible.
///
/// Tries `{"message": ...}`, `{"detail": ...}`, and `{"error":{"message":...}}`,
/// falling back to the raw body.
pub fn display_api_error(status: u16, body: &str) -> (r: String)
    ensures
        r@ == api_error_text(status, body@),
{
    let mut out = String::from_str("API error (");
    write_decimal(&mut out, status as u64);
    push_str(&mut out, "): ");
    let ghost prefix = out@;
    match parse_json(body) {
        Some(parsed) => {
            let first = match parsed.get("message") {
                Some(m) => Some(m),
                None => parsed.get("detail"),
            };
            if let Some(m) = first {
                if let Some(text) = m.as_str() {
                    push_str(&mut out, text);
                    return out;
                }
            }
            if let Some(e) = parsed.get("error") {
                if let Some(m) = e.get("message") {
                    if let Some(text) = m.as_str() {
                        push_str(&mut out, text);
                        return out;
                    }
                }
            }
            push_str(&mut out, body);
            out
        },
        None => {
            push_str(&mut out, body);
            out
        },
    }
}

impl Error {
    /// The error's message.
    pub fn to_string(&self) -> (r: String)
        ensures
            r@ == error_text(*self),
    {
        match self {
            Error::Http(s) => {
                let mut out = String::from_str("HTTP transport error: ");
                push_str(&mut out, s.as_str());
                out
            },
            Error::Api { status, message } => display_api_error(*status, message.as_str()),
            Error::RateLimited { retry_after_secs } => {
                let mut out = String::from_str("rate limited; retry after ");
                write_decimal(&mut out, *retry_after_secs);
                push_str(&mut out, "s");
                out
            },
            Error::Config(s) => {
                let mut out = String::from_str("configuration error: ");
                push_str(&mut out, s.as_str());
                out
            },
            Error::Io(s) => {
                let mut out = String::from_str("I/O error: ");
                push_str(&mut out, s.as_str());
                out
            },
            Error::MissingApiKey => String::from_str(
                "no API key configured; set MYAPP_API_KEY, MYAPP_API_KEY_FILE, --api-key, or api_key in config.toml",
            ),
        }
    }
}

/// Formats an error as a tool-call error message that never exposes
/// internals: a body-parse failure (an API error carrying a success status,
/// whose raw message embeds the request URL and parser detail) becomes a
/// generic text, and a 404 gets a hint toward the list tool.
pub fn format_tool_error(error: &Error) -> (r: String)
    ensures
        r@ == tool_error_text(*error),
{
    match error {
        Error::Api { status, .. } if 200 <= *status && *status < 300 => String::from_str(
            "the upstream server returned a response this tool could not parse (unexpected format or content type)",
        ),
        Error::Api { status: 404, .. } => String::from_str(
            "not found (404): verify the id \u{2014} use the corresponding list tool to find valid ids",
        ),
        other => other.to_string(),
    }
}

} // verus!
