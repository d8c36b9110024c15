//! The rules of the authenticated API client: how a client is set up from
//! [`Config`], the request each endpoint sends, and how a response becomes a
//! result. The HTTP transport that carries the requests belongs to the
//! program.
//!
//! The configured API key is sent as the `X-Api-Key` header on every request.

use vstd::prelude::*;
use crate::api::{item, item_path, ITEMS, SYSTEM_STATUS};
use crate::config::Config;
use crate::encoding::{header_text_ok, header_value_ok};
use crate::error::Error;
use crate::models::NewItem;
use crate::secret::SecretString;
use crate::text::{decimal, parse_u64, parse_unsigned, push_str, substring, u64_to_decimal};

verus! {

/// Header carrying the API key.
pub const API_KEY_HEADER: &'static str = "X-Api-Key";

/// Retry-after used when the server omits the header on a 429.
pub const DEFAULT_RETRY_AFTER_SECS: u64 = 60;

/// `s` without its trailing slashes, as `str::trim_end_matches('/')`.
pub open spec fn trim_trailing_slashes(s: Seq<char>) -> Seq<char>
    decreases s.len(),
{
    if s.len() > 0 && s.last() == '/' {
        trim_trailing_slashes(s.drop_last())
    } else {
        s
    }
}

/// The message of a key that cannot be sent as a header value. It does not
/// repeat the key.
pub open spec fn invalid_key_text() -> Seq<char> {
    "API key contains invalid header characters"@
}

/// Authenticated client settings for the upstream API: the base URL without
/// its trailing slashes, the API key (a valid header value), and the
/// timeouts of the transport.
pub struct ApiClient {
    base_url: String,
    api_key: SecretString,
    request_timeout_secs: u64,
    connect_timeout_secs: u64,
}

/// The mathematical form of an [`ApiClient`].
pub struct ApiClientView {
    pub base_url: Seq<char>,
    pub api_key: Seq<char>,
    pub request_timeout_secs: u64,
    pub connect_timeout_secs: u64,
}

impl View for ApiClient {
    type V = ApiClientView;

    closed spec fn view(&self) -> ApiClientView {
        ApiClientView {
            base_url: self.base_url@,
            api_key: self.api_key@,
            request_timeout_secs: self.request_timeout_secs,
            connect_timeout_secs: self.connect_timeout_secs,
        }
    }
}

/// An HTTP method.
#[derive(Debug, Clone, Copy, PartialEq, Eq, Structural)]
pub enum Method {
    Get,
    Post,
    Delete,
}

/// A request to the upstream API.
pub struct ApiRequest {
    /// HTTP method.
    pub method: Method,
    /// Full URL, without the query.
    pub url: String,
    /// Query parameters, in order.
    pub query: Vec<(String, String)>,
    /// JSON body, if any.
    pub body: Option<NewItem>,
}

/// The query parameters of a request as text pairs.
pub open spec fn query_view(q: Seq<(String, String)>) -> Seq<(Seq<char>, Seq<char>)> {
    q.map_values(|p: (String, String)| (p.0@, p.1@))
}

/// `s` without its trailing slashes.
fn trim_end_slashes(s: &str) -> (r: String)
    ensures
        r@ == trim_trailing_slashes(s@),
{
    let n = s.unicode_len();
    let mut j: usize = n;
    assert(s@.subrange(0, n as int) =~= s@);
    while j > 0 && s.get_char(j - 1) == '/'
        invariant
            j <= n,
            n == s@.len(),
            trim_trailing_slashes(s@) == trim_trailing_slashes(s@.subrange(0, j as int)),
        decreases j,
    {
        assert(s@.subrange(0, j as int).drop_last() =~= s@.subrange(0, j - 1));
        j = j - 1;
    }
    substring(s, 0, j)
}

impl ApiClient {
    #[verifier::type_invariant]
    closed spec fn wf(self) -> bool {
        &&& header_text_ok(self.api_key@)
        &&& trim_trailing_slashes(self.base_url@) == self.base_url@
    }

    /// Sets up a client from [`Config`]. Fails with [`Error::MissingApiKey`]
    /// when no key was resolved, and with a configuration error (that does
    /// not echo the key) when the key cannot be sent as a header value.
    pub fn new(config: Config) -> (r: Result<ApiClient, Error>)
        ensures
            match config@.api_key {
                None => r matches Err(e) && e == Error::MissingApiKey,
                Some(k) => if header_text_ok(k) {
                    r matches Ok(client) && client@ == (ApiClientView {
                        base_url: trim_trailing_slashes(config@.base_url),
                        api_key: k,
                        request_timeout_secs: config@.request_timeout_secs,
                        connect_timeout_secs: config@.connect_timeout_secs,
                    })
                } else {
                    r matches Err(e) && e matches Error::Config(m) && m@ == invalid_key_text()
                },
            },
    {
        let key = match &config.api_key {
            Some(k) => k,
            None => {
                return Err(Error::MissingApiKey);
            },
        };
        if !header_value_ok(key.expose_secret()) {
            return Err(Error::Config(String::from_str("API key contains invalid header characters")));
        }
        let base_url = trim_end_slashes(config.base_url.as_str());
        proof {
            let s = config.base_url@;
            lemma_trim_idempotent(s);
        }
        Ok(
            ApiClient {
                base_url,
                api_key: key.clone(),
                request_timeout_secs: config.http.request_timeout_secs,
                connect_timeout_secs: config.http.connect_timeout_secs,
            },
        )
    }

    /// The base URL, without trailing slashes.
    pub fn base_url(&self) -> (r: &str)
        ensures
            r@ == self@.base_url,
            trim_trailing_slashes(r@) == r@,
    {
        proof {
            use_type_invariant(self);
        }
        self.base_url.as_str()
    }

    /// The API key, to be sent as the [`API_KEY_HEADER`] header.
    pub fn api_key(&self) -> (r: &str)
        ensures
            r@ == self@.api_key,
            header_text_ok(r@),
    {
        proof {
            use_type_invariant(self);
        }
        self.api_key.expose_secret()
    }

    /// Timeout of a whole request, in seconds.
    pub fn request_timeout_secs(&self) -> (r: u64)
        ensures
            r == self@.request_timeout_secs,
    {
        self.request_timeout_secs
    }

    /// Timeout of establishing a connection, in seconds.
    pub fn connect_timeout_secs(&self) -> (r: u64)
        ensures
            r == self@.connect_timeout_secs,
    {
        self.connect_timeout_secs
    }

    /// Joins the base URL with a path beginning with `/`.
    pub fn url(&self, path: &str) -> (r: String)
        ensures
            r@ == self@.base_url + path@,
    {
        let mut s = self.base_url.clone();
        push_str(&mut s, path);
        s
    }

    /// `GET /api/v3/system/status`: server health.
    pub fn system_status_request(&self) -> (r: ApiRequest)
        ensures
            r.method == Method::Get,
            r.url@ == self@.base_url + SYSTEM_STATUS@,
            r.query@.len() == 0,
            r.body is None,
    {
        ApiRequest { method: Method::Get, url: self.url(SYSTEM_STATUS), query: Vec::new(), body: None }
    }

    /// `GET /api/v3/item?page={page}&pageSize={page_size}`: one page of items.
    pub fn list_items_request(&self, page: u32, page_size: u32) -> (r: ApiRequest)
        ensures
            r.method == Method::Get,
            r.url@ == self@.base_url + ITEMS@,
            query_view(r.query@) == seq![("page"@, decimal(page as nat)), ("pageSize"@, decimal(page_size as nat))],
            r.body is None,
    {
        let mut query: Vec<(String, String)> = Vec::new();
        query.push((String::from_str("page"), u64_to_decimal(page as u64)));
        query.push((String::from_str("pageSize"), u64_to_decimal(page_size as u64)));
        assert(query_view(query@) =~= seq![("page"@, decimal(page as nat)), ("pageSize"@, decimal(page_size as nat))]);
        ApiRequest { method: Method::Get, url: self.url(ITEMS), query, body: None }
    }

    /// `GET /api/v3/item/{id}`: a single item.
    pub fn get_item_request(&self, id: i64) -> (r: ApiRequest)
        ensures
            r.method == Method::Get,
            r.url@ == self@.base_url + item_path(id as int),
            r.query@.len() == 0,
            r.body is None,
    {
        let path = item(id);
        ApiRequest { method: Method::Get, url: self.url(path.as_str()), query: Vec::new(), body: None }
    }

    /// `POST /api/v3/item` with `body` as JSON: create an item.
    pub fn create_item_request(&self, body: &NewItem) -> (r: ApiRequest)
        ensures
            r.method == Method::Post,
            r.url@ == self@.base_url + ITEMS@,
            r.query@.len() == 0,
            r.body matches Some(b) && b.name@ == body.name@ && b.enabled == body.enabled,
    {
        ApiRequest {
            method: Method::Post,
            url: self.url(ITEMS),
            query: Vec::new(),
            body: Some(NewItem { name: body.name.clone(), enabled: body.enabled }),
        }
    }

    /// `DELETE /api/v3/item/{id}`: delete an item.
    pub fn delete_item_request(&self, id: i64) -> (r: ApiRequest)
        ensures
            r.method == Method::Delete,
            r.url@ == self@.base_url + item_path(id as int),
            r.query@.len() == 0,
            r.body is None,
    {
        let path = item(id);
        ApiRequest { method: Method::Delete, url: self.url(path.as_str()), query: Vec::new(), body: None }
    }
}

/// Trimming trailing slashes twice is trimming them once.
pub proof fn lemma_trim_idempotent(s: Seq<char>)
    ensures
        trim_trailing_slashes(trim_trailing_slashes(s)) == trim_trailing_slashes(s),
    decreases s.len(),
{
    if s.len() > 0 && s.last() == '/' {
        lemma_trim_idempotent(s.drop_last());
    }
}

/// Whether a status is a success (2xx).
pub open spec fn success_status(status: u16) -> bool {
    200 <= status < 300
}

/// Whether a status is a success (2xx).
pub fn is_success(status: u16) -> (r: bool)
    ensures
        r == success_status(status),
{
    200 <= status && status < 300
}

/// The wait a 429 asks for: the `Retry-After` header as a number of seconds,
/// else 60.
pub open spec fn retry_after_value(header: Option<Seq<char>>) -> u64 {
    match header {
        Some(h) => match parse_unsigned(h, u64::MAX as int) {
            Ok(v) => v as u64,
            Err(_) => DEFAULT_RETRY_AFTER_SECS,
        },
        None => DEFAULT_RETRY_AFTER_SECS,
    }
}

/// The seconds to wait after a 429: the `Retry-After` header (its text, when
/// the header holds visible ASCII only) read as an integer, else 60.
pub fn retry_after_secs(header: Option<&str>) -> (r: u64)
    ensures
        r == retry_after_value(
            match header {
                Some(h) => Some(h@),
                None => None,
            },
        ),
{
    match header {
        Some(h) => match parse_u64(h) {
            Ok(v) => v,
            Err(_) => DEFAULT_RETRY_AFTER_SECS,
        },
        None => DEFAULT_RETRY_AFTER_SECS,
    }
}

/// The error for a 429, with the wait it asks for; `None` for any other status.
pub fn rate_limited(status: u16, retry_after: Option<&str>) -> (r: Option<Error>)
    ensures
        status == 429 ==> (r matches Some(e) && e == (Error::RateLimited {
            retry_after_secs: retry_after_value(
                match retry_after {
                    Some(h) => Some(h@),
                    None => None,
                },
            ),
        })),
        status != 429 ==> r is None,
{
    if status == 429 {
        Some(Error::RateLimited { retry_after_secs: retry_after_secs(retry_after) })
    } else {
        None
    }
}

/// The body of a successful response, to be parsed; an API error carrying
/// the status and the raw body otherwise.
pub fn status_result(status: u16, body: String) -> (r: Result<String, Error>)
    ensures
        success_status(status) ==> (r matches Ok(b) && b@ == body@),
        !success_status(status) ==> (r matches Err(e) && e matches Error::Api { status: s, message } && s == status
            && message@ == body@),
{
    if is_success(status) {
        Ok(body)
    } else {
        Err(Error::Api { status, message: body })
    }
}

/// The message of a body that could not be parsed.
pub open spec fn parse_failure_text(url: Seq<char>, detail: Seq<char>) -> Seq<char> {
    "Failed to parse response from "@ + url + ": "@ + detail
}

/// The error for a successful response whose body could not be parsed: an
/// API error carrying the (success) status, the URL and the parser's
/// description.
pub fn parse_failure(status: u16, url: &str, detail: &str) -> (e: Error)
    ensures
        e matches Error::Api { status: s, message } && s == status && message@ == parse_failure_text(url@, detail@),
{
    let mut message = String::from_str("Failed to parse response from ");
    push_str(&mut message, url);
    push_str(&mut message, ": ");
    push_str(&mut message, detail);
    Error::Api { status, message }
}

} // verus!
