//! The transport's two pure halves: what to send, and what an answer means.

use crate::document::{counter_error, counter_holds, json_parsed, parsable, parse};
use crate::error::{ApiError, HttpFailure};
use json::JsonValue;
use vstd::prelude::*;
use vstd::string::*;
use vstd::utf8::encode_utf8;

verus! {

/// What `base64::encode` makes of a byte string: its base64 text in the
/// standard alphabet, with padding.
pub uninterp spec fn base64_text(input: Seq<u8>) -> Seq<char>;

/// An input of this many bytes has a base64 text whose length `usize` can
/// hold.
pub open spec fn fits_base64(len: nat) -> bool {
    len / 3 * 4 + 4 <= usize::MAX
}

/// `base64::encode`: the result depends on the bytes alone. The encoder
/// panics where the length of its output overflows, which `requires` excludes.
#[verifier::external_body]
fn base64_encode(input: &[u8]) -> (r: String)
    requires
        fits_base64(input@.len()),
    ensures
        r@ == base64_text(input@),
{
    base64::encode(input)
}

/// The base address of the API for a tenant.
pub open spec fn base_url(domain: Seq<char>) -> Seq<char> {
    "https://"@ + domain + ".example-helpdesk.com/api/v2/"@
}

/// The address of a resource or method of the API.
pub open spec fn endpoint(domain: Seq<char>, method: Seq<char>) -> Seq<char> {
    base_url(domain) + method
}

/// The path of the comments of one ticket.
pub open spec fn comments_path(id: Seq<char>) -> Seq<char> {
    "tickets/"@ + id + "/comments"@
}

/// What Basic authentication encodes: login, a colon, password.
pub open spec fn credentials(login: Seq<char>, password: Seq<char>) -> Seq<char> {
    login + ":"@ + password
}

/// The value of the `Authorization` header.
pub open spec fn basic_auth(login: Seq<char>, password: Seq<char>) -> Seq<char> {
    "Basic "@ + base64_text(encode_utf8(credentials(login, password)))
}

/// The value of the `Authorization` header for credentials that are already
/// encoded.
pub fn basic_header(encoded: &str) -> (r: String)
    ensures
        r@ == "Basic "@ + encoded@,
{
    let mut header = String::from_str("Basic ");
    header.append(encoded);
    header
}

/// What an `ApiClient` holds.
pub struct ClientView {
    pub login: Seq<char>,
    pub password: Seq<char>,
    pub domain: Seq<char>,
}

/// One GET request, ready to be sent. It holds the credentials in encoded
/// form and is therefore not printable.
pub struct HttpRequest {
    /// The exact address to fetch.
    pub url: String,
    /// The value of the `Authorization` header.
    pub authorization: String,
}

/// The credentials of one tenant of the service. They are not printable, so
/// that they cannot reach a log.
pub struct ApiClient {
    login: String,
    password: String,
    domain: String,
}

impl View for ApiClient {
    type V = ClientView;

    closed spec fn view(&self) -> ClientView {
        ClientView { login: self.login@, password: self.password@, domain: self.domain@ }
    }
}

impl ApiClient {
    pub fn new(login: &str, password: &str, domain: &str) -> (r: Self)
        ensures
            r@ == (ClientView { login: login@, password: password@, domain: domain@ }),
    {
        Self {
            login: String::from_str(login),
            password: String::from_str(password),
            domain: String::from_str(domain),
        }
    }

    /// The credentials are short enough for the header to be built.
    pub open spec fn spec_can_authorize(&self) -> bool {
        fits_base64(encode_utf8(credentials(self@.login, self@.password)).len())
    }

    /// Whether the credentials are short enough for the header to be built.
    #[verifier::when_used_as_spec(spec_can_authorize)]
    pub fn can_authorize(&self) -> (r: bool)
        ensures
            r == self.spec_can_authorize(),
    {
        let text = self.credentials();
        text.as_str().as_bytes().len() / 3 <= (usize::MAX - 4) / 4
    }

    fn credentials(&self) -> (r: String)
        ensures
            r@ == credentials(self@.login, self@.password),
    {
        let mut text = self.login.clone();
        text.append(":");
        text.append(self.password.as_str());
        text
    }

    /// The address of a resource or method of the API.
    pub fn make_url(&self, method: &str) -> (r: String)
        ensures
            r@ == endpoint(self@.domain, method@),
    {
        let mut url = String::from_str("https://");
        url.append(self.domain.as_str());
        url.append(".example-helpdesk.com/api/v2/");
        url.append(method);
        url
    }

    /// The value of the `Authorization` header, built anew on every call.
    pub fn authorization(&self) -> (r: String)
        requires
            self.can_authorize(),
        ensures
            r@ == basic_auth(self@.login, self@.password),
    {
        let text = self.credentials();
        let encoded = base64_encode(text.as_str().as_bytes());
        basic_header(encoded.as_str())
    }

    /// The request for an exact address, which is sent as it stands.
    pub fn request_url(&self, url: &str) -> (r: HttpRequest)
        requires
            self.can_authorize(),
        ensures
            r.url@ == url@,
            r.authorization@ == basic_auth(self@.login, self@.password),
    {
        HttpRequest { url: String::from_str(url), authorization: self.authorization() }
    }

    /// The request for a resource or method of the API.
    pub fn request(&self, method: &str) -> (r: HttpRequest)
        requires
            self.can_authorize(),
        ensures
            r.url@ == endpoint(self@.domain, method@),
            r.authorization@ == basic_auth(self@.login, self@.password),
    {
        let url = self.make_url(method);
        self.request_url(url.as_str())
    }

    /// The request for the comments of the ticket with the given id.
    pub fn get_comments(&self, id: &str) -> (r: HttpRequest)
        requires
            self.can_authorize(),
        ensures
            r.url@ == endpoint(self@.domain, comments_path(id@)),
            r.authorization@ == basic_auth(self@.login, self@.password),
    {
        let mut path = String::from_str("tickets/");
        path.append(id);
        path.append("/comments");
        self.request(path.as_str())
    }
}

/// What the body of a 2xx answer means: the parsed document, or the parser's
/// error where the body is not JSON.
pub open spec fn body_meaning(parsed: Result<JsonValue, json::Error>) -> Result<JsonValue, ApiError> {
    match parsed {
        Ok(doc) => Ok(doc),
        Err(e) => Err(ApiError::JsonError(e)),
    }
}

/// Classifies the outcome of the parser.
pub fn classify_parsed(parsed: Result<JsonValue, json::Error>) -> (r: Result<JsonValue, ApiError>)
    ensures
        r == body_meaning(parsed),
{
    match parsed {
        Ok(doc) => Ok(doc),
        Err(e) => Err(ApiError::JsonError(e)),
    }
}

/// Reads the body of a 2xx answer as a JSON document. A body in which a
/// fraction outgrows the parser's counter is refused unparsed, as not being
/// JSON that can be read.
pub fn read_body(body: &str) -> (r: Result<JsonValue, ApiError>)
    ensures
        parsable(body@) ==> r == body_meaning(json_parsed(body@)),
        !parsable(body@) ==> r matches Err(ApiError::JsonError(_)),
{
    if counter_holds(body.as_bytes()) {
        classify_parsed(parse(body))
    } else {
        Err(ApiError::JsonError(counter_error()))
    }
}

/// The status is one of success: 200 to 299.
pub open spec fn is_success(status: u16) -> bool {
    200 <= status < 300
}

/// What an answer means: the error of its status where that is no 2xx, and
/// what its body means otherwise.
pub fn answer_meaning(status: u16, body: &str) -> (r: Result<JsonValue, ApiError>)
    ensures
        !is_success(status) ==> r == Err::<JsonValue, ApiError>(
            ApiError::UReqError(HttpFailure::Status(status)),
        ),
        is_success(status) && parsable(body@) ==> r == body_meaning(json_parsed(body@)),
        is_success(status) && !parsable(body@) ==> r matches Err(ApiError::JsonError(_)),
{
    if status < 200 || status >= 300 {
        Err(ApiError::UReqError(HttpFailure::Status(status)))
    } else {
        read_body(body)
    }
}

} // verus!
