//! Requests and responses as plain values, and the fixed "not found" response.
use vstd::prelude::*;
use vstd::slice::slice_to_vec;
use vstd::utf8::encode_utf8;

verus! {

/// A request as the pipeline sees it.
#[derive(Clone, Debug, PartialEq, Eq)]
pub struct Request {
    pub method: String,
    pub uri: String,
    pub headers: Vec<(String, String)>,
    pub body: Vec<u8>,
}

/// A response as the pipeline sees it.
#[derive(Clone, Debug, PartialEq, Eq)]
pub struct Response {
    pub status: u16,
    pub headers: Vec<(String, String)>,
    pub body: Vec<u8>,
}

/// The mathematical value of a [`Request`].
pub struct RequestView {
    pub method: Seq<char>,
    pub uri: Seq<char>,
    pub headers: Seq<(Seq<char>, Seq<char>)>,
    pub body: Seq<u8>,
}

/// The mathematical value of a [`Response`].
pub struct ResponseView {
    pub status: u16,
    pub headers: Seq<(Seq<char>, Seq<char>)>,
    pub body: Seq<u8>,
}

/// A header list as a sequence of (name, value) pairs of characters.
pub open spec fn headers_view(headers: Seq<(String, String)>) -> Seq<(Seq<char>, Seq<char>)> {
    headers.map_values(|h: (String, String)| (h.0@, h.1@))
}

impl View for Request {
    type V = RequestView;

    open spec fn view(&self) -> RequestView {
        RequestView {
            method: self.method@,
            uri: self.uri@,
            headers: headers_view(self.headers@),
            body: self.body@,
        }
    }
}

impl View for Response {
    type V = ResponseView;

    open spec fn view(&self) -> ResponseView {
        ResponseView {
            status: self.status,
            headers: headers_view(self.headers@),
            body: self.body@,
        }
    }
}

/// The response that stands for "no route matched": status 404, the single
/// header `content-type: text/plain`, and as body the bytes of `Not Found`.
pub open spec fn not_found_view() -> ResponseView {
    ResponseView {
        status: 404,
        headers: seq![("content-type"@, "text/plain"@)],
        body: encode_utf8("Not Found"@),
    }
}

/// An optional string slice as an optional sequence of characters.
pub open spec fn phrase_view(phrase: Option<&'static str>) -> Option<Seq<char>> {
    match phrase {
        Some(text) => Some(text@),
        None => None,
    }
}

/// Calls `hyper::StatusCode::canonical_reason` on the constant
/// `hyper::StatusCode::NOT_FOUND`. Trusted: hyper has a reason phrase for
/// that status, and it is `Not Found`.
#[verifier::external_body]
fn not_found_reason() -> (phrase: Option<&'static str>)
    ensures
        phrase_view(phrase) == Some("Not Found"@),
{
    hyper::StatusCode::NOT_FOUND.canonical_reason()
}

/// Calls `hyper::StatusCode::as_u16` on the constant
/// `hyper::StatusCode::NOT_FOUND`. Trusted: the number is 404.
#[verifier::external_body]
fn not_found_status() -> (code: u16)
    ensures
        code == 404,
{
    hyper::StatusCode::NOT_FOUND.as_u16()
}

/// Calls `hyper::header::HeaderName::as_str` on the constant
/// `hyper::header::CONTENT_TYPE`. Trusted: the name is `content-type`.
#[verifier::external_body]
fn content_type_name() -> (name: &'static str)
    ensures
        name@ == "content-type"@,
{
    hyper::header::CONTENT_TYPE.as_str()
}

/// Builds the response for a request that no route matched.
pub fn not_found() -> (response: Response)
    ensures
        response@ == not_found_view(),
{
    let status = not_found_status();
    let body = match not_found_reason() {
        Some(phrase) => slice_to_vec(phrase.as_bytes()),
        None => Vec::new(),
    };
    let mut headers: Vec<(String, String)> = Vec::new();
    headers.push((content_type_name().to_owned(), "text/plain".to_owned()));
    proof {
        assert(headers_view(headers@) =~= seq![("content-type"@, "text/plain"@)]);
    }
    Response { status, headers, body }
}

} // verus!
