//! The canonical response and the conversions into it.
//!
//! Many unrelated kinds of value can answer a request: text, bytes, a bare
//! status code, encoded JSON, a fallible result, or any of these behind a
//! decorator. Each of them implements [`IntoResponse`], whose contract says
//! which response the value stands for.

use std::borrow::Cow;
use vstd::prelude::*;
use vstd::string::StringSliceAdditionalSpecFns;
use vstd::string::StrSliceExecFns;
use vstd::utf8::encode_utf8;
use crate::header::{
    application_json, application_octet_stream, content_type_name, distinct_names, header_views,
    lemma_set_header, set_header, text_html_utf8, text_plain_utf8, value_of, Header, HeaderName, HeaderValue,
};
use crate::octets::owned_bytes;
use crate::status::{is_status_number, StatusCode};

verus! {

/// The error with which `serde_json` reports that a value could not be encoded.
#[verifier::external_type_specification]
#[verifier::external_body]
pub struct ExJsonError(serde_json::Error);

/// What a response is: a status, a list of headers and a body.
pub struct ResponseView {
    pub status: u16,
    pub headers: Seq<(Seq<u8>, Seq<u8>)>,
    pub body: Seq<u8>,
}

impl ResponseView {
    /// Whether the status can be sent and no header name occurs twice.
    pub open spec fn well_formed(self) -> bool {
        is_status_number(self.status) && distinct_names(self.headers)
    }

    /// This response with its status replaced by `status`.
    pub open spec fn with_status(self, status: u16) -> ResponseView {
        ResponseView { status, ..self }
    }

    /// This response after the header `name` has been set to `value`.
    pub open spec fn with_header(self, name: Seq<u8>, value: Seq<u8>) -> ResponseView {
        ResponseView { headers: set_header(self.headers, name, value), ..self }
    }
}

/// The response that carries nothing but a status.
pub open spec fn bare_status(status: u16) -> ResponseView {
    ResponseView { status, headers: Seq::empty(), body: Seq::empty() }
}

/// The response with status 200 that carries `body` and declares its media
/// type to be `media`.
pub open spec fn typed_body(media: Seq<u8>, body: Seq<u8>) -> ResponseView {
    ResponseView { status: 200, headers: seq![(content_type_name(), media)], body }
}

/// The body of the built-in answer to a request that no route answers.
pub open spec fn not_found_body() -> Seq<u8> {
    "Not Found".spec_bytes()
}

/// The built-in answer to a request that no route answers: status 404 and a
/// fixed body.
pub open spec fn default_not_found() -> ResponseView {
    ResponseView { status: 404, headers: Seq::empty(), body: not_found_body() }
}

/// The body of every response that reports an internal failure.
pub open spec fn generic_error_body() -> Seq<u8> {
    "Internal Server Error".spec_bytes()
}

/// The one response that reports an internal failure. It has status 500 and
/// a fixed body, and depends on nothing else.
pub open spec fn generic_error() -> ResponseView {
    ResponseView { status: 500, headers: Seq::empty(), body: generic_error_body() }
}

/// The canonical response: a status, headers with distinct names, and a body.
#[derive(Debug)]
pub struct Response {
    status: StatusCode,
    headers: Vec<Header>,
    body: Vec<u8>,
}

impl View for Response {
    type V = ResponseView;

    closed spec fn view(&self) -> ResponseView {
        ResponseView {
            status: self.status@,
            headers: header_views(self.headers@),
            body: self.body@,
        }
    }
}

impl Response {
    #[verifier::type_invariant]
    spec fn sound(self) -> bool {
        self.status.well_formed() && distinct_names(header_views(self.headers@))
    }

    /// The same response, known to be one that can be sent.
    fn checked(self) -> (r: Response)
        ensures
            r == self,
            r@.well_formed(),
    {
        proof {
            use_type_invariant(&self);
        }
        self
    }

    /// The response that carries nothing but `status`.
    fn from_status(status: StatusCode) -> (r: Response)
        ensures
            r@ == bare_status(status@),
    {
        proof {
            use_type_invariant(&status);
        }
        let r = Response { status, headers: Vec::new(), body: Vec::new() };
        assert(r@.headers =~= Seq::empty());
        r
    }

    /// The response with status 200 that carries `body` with the media type
    /// `media`.
    fn from_body(media: HeaderValue, body: Vec<u8>) -> (r: Response)
        ensures
            r@ == typed_body(media@, body@),
    {
        let status = StatusCode::ok();
        let mut headers: Vec<Header> = Vec::new();
        headers.push(Header { name: HeaderName::content_type(), value: media });
        let r = Response { status, headers, body };
        assert(r@.headers =~= seq![(content_type_name(), media@)]);
        r
    }

    /// The built-in answer to a request that no route answers.
    pub(crate) fn not_found() -> (r: Response)
        ensures
            r@ == default_not_found(),
            r@.well_formed(),
    {
        let status = StatusCode::not_found();
        let r = Response { status, headers: Vec::new(), body: "Not Found".as_bytes_vec() };
        assert(r@.headers =~= Seq::empty());
        r
    }

    /// The response that reports an internal failure.
    pub(crate) fn internal_error() -> (r: Response)
        ensures
            r@ == generic_error(),
            r@.well_formed(),
    {
        let status = StatusCode::internal_server_error();
        let r = Response {
            status,
            headers: Vec::new(),
            body: "Internal Server Error".as_bytes_vec(),
        };
        assert(r@.headers =~= Seq::empty());
        r
    }

    /// This response with its status replaced by `status`.
    fn replace_status(self, status: StatusCode) -> (r: Response)
        ensures
            r@ == self@.with_status(status@),
    {
        proof {
            use_type_invariant(&self);
            use_type_invariant(&status);
        }
        Response { status, headers: self.headers, body: self.body }
    }

    /// This response after the header `name` has been set to `value`.
    fn replace_header(self, name: HeaderName, value: HeaderValue) -> (r: Response)
        ensures
            r@ == self@.with_header(name@, value@),
    {
        proof {
            use_type_invariant(&self);
            lemma_set_header(header_views(self.headers@), name@, value@, name@);
        }
        let ghost before = header_views(self.headers@);
        let ghost after = set_header(before, name@, value@);
        let status = self.status;
        let body = self.body;
        let mut headers = self.headers;
        let mut i: usize = 0;
        while i < headers.len()
            invariant
                i <= headers@.len(),
                header_views(headers@) == before,
                after == set_header(before, name@, value@),
                distinct_names(before),
                distinct_names(after),
                status.well_formed(),
                status@ == self@.status,
                body@ == self@.body,
                before == self@.headers,
                forall|k: int| 0 <= k < i ==> (#[trigger] before[k]).0 != name@,
            decreases headers@.len() - i,
        {
            if headers[i].name.same_as(&name) {
                assert(before[i as int].0 == name@);
                headers[i] = Header { name, value };
                assert(header_views(headers@) =~= after);
                return Response { status, headers, body };
            }
            i += 1;
        }
        headers.push(Header { name, value });
        assert(header_views(headers@) =~= after);
        Response { status, headers, body }
    }

    /// The status of the response.
    pub fn status(&self) -> (r: StatusCode)
        ensures
            r@ == self@.status,
            is_status_number(r@),
    {
        proof {
            use_type_invariant(self);
        }
        self.status
    }

    /// The headers of the response, in order. No name occurs twice.
    pub fn headers(&self) -> (r: &[Header])
        ensures
            header_views(r@) == self@.headers,
            self@.well_formed(),
    {
        proof {
            use_type_invariant(self);
        }
        self.headers.as_slice()
    }

    /// The value of the header `name`, if the response has one.
    pub fn header(&self, name: &HeaderName) -> (r: Option<&HeaderValue>)
        ensures
            match r {
                Some(value) => value_of(self@.headers, name@) == Some(value@),
                None => value_of(self@.headers, name@) is None,
            },
    {
        proof {
            use_type_invariant(self);
        }
        let ghost all = header_views(self.headers@);
        let mut i: usize = 0;
        while i < self.headers.len()
            invariant
                i <= self.headers@.len(),
                all == header_views(self.headers@),
                distinct_names(all),
                forall|k: int| 0 <= k < i ==> (#[trigger] all[k]).0 != name@,
            decreases self.headers@.len() - i,
        {
            if self.headers[i].name.same_as(name) {
                assert(all[i as int].0 == name@);
                return Some(&self.headers[i].value);
            }
            i += 1;
        }
        None
    }

    /// The body of the response.
    pub fn body(&self) -> (r: &[u8])
        ensures
            r@ == self@.body,
    {
        self.body.as_slice()
    }

    /// The body of the response, the response given up.
    pub fn into_body(self) -> (r: Vec<u8>)
        ensures
            r@ == self@.body,
    {
        self.body
    }
}

/// A value that can answer a request.
pub trait IntoResponse: Send + Sized {
    /// The response that this value stands for.
    spec fn response(&self) -> ResponseView;

    /// Converts the value into the response it stands for, which is always
    /// one that can be sent.
    fn into_response(self) -> (r: Response)
        ensures
            r@ == self.response(),
            r@.well_formed(),
    ;
}

impl IntoResponse for Response {
    open spec fn response(&self) -> ResponseView {
        self@
    }

    fn into_response(self) -> (r: Response) {
        self.checked()
    }
}

impl IntoResponse for StatusCode {
    open spec fn response(&self) -> ResponseView {
        bare_status(self@)
    }

    fn into_response(self) -> (r: Response) {
        Response::from_status(self).checked()
    }
}

impl IntoResponse for String {
    open spec fn response(&self) -> ResponseView {
        typed_body(text_plain_utf8(), encode_utf8(self@))
    }

    fn into_response(self) -> (r: Response) {
        Response::from_body(HeaderValue::text_plain_utf8(), self.as_str().as_bytes_vec()).checked()
    }
}

impl IntoResponse for &'static str {
    open spec fn response(&self) -> ResponseView {
        typed_body(text_plain_utf8(), encode_utf8(self@))
    }

    fn into_response(self) -> (r: Response) {
        Response::from_body(HeaderValue::text_plain_utf8(), self.as_bytes_vec()).checked()
    }
}

impl IntoResponse for Vec<u8> {
    open spec fn response(&self) -> ResponseView {
        typed_body(application_octet_stream(), self@)
    }

    fn into_response(self) -> (r: Response) {
        Response::from_body(HeaderValue::application_octet_stream(), self).checked()
    }
}

impl IntoResponse for &'static [u8] {
    open spec fn response(&self) -> ResponseView {
        typed_body(application_octet_stream(), self@)
    }

    fn into_response(self) -> (r: Response) {
        Response::from_body(HeaderValue::application_octet_stream(), owned_bytes(self)).checked()
    }
}

impl<R, E> IntoResponse for Result<R, E> where R: IntoResponse, E: Send {
    open spec fn response(&self) -> ResponseView {
        match self {
            Ok(value) => value.response(),
            Err(_) => generic_error(),
        }
    }

    fn into_response(self) -> (r: Response) {
        match self {
            Ok(value) => value.into_response(),
            Err(_) => Response::internal_error().checked(),
        }
    }
}

/// Whether `needle` occurs in `text` as a run of consecutive bytes.
pub open spec fn occurs_in(needle: Seq<u8>, text: Seq<u8>) -> bool {
    exists|at: int|
        0 <= at <= text.len() - needle.len() && #[trigger] text.subrange(
            at,
            at + needle.len(),
        ) == needle
}

/// A failed result is answered without regard to the error: whatever the
/// error is, the response is the one generic error response.
pub proof fn lemma_error_response_is_fixed<R: IntoResponse, E: Send>(first: E, second: E)
    ensures
        Err::<R, E>(first).response() == generic_error(),
        Err::<R, E>(first).response() == Err::<R, E>(second).response(),
{
}

/// A failed result tells the client nothing of the error: a text that is no
/// part of the fixed body of the generic error response, such as the text of
/// the error, is no part of the body of the response.
pub proof fn lemma_error_text_is_not_sent<R: IntoResponse, E: Send>(error: E, text: Seq<u8>)
    requires
        !occurs_in(text, generic_error_body()),
    ensures
        !occurs_in(text, Err::<R, E>(error).response().body),
{
}

impl IntoResponse for Cow<'static, str> {
    open spec fn response(&self) -> ResponseView {
        typed_body(text_plain_utf8(), encode_utf8(self@))
    }

    fn into_response(self) -> (r: Response) {
        match self {
            Cow::Borrowed(text) => text.into_response(),
            Cow::Owned(text) => text.into_response(),
        }
    }
}

/// A value that can be the body of a response.
pub trait IntoBody: Send + Sized {
    /// The bytes of the body.
    spec fn body(&self) -> Seq<u8>;

    /// Converts the value into the bytes of the body.
    fn into_body(self) -> (r: Vec<u8>)
        ensures
            r@ == self.body(),
    ;
}

impl IntoBody for Vec<u8> {
    open spec fn body(&self) -> Seq<u8> {
        self@
    }

    fn into_body(self) -> (r: Vec<u8>) {
        self
    }
}

impl IntoBody for &'static [u8] {
    open spec fn body(&self) -> Seq<u8> {
        self@
    }

    fn into_body(self) -> (r: Vec<u8>) {
        owned_bytes(self)
    }
}

impl IntoBody for String {
    open spec fn body(&self) -> Seq<u8> {
        encode_utf8(self@)
    }

    fn into_body(self) -> (r: Vec<u8>) {
        self.as_str().as_bytes_vec()
    }
}

impl IntoBody for &'static str {
    open spec fn body(&self) -> Seq<u8> {
        encode_utf8(self@)
    }

    fn into_body(self) -> (r: Vec<u8>) {
        self.as_bytes_vec()
    }
}

impl IntoBody for Cow<'static, str> {
    open spec fn body(&self) -> Seq<u8> {
        encode_utf8(self@)
    }

    fn into_body(self) -> (r: Vec<u8>) {
        match self {
            Cow::Borrowed(text) => text.as_bytes_vec(),
            Cow::Owned(text) => text.as_str().as_bytes_vec(),
        }
    }
}

/// A body that is sent as HTML.
pub struct Html<T> {
    body: T,
}

/// Marks `body` as HTML.
pub fn html<T>(body: T) -> (r: Html<T>) where T: IntoBody
    ensures
        r.response() == typed_body(text_html_utf8(), body.body()),
{
    Html { body }
}

impl<T> IntoResponse for Html<T> where T: IntoBody {
    closed spec fn response(&self) -> ResponseView {
        typed_body(text_html_utf8(), self.body.body())
    }

    fn into_response(self) -> (r: Response) {
        Response::from_body(HeaderValue::text_html_utf8(), self.body.into_body()).checked()
    }
}

/// The outcome of encoding a value as JSON: the encoded bytes, or the
/// encoder's error.
pub struct Json {
    inner: Result<Vec<u8>, serde_json::Error>,
}

/// Encodes `val` as JSON with `serde_json::to_vec` and keeps the outcome.
/// What the encoder makes of `val` depends on how `T` serializes itself, so
/// nothing is claimed of the outcome here; [`Json::into_response`] says what
/// becomes of either outcome.
#[verifier::external_body]
pub fn json<T>(val: &T) -> (r: Json) where T: serde::Serialize {
    Json { inner: serde_json::to_vec(val) }
}

impl Json {
    /// The encoded bytes, or `None` where encoding failed.
    pub closed spec fn encoded(&self) -> Option<Seq<u8>> {
        match self.inner {
            Ok(bytes) => Some(bytes@),
            Err(_) => None,
        }
    }

    /// Keeps the outcome of an encoding that was made elsewhere.
    pub fn from_encoded(inner: Result<Vec<u8>, serde_json::Error>) -> (r: Json)
        ensures
            r.encoded() == match inner {
                Ok(bytes) => Some(bytes@),
                Err(_) => None,
            },
    {
        Json { inner }
    }

    /// Whether encoding succeeded.
    pub fn is_encoded(&self) -> (r: bool)
        ensures
            r == self.encoded().is_some(),
    {
        self.inner.is_ok()
    }
}

impl IntoResponse for Json {
    open spec fn response(&self) -> ResponseView {
        match self.encoded() {
            Some(bytes) => typed_body(application_json(), bytes),
            None => generic_error(),
        }
    }

    fn into_response(self) -> (r: Response) {
        match self.inner {
            Ok(bytes) => Response::from_body(HeaderValue::application_json(), bytes).checked(),
            Err(_) => Response::internal_error().checked(),
        }
    }
}

/// A value whose response gets another status.
pub struct WithStatus<T> {
    response: T,
    status: StatusCode,
}

/// Decorates `response`: its response is sent with the status `status`.
pub fn with_status<R: IntoResponse>(response: R, status: StatusCode) -> (r: WithStatus<R>)
    ensures
        r.response() == response.response().with_status(status@),
{
    WithStatus { response, status }
}

impl<T> IntoResponse for WithStatus<T> where T: IntoResponse {
    closed spec fn response(&self) -> ResponseView {
        self.response.response().with_status(self.status@)
    }

    fn into_response(self) -> (r: Response) {
        let inner = self.response.into_response();
        inner.replace_status(self.status).checked()
    }
}

/// A value whose response gets one more header.
pub struct WithHeader<T> {
    header: (HeaderName, HeaderValue),
    response: T,
}

/// Decorates `response`: its response is sent with the header `name` set to
/// `value`, in place of any value that the header had.
pub fn with_header<T>(response: T, name: HeaderName, value: HeaderValue) -> (r: WithHeader<T>) where
    T: IntoResponse,

    ensures
        r.response() == response.response().with_header(name@, value@),
{
    WithHeader { header: (name, value), response }
}

impl<T> IntoResponse for WithHeader<T> where T: IntoResponse {
    closed spec fn response(&self) -> ResponseView {
        self.response.response().with_header(self.header.0@, self.header.1@)
    }

    fn into_response(self) -> (r: Response) {
        let inner = self.response.into_response();
        inner.replace_header(self.header.0, self.header.1).checked()
    }
}

} // verus!
