//! Header names, header values and the header list of a response.

use vstd::prelude::*;
use vstd::string::StringSliceAdditionalSpecFns;
use crate::octets::{owned_bytes, same_bytes};

verus! {

/// The canonical form that the `http` crate gives the header name `src`, or
/// `None` where it rejects `src`.
pub uninterp spec fn canonical_header_name(src: Seq<u8>) -> Option<Seq<u8>>;

/// Runs `http::header::HeaderName::from_bytes` on `src` and hands back the
/// bytes of the name it built. The result is whatever that function makes of
/// `src`; nothing more is claimed of it.
#[verifier::external_body]
fn http_header_name(src: &[u8]) -> (r: Option<Vec<u8>>)
    ensures
        match r {
            Some(name) => canonical_header_name(src@) == Some(name@),
            None => canonical_header_name(src@) is None,
        },
{
    match http::header::HeaderName::from_bytes(src) {
        Ok(name) => Some(name.as_str().as_bytes().to_vec()),
        Err(_) => None,
    }
}

/// The bytes of `http::header::CONTENT_TYPE`, which reads `content-type`.
#[verifier::external_body]
fn http_content_type_name() -> (r: Vec<u8>)
    ensures
        r@ == content_type_name(),
{
    http::header::CONTENT_TYPE.as_str().as_bytes().to_vec()
}

/// The text of `mime::TEXT_PLAIN_UTF_8`, as its `Display` writes it.
#[verifier::external_body]
fn mime_text_plain_utf8() -> (r: Vec<u8>)
    ensures
        r@ == text_plain_utf8(),
{
    mime::TEXT_PLAIN_UTF_8.to_string().into_bytes()
}

/// The text of `mime::TEXT_HTML_UTF_8`, as its `Display` writes it.
#[verifier::external_body]
fn mime_text_html_utf8() -> (r: Vec<u8>)
    ensures
        r@ == text_html_utf8(),
{
    mime::TEXT_HTML_UTF_8.to_string().into_bytes()
}

/// The text of `mime::APPLICATION_JSON`, as its `Display` writes it.
#[verifier::external_body]
fn mime_application_json() -> (r: Vec<u8>)
    ensures
        r@ == application_json(),
{
    mime::APPLICATION_JSON.to_string().into_bytes()
}

/// The text of `mime::APPLICATION_OCTET_STREAM`, as its `Display` writes it.
#[verifier::external_body]
fn mime_application_octet_stream() -> (r: Vec<u8>)
    ensures
        r@ == application_octet_stream(),
{
    mime::APPLICATION_OCTET_STREAM.to_string().into_bytes()
}

/// Whether `http::header::HeaderValue::from_bytes` accepts `src`. It accepts a
/// byte string exactly when every byte is a tab or is at least 32 and not 127.
#[verifier::external_body]
fn http_accepts_value(src: &[u8]) -> (r: bool)
    ensures
        r == is_header_value(src@),
{
    http::header::HeaderValue::from_bytes(src).is_ok()
}

/// The name of the header that tells the media type of a body.
pub open spec fn content_type_name() -> Seq<u8> {
    "content-type".spec_bytes()
}

/// The media type of plain text in UTF-8.
pub open spec fn text_plain_utf8() -> Seq<u8> {
    "text/plain; charset=utf-8".spec_bytes()
}

/// The media type of HTML in UTF-8.
pub open spec fn text_html_utf8() -> Seq<u8> {
    "text/html; charset=utf-8".spec_bytes()
}

/// The media type of JSON.
pub open spec fn application_json() -> Seq<u8> {
    "application/json".spec_bytes()
}

/// The media type of arbitrary bytes.
pub open spec fn application_octet_stream() -> Seq<u8> {
    "application/octet-stream".spec_bytes()
}

/// Whether `b` may stand in a header value.
pub open spec fn is_value_byte(b: u8) -> bool {
    (b >= 32 && b != 127) || b == 9
}

/// Whether `src` can be sent as a header value.
pub open spec fn is_header_value(src: Seq<u8>) -> bool {
    forall|i: int| 0 <= i < src.len() ==> is_value_byte(#[trigger] src[i])
}

/// A header name in canonical form.
#[derive(Debug)]
pub struct HeaderName {
    bytes: Vec<u8>,
}

impl View for HeaderName {
    type V = Seq<u8>;

    closed spec fn view(&self) -> Seq<u8> {
        self.bytes@
    }
}

impl HeaderName {
    /// The canonical form of the name `src`, or `None` where `src` is not a
    /// header name.
    pub fn parse(src: &str) -> (r: Option<HeaderName>)
        ensures
            match r {
                Some(name) => canonical_header_name(src.spec_bytes()) == Some(name@),
                None => canonical_header_name(src.spec_bytes()) is None,
            },
    {
        match http_header_name(src.as_bytes()) {
            Some(bytes) => Some(HeaderName { bytes }),
            None => None,
        }
    }

    /// The name `content-type`.
    pub fn content_type() -> (r: HeaderName)
        ensures
            r@ == content_type_name(),
    {
        HeaderName { bytes: http_content_type_name() }
    }

    /// The bytes of the name.
    pub fn as_bytes(&self) -> (r: &[u8])
        ensures
            r@ == self@,
    {
        self.bytes.as_slice()
    }

    /// A copy of the name.
    pub fn duplicate(&self) -> (r: HeaderName)
        ensures
            r@ == self@,
    {
        HeaderName { bytes: owned_bytes(self.bytes.as_slice()) }
    }

    /// Whether two names are the same name.
    pub fn same_as(&self, other: &HeaderName) -> (r: bool)
        ensures
            r == (self@ == other@),
    {
        same_bytes(self.bytes.as_slice(), other.bytes.as_slice())
    }
}

/// A header value.
#[derive(Debug)]
pub struct HeaderValue {
    bytes: Vec<u8>,
}

impl View for HeaderValue {
    type V = Seq<u8>;

    closed spec fn view(&self) -> Seq<u8> {
        self.bytes@
    }
}

impl HeaderValue {
    /// The value made of the bytes of `src`, or `None` where they cannot be
    /// sent as a header value.
    pub fn parse(src: &str) -> (r: Option<HeaderValue>)
        ensures
            r is Some <==> is_header_value(src.spec_bytes()),
            r matches Some(value) ==> value@ == src.spec_bytes(),
    {
        let bytes = src.as_bytes();
        if http_accepts_value(bytes) {
            Some(HeaderValue { bytes: owned_bytes(bytes) })
        } else {
            None
        }
    }

    /// The media type `text/plain; charset=utf-8`.
    pub fn text_plain_utf8() -> (r: HeaderValue)
        ensures
            r@ == text_plain_utf8(),
    {
        HeaderValue { bytes: mime_text_plain_utf8() }
    }

    /// The media type `text/html; charset=utf-8`.
    pub fn text_html_utf8() -> (r: HeaderValue)
        ensures
            r@ == text_html_utf8(),
    {
        HeaderValue { bytes: mime_text_html_utf8() }
    }

    /// The media type `application/json`.
    pub fn application_json() -> (r: HeaderValue)
        ensures
            r@ == application_json(),
    {
        HeaderValue { bytes: mime_application_json() }
    }

    /// The media type `application/octet-stream`.
    pub fn application_octet_stream() -> (r: HeaderValue)
        ensures
            r@ == application_octet_stream(),
    {
        HeaderValue { bytes: mime_application_octet_stream() }
    }

    /// The bytes of the value.
    pub fn as_bytes(&self) -> (r: &[u8])
        ensures
            r@ == self@,
    {
        self.bytes.as_slice()
    }

    /// A copy of the value.
    pub fn duplicate(&self) -> (r: HeaderValue)
        ensures
            r@ == self@,
    {
        HeaderValue { bytes: owned_bytes(self.bytes.as_slice()) }
    }
}

/// One header of a response: a name and the value it carries.
#[derive(Debug)]
pub struct Header {
    pub name: HeaderName,
    pub value: HeaderValue,
}

impl View for Header {
    type V = (Seq<u8>, Seq<u8>);

    open spec fn view(&self) -> (Seq<u8>, Seq<u8>) {
        (self.name@, self.value@)
    }
}

/// The names and values of a list of headers, in order.
pub open spec fn header_views(headers: Seq<Header>) -> Seq<(Seq<u8>, Seq<u8>)> {
    Seq::new(headers.len(), |i: int| headers[i]@)
}

/// Whether some header of `headers` has the name `name`.
pub open spec fn has_name(headers: Seq<(Seq<u8>, Seq<u8>)>, name: Seq<u8>) -> bool {
    exists|i: int| 0 <= i < headers.len() && (#[trigger] headers[i]).0 == name
}

/// Whether no two headers of `headers` have the same name.
pub open spec fn distinct_names(headers: Seq<(Seq<u8>, Seq<u8>)>) -> bool {
    forall|i: int, j: int|
        0 <= i < j < headers.len() ==> (#[trigger] headers[i]).0 != (#[trigger] headers[j]).0
}

/// The value that `headers` gives the name `name`, if any.
pub open spec fn value_of(headers: Seq<(Seq<u8>, Seq<u8>)>, name: Seq<u8>) -> Option<Seq<u8>> {
    if has_name(headers, name) {
        let i = choose|i: int| 0 <= i < headers.len() && (#[trigger] headers[i]).0 == name;
        Some(headers[i].1)
    } else {
        None
    }
}

/// `headers` after the name `name` has been given the value `value`: a header
/// of that name keeps its place and takes the new value; without one, the
/// header is added at the end.
pub open spec fn set_header(
    headers: Seq<(Seq<u8>, Seq<u8>)>,
    name: Seq<u8>,
    value: Seq<u8>,
) -> Seq<(Seq<u8>, Seq<u8>)> {
    if has_name(headers, name) {
        Seq::new(
            headers.len(),
            |i: int|
                if headers[i].0 == name {
                    (name, value)
                } else {
                    headers[i]
                },
        )
    } else {
        headers.push((name, value))
    }
}

/// Setting a header keeps the names distinct, gives the name its new value and
/// leaves the value of every other name as it was.
pub proof fn lemma_set_header(
    headers: Seq<(Seq<u8>, Seq<u8>)>,
    name: Seq<u8>,
    value: Seq<u8>,
    other: Seq<u8>,
)
    requires
        distinct_names(headers),
    ensures
        distinct_names(set_header(headers, name, value)),
        value_of(set_header(headers, name, value), name) == Some(value),
        other != name ==> value_of(set_header(headers, name, value), other) == value_of(
            headers,
            other,
        ),
{
    let after = set_header(headers, name, value);
    if has_name(headers, name) {
        let i = choose|i: int| 0 <= i < headers.len() && (#[trigger] headers[i]).0 == name;
        assert(after[i].0 == name);
    } else {
        assert(after[headers.len() as int].0 == name);
    }
    assert(has_name(after, name));
    let k = choose|k: int| 0 <= k < after.len() && (#[trigger] after[k]).0 == name;
    assert(after[k].1 == value);
    if other != name {
        if has_name(headers, other) {
            let a = choose|a: int| 0 <= a < headers.len() && (#[trigger] headers[a]).0 == other;
            assert(after[a] == headers[a]);
            assert(has_name(after, other));
            let b = choose|b: int| 0 <= b < after.len() && (#[trigger] after[b]).0 == other;
            assert(b < headers.len());
            assert(after[b] == headers[b]);
            assert(a == b);
        } else {
            if has_name(after, other) {
                let b = choose|b: int| 0 <= b < after.len() && (#[trigger] after[b]).0 == other;
                if b < headers.len() {
                    assert(headers[b].0 == other);
                }
                assert(false);
            }
        }
    }
}

} // verus!
