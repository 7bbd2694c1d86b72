//! The request: what the user asked for, and what is handed to the transport.
//!
//! `build` turns a `RequestSpec` into an `OutboundRequest`. Only `POST`, `PUT`
//! and `PATCH` carry a body. A JSON body brings its content type, which a
//! `Content-Type` line of the header text overrides. The bearer token is
//! applied last, so that it wins over an `Authorization` line of the header
//! text.

use crate::form::{
    encode, field_views, files_to_read, parts_of, part_views, paths_to_read, read_views,
    Attachment, AttachmentView, FormField, FormFieldView, FormPart, FormPartView,
};
use crate::header::{parsed_headers, try_parse_headers};
use crate::http_types::{
    header_fields, is_header_name, is_header_value, lookup, name_from_text, try_insert_field,
    value_from_text, HEADER_ROOM,
};
use crate::text::{chars_of, lowercase, push_text, strip_range, trimmed, CharClass};
use vstd::prelude::*;
use vstd::utf8::encode_utf8;

verus! {

/// The request methods that the client offers.
#[derive(Clone, Copy, PartialEq, Eq, Structural, Debug)]
pub enum HttpMethod {
    GET,
    POST,
    PUT,
    DELETE,
    PATCH,
}

impl HttpMethod {
    /// Whether a request with this method carries a body.
    pub open spec fn has_body(self) -> bool {
        self == HttpMethod::POST || self == HttpMethod::PUT || self == HttpMethod::PATCH
    }

    /// Whether a request with this method carries a body.
    pub fn allows_body(self) -> (r: bool)
        ensures
            r == self.has_body(),
    {
        match self {
            HttpMethod::POST | HttpMethod::PUT | HttpMethod::PATCH => true,
            HttpMethod::GET | HttpMethod::DELETE => false,
        }
    }

    /// The name of the method as it is sent and shown.
    pub fn label(self) -> (r: &'static str)
        ensures
            r@ == match self {
                HttpMethod::GET => "GET"@,
                HttpMethod::POST => "POST"@,
                HttpMethod::PUT => "PUT"@,
                HttpMethod::DELETE => "DELETE"@,
                HttpMethod::PATCH => "PATCH"@,
            },
    {
        match self {
            HttpMethod::GET => "GET",
            HttpMethod::POST => "POST",
            HttpMethod::PUT => "PUT",
            HttpMethod::DELETE => "DELETE",
            HttpMethod::PATCH => "PATCH",
        }
    }
}

/// How the body of a request is encoded.
#[derive(Clone, Copy, PartialEq, Eq, Structural, Debug)]
pub enum ContentType {
    Json,
    FormData,
}

/// How a request is authenticated.
#[derive(Debug)]
pub enum Auth {
    NoAuth,
    Bearer(String),
}

/// What an `Auth` holds.
pub enum AuthView {
    NoAuth,
    Bearer(Seq<char>),
}

impl View for Auth {
    type V = AuthView;

    open spec fn view(&self) -> AuthView {
        match self {
            Auth::NoAuth => AuthView::NoAuth,
            Auth::Bearer(token) => AuthView::Bearer(token@),
        }
    }
}

/// A request as the user set it up, taken at the moment of sending.
#[derive(Debug)]
pub struct RequestSpec {
    pub url: String,
    pub method: HttpMethod,
    /// The header text: one `Name: value` to a line.
    pub raw_headers: String,
    pub body_encoding: ContentType,
    pub json_body: String,
    pub form_fields: Vec<FormField>,
    pub auth: Auth,
}

/// What a `RequestSpec` holds.
pub struct RequestSpecView {
    pub url: Seq<char>,
    pub method: HttpMethod,
    pub raw_headers: Seq<char>,
    pub body_encoding: ContentType,
    pub json_body: Seq<char>,
    pub form_fields: Seq<FormFieldView>,
    pub auth: AuthView,
}

impl View for RequestSpec {
    type V = RequestSpecView;

    open spec fn view(&self) -> RequestSpecView {
        RequestSpecView {
            url: self.url@,
            method: self.method,
            raw_headers: self.raw_headers@,
            body_encoding: self.body_encoding,
            json_body: self.json_body@,
            form_fields: field_views(self.form_fields@),
            auth: self.auth@,
        }
    }
}

/// The body of a request.
#[derive(Debug)]
pub enum RequestBody {
    /// No body.
    Empty,
    /// A text, sent as it is.
    Text(String),
    /// The parts of a multipart form. The transport chooses the boundary
    /// and sets the content type that names it, before it applies the
    /// headers of the request.
    Multipart(Vec<FormPart>),
}

/// What a `RequestBody` holds.
pub enum RequestBodyView {
    Empty,
    Text(Seq<char>),
    Multipart(Seq<FormPartView>),
}

impl View for RequestBody {
    type V = RequestBodyView;

    open spec fn view(&self) -> RequestBodyView {
        match self {
            RequestBody::Empty => RequestBodyView::Empty,
            RequestBody::Text(content) => RequestBodyView::Text(content@),
            RequestBody::Multipart(parts) => RequestBodyView::Multipart(part_views(parts@)),
        }
    }
}

/// A request that is ready for the transport. `headers` are the headers as
/// they are sent: the transport applies them as they are.
#[derive(Debug)]
pub struct OutboundRequest {
    pub method: HttpMethod,
    pub url: String,
    pub body: RequestBody,
    pub headers: reqwest::header::HeaderMap,
}

/// Why a request is not sent.
#[derive(Clone, Copy, PartialEq, Eq, Structural, Debug)]
pub enum RequestError {
    /// The URL is empty or white space only.
    EmptyUrl,
    /// The headers are more than the header map takes.
    TooManyHeaders,
}

impl RequestError {
    /// The message to show for this error.
    pub fn message(self) -> (r: &'static str)
        ensures
            r@ == match self {
                RequestError::EmptyUrl => "The URL is empty"@,
                RequestError::TooManyHeaders => "Too many headers"@,
            },
    {
        match self {
            RequestError::EmptyUrl => "The URL is empty",
            RequestError::TooManyHeaders => "Too many headers",
        }
    }
}

/// Whether a URL is empty or white space only.
pub open spec fn is_blank(url: Seq<char>) -> bool {
    trimmed(url).len() == 0
}

/// Whether a URL is empty or white space only.
pub fn blank_url(url: &str) -> (r: bool)
    ensures
        r == is_blank(url@),
{
    let v = chars_of(url);
    assert(v@.subrange(0, v.len() as int) =~= v@);
    let (a, b) = strip_range(&v, 0, v.len(), CharClass::Space);
    a == b
}

/// The value of the `Authorization` header for a bearer token.
pub open spec fn bearer_value(token: Seq<char>) -> Seq<char> {
    "Bearer "@ + token
}

/// Whether a bearer token is sent: it is not empty, and it can stand in a
/// header value.
pub open spec fn sends_token(token: Seq<char>) -> bool {
    token.len() > 0 && is_header_value(bearer_value(token))
}

/// The headers `fields` with the authentication applied: a bearer token
/// that is sent replaces whatever `fields` has under `authorization`.
pub open spec fn with_auth(fields: Map<Seq<char>, Seq<u8>>, auth: AuthView) -> Map<
    Seq<char>,
    Seq<u8>,
> {
    match auth {
        AuthView::Bearer(token) => if sends_token(token) {
            fields.insert("authorization"@, encode_utf8(bearer_value(token)))
        } else {
            fields
        },
        AuthView::NoAuth => fields,
    }
}

/// The content type that a request for `spec` sends when the header text
/// names none: that of its body, where the body is a JSON text.
pub open spec fn body_content_type(spec: RequestSpecView) -> Option<Seq<char>> {
    if spec.method.has_body() && spec.body_encoding == ContentType::Json {
        Some("application/json"@)
    } else {
        None
    }
}

/// The headers `fields` with the content type of the body, where there is
/// one and `fields` names none of its own.
pub open spec fn with_content_type(
    fields: Map<Seq<char>, Seq<u8>>,
    content_type: Option<Seq<char>>,
) -> Map<Seq<char>, Seq<u8>> {
    match content_type {
        Some(value) => if fields.contains_key("content-type"@) {
            fields
        } else {
            fields.insert("content-type"@, encode_utf8(value))
        },
        None => fields,
    }
}

/// The headers of the request for `spec` as they are sent: those of the
/// header text, the content type of the body where the header text names
/// none, and the bearer token over all of them.
pub open spec fn sent_headers(spec: RequestSpecView) -> Map<Seq<char>, Seq<u8>> {
    with_auth(
        with_content_type(parsed_headers(spec.raw_headers), body_content_type(spec)),
        spec.auth,
    )
}

/// Whether the headers of the request for `spec` are sure to fit into one
/// header map.
pub open spec fn request_fits(spec: RequestSpecView) -> bool {
    sent_headers(spec).dom().len() <= HEADER_ROOM
}

/// The paths of the files that the request for `spec` sends.
pub open spec fn request_paths(spec: RequestSpecView) -> Seq<Seq<char>> {
    if spec.method.has_body() && spec.body_encoding == ContentType::FormData {
        paths_to_read(spec.form_fields)
    } else {
        Seq::empty()
    }
}

/// The body of the request for `spec`, of which `reads` are the files.
pub open spec fn request_body(
    spec: RequestSpecView,
    reads: Seq<Option<AttachmentView>>,
) -> RequestBodyView {
    if !spec.method.has_body() {
        RequestBodyView::Empty
    } else {
        match spec.body_encoding {
            ContentType::Json => RequestBodyView::Text(spec.json_body),
            ContentType::FormData => RequestBodyView::Multipart(parts_of(spec.form_fields, reads)),
        }
    }
}

/// A bearer token that is sent wins over any `Authorization` header that was
/// there before, and leaves the other headers as they were.
pub proof fn law_token_wins(fields: Map<Seq<char>, Seq<u8>>, token: Seq<char>)
    requires
        sends_token(token),
    ensures
        with_auth(fields, AuthView::Bearer(token)).contains_key("authorization"@),
        with_auth(fields, AuthView::Bearer(token))["authorization"@] == encode_utf8(
            bearer_value(token),
        ),
        forall|name: Seq<char>|
            name != "authorization"@ ==> (#[trigger] with_auth(
                fields,
                AuthView::Bearer(token),
            ).contains_key(name) <==> fields.contains_key(name)),
        forall|name: Seq<char>|
            name != "authorization"@ && fields.contains_key(name) ==> #[trigger] with_auth(
                fields,
                AuthView::Bearer(token),
            )[name] == fields[name],
{
}

/// The header text decides the content type where it names one; else the
/// body does.
pub proof fn law_content_type(spec: RequestSpecView)
    ensures
        parsed_headers(spec.raw_headers).contains_key("content-type"@) ==> sent_headers(
            spec,
        )["content-type"@] == parsed_headers(spec.raw_headers)["content-type"@],
        !parsed_headers(spec.raw_headers).contains_key("content-type"@) ==> (sent_headers(
            spec,
        ).contains_key("content-type"@) <==> body_content_type(spec) is Some),
        !parsed_headers(spec.raw_headers).contains_key("content-type"@) && body_content_type(
            spec,
        ) is Some ==> sent_headers(spec)["content-type"@] == encode_utf8("application/json"@),
{
    reveal_strlit("content-type");
    reveal_strlit("authorization");
    assert("content-type"@ != "authorization"@) by {
        assert("content-type"@[0] == 'c');
        assert("authorization"@[0] == 'a');
    }
}

/// Puts a header into the map, where the map takes it. The name and the
/// value are legal.
fn set_header(headers: &mut reqwest::header::HeaderMap, name: &str, value: &str) -> (r: bool)
    requires
        is_header_name(name@),
        is_header_value(value@),
    ensures
        r ==> header_fields(*final(headers)) == header_fields(*old(headers)).insert(
            lowercase(name@),
            encode_utf8(value@),
        ),
        !r ==> header_fields(*final(headers)) == header_fields(*old(headers)),
        header_fields(*old(headers)).dom().len() <= HEADER_ROOM ==> r,
{
    match (name_from_text(name), value_from_text(value)) {
        (Some(header_name), Some(header_value)) => try_insert_field(
            headers,
            header_name,
            header_value,
        ),
        _ => true,
    }
}

/// Applies the authentication to the headers of a request, where the map
/// takes it.
fn apply_auth(headers: &mut reqwest::header::HeaderMap, auth: &Auth) -> (r: bool)
    ensures
        r ==> header_fields(*final(headers)) == with_auth(header_fields(*old(headers)), auth@),
        !r ==> header_fields(*final(headers)) == header_fields(*old(headers)),
        header_fields(*old(headers)).dom().len() <= HEADER_ROOM ==> r,
{
    match auth {
        Auth::Bearer(token) => {
            if token.as_str().unicode_len() == 0 {
                return true;
            }
            let mut text = "Bearer ".to_owned();
            push_text(&mut text, token.as_str());
            if value_from_text(text.as_str()).is_none() {
                return true;
            }
            proof {
                reveal_strlit("authorization");
                assert(lowercase("authorization"@) =~= "authorization"@);
            }
            set_header(headers, "authorization", text.as_str())
        },
        Auth::NoAuth => true,
    }
}

/// Applies the content type of the body to the headers of a request, where
/// they name none and the map takes it.
fn apply_content_type(headers: &mut reqwest::header::HeaderMap, spec: &RequestSpec) -> (r: bool)
    ensures
        r ==> header_fields(*final(headers)) == with_content_type(
            header_fields(*old(headers)),
            body_content_type(spec@),
        ),
        !r ==> header_fields(*final(headers)) == header_fields(*old(headers)),
        header_fields(*old(headers)).dom().len() <= HEADER_ROOM ==> r,
{
    if !(spec.method.allows_body() && spec.body_encoding == ContentType::Json) {
        return true;
    }
    proof {
        reveal_strlit("content-type");
        reveal_strlit("application/json");
        assert(lowercase("content-type"@) =~= "content-type"@);
    }
    if lookup(headers, "content-type").is_some() {
        return true;
    }
    set_header(headers, "content-type", "application/json")
}

/// Makes the headers of the request for `spec` as they are sent.
///
/// The result is `None` when the header map reached its size limit, which
/// cannot happen while the headers are at most `HEADER_ROOM`.
pub fn make_headers(spec: &RequestSpec) -> (r: Option<reqwest::header::HeaderMap>)
    ensures
        request_fits(spec@) ==> r is Some,
        r matches Some(headers) ==> header_fields(headers) == sent_headers(spec@),
{
    let ghost parsed = parsed_headers(spec@.raw_headers);
    let ghost typed = with_content_type(parsed, body_content_type(spec@));
    proof {
        crate::header::lemma_field_map_finite(crate::header::header_entries(spec@.raw_headers));
        assert(parsed.dom().subset_of(typed.dom()));
        assert(typed.dom().subset_of(sent_headers(spec@).dom()));
        assert(typed.dom().finite());
        assert(sent_headers(spec@).dom().finite());
        vstd::set_lib::lemma_len_subset(parsed.dom(), typed.dom());
        vstd::set_lib::lemma_len_subset(typed.dom(), sent_headers(spec@).dom());
    }
    let mut headers = match try_parse_headers(spec.raw_headers.as_str()) {
        Some(headers) => headers,
        None => {
            return None;
        },
    };
    if !apply_content_type(&mut headers, spec) {
        return None;
    }
    if !apply_auth(&mut headers, &spec.auth) {
        return None;
    }
    Some(headers)
}

impl RequestSpec {
    /// The paths of the files that this request sends, in the order in which
    /// `build` expects what was read from them.
    pub fn files_to_read(&self) -> (paths: Vec<String>)
        ensures
            crate::form::texts(paths@) == request_paths(self@),
    {
        if self.method.allows_body() && self.body_encoding == ContentType::FormData {
            files_to_read(&self.form_fields)
        } else {
            let paths: Vec<String> = Vec::new();
            assert(crate::form::texts(paths@) =~= Seq::<Seq<char>>::empty());
            paths
        }
    }
}

/// Builds the request for `spec`.
///
/// `reads` holds an entry for each path of `spec.files_to_read()`, in that
/// order: the file, or `None` where it could not be read. The request is
/// refused when the header map reached its size limit, which cannot happen
/// while the headers are at most `HEADER_ROOM`.
pub fn build(spec: RequestSpec, reads: Vec<Option<Attachment>>) -> (r: Result<
    OutboundRequest,
    RequestError,
>)
    requires
        reads.len() == request_paths(spec@).len(),
    ensures
        request_fits(spec@) ==> r is Ok,
        r matches Err(e) ==> e == RequestError::TooManyHeaders,
        r matches Ok(request) ==> {
            &&& request.method == spec.method
            &&& request.url@ == spec@.url
            &&& request.body@ == request_body(spec@, read_views(reads@))
            &&& header_fields(request.headers) == sent_headers(spec@)
        },
        r matches Ok(request) ==> (!spec.method.has_body() ==> request.body is Empty),
{
    let headers = match make_headers(&spec) {
        Some(headers) => headers,
        None => {
            return Err(RequestError::TooManyHeaders);
        },
    };
    let body = if !spec.method.allows_body() {
        RequestBody::Empty
    } else {
        match spec.body_encoding {
            ContentType::Json => RequestBody::Text(spec.json_body),
            ContentType::FormData => RequestBody::Multipart(encode(&spec.form_fields, reads)),
        }
    };
    Ok(OutboundRequest { method: spec.method, url: spec.url, body, headers })
}

} // verus!
