//! Classification of what came back from the transport.
//!
//! A response is classified in two steps, because what is read from the
//! connection depends on the first. `classify_head` takes the status and the
//! headers and says, among other things, whether the payload is binary. The
//! caller then reads the payload as bytes or as text, and `complete_binary` or
//! `complete_text` makes the result to show. A request that failed before any
//! response gives `failure_response`.

use crate::http_types::{
    ascii_text, canonical_reason_of, header_fields, header_listing, is_header_name, is_visible,
    listing, lookup, reason_phrase, value_text,
};
use crate::json::{prettified, prettify};
use crate::text::{
    chars_of, decimal, find_char, find_in_range, find_text, find_text_in_range, has_prefix,
    last_segment, lemma_find_text, lemma_last_segment, lowercase, push_decimal, push_text,
    starts_with_at, string_of, strip_range, stripped, CharClass,
};
use vstd::prelude::*;

verus! {

/// The result of one request, ready to be shown.
///
/// Where `is_binary` holds, `bytes` is the payload and `body` describes it;
/// otherwise `body` is the payload and `bytes` is empty.
pub struct HttpResponse {
    pub status: String,
    pub headers: String,
    pub body: String,
    pub is_binary: bool,
    pub filename: String,
    pub bytes: Vec<u8>,
    pub content_type: String,
}

/// What an `HttpResponse` holds.
pub struct HttpResponseView {
    pub status: Seq<char>,
    pub headers: Seq<char>,
    pub body: Seq<char>,
    pub is_binary: bool,
    pub filename: Seq<char>,
    pub bytes: Seq<u8>,
    pub content_type: Seq<char>,
}

impl View for HttpResponse {
    type V = HttpResponseView;

    open spec fn view(&self) -> HttpResponseView {
        HttpResponseView {
            status: self.status@,
            headers: self.headers@,
            body: self.body@,
            is_binary: self.is_binary,
            filename: self.filename@,
            bytes: self.bytes@,
            content_type: self.content_type@,
        }
    }
}

impl HttpResponseView {
    /// A response that is not binary carries no bytes.
    pub open spec fn well_formed(self) -> bool {
        !self.is_binary ==> self.bytes.len() == 0
    }
}

/// What is known of a response once its status and headers are in.
pub struct ResponseHead {
    pub status: String,
    pub headers: String,
    pub content_type: String,
    pub filename: String,
    /// Whether the payload is to be read as bytes.
    pub is_binary: bool,
}

/// What a `ResponseHead` holds.
pub struct ResponseHeadView {
    pub status: Seq<char>,
    pub headers: Seq<char>,
    pub content_type: Seq<char>,
    pub filename: Seq<char>,
    pub is_binary: bool,
}

impl View for ResponseHead {
    type V = ResponseHeadView;

    open spec fn view(&self) -> ResponseHeadView {
        ResponseHeadView {
            status: self.status@,
            headers: self.headers@,
            content_type: self.content_type@,
            filename: self.filename@,
            is_binary: self.is_binary,
        }
    }
}

/// The status line: the number of the status code, a space, and the reason
/// phrase where there is one.
pub open spec fn status_line(code: u16, reason: Option<Seq<char>>) -> Seq<char> {
    decimal(code as nat) + seq![' '] + match reason {
        Some(phrase) => phrase,
        None => Seq::empty(),
    }
}

/// The value of the header `name` as text, where `name` is a header name,
/// in any case of its letters, the header is there, and its value is visible
/// ASCII.
pub open spec fn header_text(fields: Map<Seq<char>, Seq<u8>>, name: Seq<char>) -> Option<
    Seq<char>,
> {
    let key = lowercase(name);
    if is_header_name(name) && fields.contains_key(key) && is_visible(fields[key]) {
        Some(ascii_text(fields[key]))
    } else {
        None
    }
}

/// The content type that the headers give, or the empty text.
pub open spec fn content_type_of(fields: Map<Seq<char>, Seq<u8>>) -> Seq<char> {
    match header_text(fields, "content-type"@) {
        Some(value) => value,
        None => Seq::empty(),
    }
}

/// Whether a content type stands for a payload that is not text. The prefix
/// is compared as it is written, capitals and all.
pub open spec fn is_binary_type(content_type: Seq<char>) -> bool {
    ||| has_prefix(content_type, "image/"@)
    ||| has_prefix(content_type, "application/pdf"@)
    ||| has_prefix(content_type, "application/octet-stream"@)
    ||| has_prefix(content_type, "video/"@)
    ||| has_prefix(content_type, "audio/"@)
}

/// The file name that a `content-disposition` value gives: what follows its
/// first `filename=` up to the end of the line, without the quotation marks
/// around it.
pub open spec fn filename_in(disposition: Seq<char>) -> Option<Seq<char>> {
    let key = "filename="@;
    let at = find_text(disposition, key);
    if at >= disposition.len() {
        None
    } else {
        let after = disposition.skip(at + key.len());
        let line = after.take(find_char(after, '\n'));
        Some(stripped(line, CharClass::Quote))
    }
}

/// The file name that a URL gives: its last segment, or `download` where
/// that is empty.
pub open spec fn url_filename(url: Seq<char>) -> Seq<char> {
    if last_segment(url).len() == 0 {
        "download"@
    } else {
        last_segment(url)
    }
}

/// The file name of a response: the one of its `content-disposition` header
/// where that gives one, else the one of the URL.
pub open spec fn filename_of(fields: Map<Seq<char>, Seq<u8>>, url: Seq<char>) -> Seq<char> {
    match header_text(fields, "content-disposition"@) {
        Some(disposition) => match filename_in(disposition) {
            Some(name) => name,
            None => url_filename(url),
        },
        None => url_filename(url),
    }
}

/// The text that stands for a binary payload of `len` bytes.
pub open spec fn binary_summary(len: nat, content_type: Seq<char>) -> Seq<char> {
    "Binary file ("@ + decimal(len) + " bytes)\n\nContent-Type: "@ + content_type
}

/// What is known of the response to a request for `url` that came with
/// `status` and headers `fields`, of which `listed` is the rendering.
pub open spec fn head_of(
    url: Seq<char>,
    status: u16,
    fields: Map<Seq<char>, Seq<u8>>,
    listed: Seq<char>,
) -> ResponseHeadView {
    ResponseHeadView {
        status: status_line(status, canonical_reason_of(status)),
        headers: listed,
        content_type: content_type_of(fields),
        filename: filename_of(fields, url),
        is_binary: is_binary_type(content_type_of(fields)),
    }
}

/// The result for a binary payload that was read, or could not be read.
pub open spec fn binary_response(
    head: ResponseHeadView,
    read: Result<Seq<u8>, Seq<char>>,
) -> HttpResponseView {
    HttpResponseView {
        status: head.status,
        headers: head.headers,
        body: match read {
            Ok(bytes) => binary_summary(bytes.len(), head.content_type),
            Err(message) => "Error reading binary data: "@ + message,
        },
        is_binary: true,
        filename: head.filename,
        bytes: match read {
            Ok(bytes) => bytes,
            Err(_) => Seq::empty(),
        },
        content_type: head.content_type,
    }
}

/// The result for a text payload that was read, or could not be read.
pub open spec fn text_response(
    head: ResponseHeadView,
    read: Result<Seq<char>, Seq<char>>,
) -> HttpResponseView {
    HttpResponseView {
        status: head.status,
        headers: head.headers,
        body: match read {
            Ok(text) => prettified(text),
            Err(message) => "Error reading body: "@ + message,
        },
        is_binary: false,
        filename: head.filename,
        bytes: Seq::empty(),
        content_type: head.content_type,
    }
}

/// The result for a request that got no response.
pub open spec fn failed_response(message: Seq<char>) -> HttpResponseView {
    HttpResponseView {
        status: "Error"@,
        headers: Seq::empty(),
        body: "Request failed: "@ + message,
        is_binary: false,
        filename: Seq::empty(),
        bytes: Seq::empty(),
        content_type: Seq::empty(),
    }
}

/// The file name that a URL gives is never empty and holds no `/`, whatever
/// the URL.
pub proof fn law_url_filename(url: Seq<char>)
    ensures
        url_filename(url).len() > 0,
        forall|i: int| 0 <= i < url_filename(url).len() ==> #[trigger] url_filename(url)[i] != '/',
{
    reveal_strlit("download");
    lemma_last_segment(url);
}

/// A response without a `content-disposition` header is named after the URL.
pub proof fn law_filename_falls_back(fields: Map<Seq<char>, Seq<u8>>, url: Seq<char>)
    requires
        !fields.contains_key("content-disposition"@),
    ensures
        filename_of(fields, url) == url_filename(url),
{
    reveal_strlit("content-disposition");
    assert(lowercase("content-disposition"@) =~= "content-disposition"@);
}

/// The text that is shown for a binary payload says how long the payload is
/// and nothing else of it: two payloads of one length are shown alike, and
/// the payload itself is kept whole.
pub proof fn law_binary_body_is_summary(head: ResponseHeadView, a: Seq<u8>, b: Seq<u8>)
    requires
        a.len() == b.len(),
    ensures
        binary_response(head, Ok(a)).body == binary_response(head, Ok(b)).body,
        binary_response(head, Ok(a)).is_binary,
        binary_response(head, Ok(a)).bytes == a,
{
}

/// The status line for `code` with the reason phrase `reason`.
pub fn format_status(code: u16, reason: Option<String>) -> (r: String)
    ensures
        r@ == status_line(
            code,
            match reason {
                Some(phrase) => Some(phrase@),
                None => None,
            },
        ),
{
    let mut out = String::new();
    push_decimal(&mut out, code as u64);
    out.push(' ');
    match reason {
        Some(phrase) => {
            push_text(&mut out, phrase.as_str());
        },
        None => {
            assert(out@ + Seq::<char>::empty() =~= out@);
        },
    }
    assert(out@ =~= status_line(
        code,
        match reason {
            Some(phrase) => Some(phrase@),
            None => None,
        },
    ));
    out
}

/// The status line for `code` with its standard reason phrase.
pub fn status_text(code: u16) -> (r: String)
    ensures
        r@ == status_line(code, canonical_reason_of(code)),
{
    format_status(code, reason_phrase(code))
}

/// The value of the header `name` as text, where the headers have it as
/// text.
pub fn header_string(headers: &reqwest::header::HeaderMap, name: &str) -> (r: Option<String>)
    ensures
        r is Some <==> header_text(header_fields(*headers), name@) is Some,
        r matches Some(s) ==> header_text(header_fields(*headers), name@) == Some(s@),
{
    match lookup(headers, name) {
        Some(value) => value_text(value),
        None => None,
    }
}

/// Whether `v` starts with the text `p`.
fn starts_with_text(v: &Vec<char>, p: &str) -> (r: bool)
    ensures
        r == has_prefix(v@, p@),
{
    let pv = chars_of(p);
    assert(v@.subrange(0, v.len() as int) =~= v@);
    starts_with_at(v, 0, v.len(), &pv)
}

/// Whether a payload of this content type is read as bytes.
pub fn is_binary_content(content_type: &str) -> (r: bool)
    ensures
        r == is_binary_type(content_type@),
{
    let v = chars_of(content_type);
    starts_with_text(&v, "image/") || starts_with_text(&v, "application/pdf") || starts_with_text(
        &v,
        "application/octet-stream",
    ) || starts_with_text(&v, "video/") || starts_with_text(&v, "audio/")
}

/// The file name that a `content-disposition` value gives, where it has one.
pub fn disposition_filename(disposition: &str) -> (r: Option<String>)
    ensures
        r is Some <==> filename_in(disposition@) is Some,
        r matches Some(s) ==> filename_in(disposition@) == Some(s@),
{
    let v = chars_of(disposition);
    let key = chars_of("filename=");
    let n = v.len();
    assert(v@.subrange(0, n as int) =~= v@);
    let at = find_text_in_range(&v, &key, 0, n);
    if at == n {
        return None;
    }
    proof {
        lemma_find_text(v@, key@);
    }
    let start = at + key.len();
    let end = find_in_range(&v, '\n', start, n);
    let (a, b) = strip_range(&v, start, end, CharClass::Quote);
    proof {
        let after = v@.skip(start as int);
        assert(after =~= v@.subrange(start as int, n as int));
        assert(after.take(end - start) =~= v@.subrange(start as int, end as int));
    }
    Some(string_of(&v, a, b))
}

/// The file name that a URL gives.
pub fn url_file_name(url: &str) -> (r: String)
    ensures
        r@ == url_filename(url@),
{
    let v = chars_of(url);
    let n = v.len();
    let mut i: usize = n;
    assert(v@.take(n as int) =~= v@);
    assert(last_segment(v@) + v@.subrange(n as int, n as int) =~= last_segment(v@));
    while i > 0 && v[i - 1] != '/'
        invariant
            i <= n == v.len(),
            last_segment(v@) == last_segment(v@.take(i as int)) + v@.subrange(i as int, n as int),
        decreases i,
    {
        proof {
            let s = v@.take(i as int);
            assert(s.last() == v@[i - 1]);
            assert(s.drop_last() =~= v@.take(i - 1));
            assert(last_segment(s.drop_last()).push(s.last()) + v@.subrange(i as int, n as int)
                =~= last_segment(s.drop_last()) + v@.subrange(i - 1, n as int));
        }
        i -= 1;
    }
    proof {
        let s = v@.take(i as int);
        if i > 0 {
            assert(s.last() == v@[i - 1]);
        }
        assert(last_segment(s) =~= Seq::<char>::empty());
        assert(last_segment(v@) =~= v@.subrange(i as int, n as int));
    }
    if i == n {
        "download".to_owned()
    } else {
        string_of(&v, i, n)
    }
}

/// The file name of a response to a request for `url`.
pub fn response_filename(headers: &reqwest::header::HeaderMap, url: &str) -> (r: String)
    ensures
        r@ == filename_of(header_fields(*headers), url@),
{
    match header_string(headers, "content-disposition") {
        Some(disposition) => match disposition_filename(disposition.as_str()) {
            Some(name) => name,
            None => url_file_name(url),
        },
        None => url_file_name(url),
    }
}

/// The content type that the headers give, or the empty text.
pub fn response_content_type(headers: &reqwest::header::HeaderMap) -> (r: String)
    ensures
        r@ == content_type_of(header_fields(*headers)),
{
    match header_string(headers, "content-type") {
        Some(value) => value,
        None => String::new(),
    }
}

/// The text that stands for a binary payload of `len` bytes.
pub fn summarize_binary(len: usize, content_type: &str) -> (r: String)
    ensures
        r@ == binary_summary(len as nat, content_type@),
{
    let mut out = "Binary file (".to_owned();
    push_decimal(&mut out, len as u64);
    push_text(&mut out, " bytes)\n\nContent-Type: ");
    push_text(&mut out, content_type);
    out
}

/// `prefix` followed by `message`.
fn prefixed(prefix: &str, message: &str) -> (r: String)
    ensures
        r@ == prefix@ + message@,
{
    let mut out = prefix.to_owned();
    push_text(&mut out, message);
    out
}

/// Classifies the head of a response to a request for `url`: its status
/// line, the rendering of its headers, its content type, the name under
/// which its payload would be saved, and whether that payload is binary.
pub fn classify_head(url: &str, status: u16, headers: &reqwest::header::HeaderMap) -> (r:
    ResponseHead)
    ensures
        r@ == head_of(url@, status, header_fields(*headers), header_listing(*headers)),
{
    let content_type = response_content_type(headers);
    let is_binary = is_binary_content(content_type.as_str());
    ResponseHead {
        status: status_text(status),
        headers: listing(headers),
        content_type,
        filename: response_filename(headers, url),
        is_binary,
    }
}

impl ResponseHead {
    /// The result for a payload that was read as bytes: `read` holds the
    /// bytes, or the message of the failure to read them.
    pub fn complete_binary(self, read: Result<Vec<u8>, String>) -> (r: HttpResponse)
        ensures
            r@ == binary_response(
                self@,
                match read {
                    Ok(bytes) => Ok(bytes@),
                    Err(message) => Err(message@),
                },
            ),
            r@.well_formed(),
    {
        let (body, bytes) = match read {
            Ok(bytes) => (summarize_binary(bytes.len(), self.content_type.as_str()), bytes),
            Err(message) => (prefixed("Error reading binary data: ", message.as_str()), Vec::new()),
        };
        HttpResponse {
            status: self.status,
            headers: self.headers,
            body,
            is_binary: true,
            filename: self.filename,
            bytes,
            content_type: self.content_type,
        }
    }

    /// The result for a payload that was read as text: `read` holds the
    /// text, or the message of the failure to read it. A text that is JSON is
    /// shown in its indented form.
    pub fn complete_text(self, read: Result<String, String>) -> (r: HttpResponse)
        ensures
            r@ == text_response(
                self@,
                match read {
                    Ok(text) => Ok(text@),
                    Err(message) => Err(message@),
                },
            ),
            r@.well_formed(),
    {
        let body = match read {
            Ok(text) => prettify(text),
            Err(message) => prefixed("Error reading body: ", message.as_str()),
        };
        HttpResponse {
            status: self.status,
            headers: self.headers,
            body,
            is_binary: false,
            filename: self.filename,
            bytes: Vec::new(),
            content_type: self.content_type,
        }
    }
}

/// The result for a request that got no response: `message` says why.
pub fn failure_response(message: &str) -> (r: HttpResponse)
    ensures
        r@ == failed_response(message@),
        r@.well_formed(),
{
    HttpResponse {
        status: "Error".to_owned(),
        headers: String::new(),
        body: prefixed("Request failed: ", message),
        is_binary: false,
        filename: String::new(),
        bytes: Vec::new(),
        content_type: String::new(),
    }
}

} // verus!
