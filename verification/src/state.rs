//! The state of the client between two frames of its window.
//!
//! The window shows this state and reports what the user did; every change of
//! the state is a function of this module. Sending is split in two: the state
//! hands out a snapshot of the request, and takes the result when it arrives.

use crate::form::{field_views, FormField, FormFieldView};
use crate::header::{headers_fit, parse_headers, parsed_headers};
use crate::http_types::header_fields;
use crate::json::{prettified, prettify};
use crate::request::{
    blank_url, is_blank, make_headers, request_fits, Auth, AuthView, ContentType, HttpMethod,
    RequestError, RequestSpec, RequestSpecView,
};
use crate::response::{HttpResponse, HttpResponseView};
use crate::text::{chars_of, has_prefix, push_text, starts_with_at};
use vstd::prelude::*;

verus! {

/// The tabs of the request panel.
#[derive(Clone, Copy, PartialEq, Eq, Structural, Debug)]
pub enum RequestTab {
    Body,
    Headers,
    Auth,
}

/// The tabs of the response panel. Before the first response none is open.
#[derive(Clone, Copy, PartialEq, Eq, Structural, Debug)]
pub enum ResponseTab {
    Hidden,
    Body,
    Headers,
}

/// The kinds of authentication that the client offers.
#[derive(Clone, Copy, PartialEq, Eq, Structural, Debug)]
pub enum AuthType {
    NoAuth,
    Bearer,
}

/// How the two panels are laid out.
#[derive(Clone, Copy, PartialEq, Eq, Structural, Debug)]
pub enum LayoutMode {
    Horizontal,
    Vertical,
}

/// What the response panel shows.
#[derive(Clone, Copy, PartialEq, Eq, Structural, Debug)]
pub enum ResponseDisplay {
    /// Nothing.
    Blank,
    /// The payload, as an image.
    Image,
    /// A note on the binary payload, and the offer to save it.
    Download,
    /// The body text.
    BodyText,
    /// The header text.
    HeaderText,
}

/// What the client knows between two frames: the request being edited, the
/// last response, and what is on show.
pub struct MyApp {
    pub url: String,
    pub method: HttpMethod,
    pub headers: String,
    pub body: String,
    pub auth_type: AuthType,
    pub bearer_token: String,
    pub content_type: ContentType,
    pub form_data: Vec<FormField>,
    pub response_status: String,
    pub response_headers: String,
    pub response_body: String,
    pub is_response_binary: bool,
    pub response_filename: String,
    pub response_bytes: Vec<u8>,
    pub response_content_type: String,
    /// Whether a request is under way.
    pub loading: bool,
    pub active_request_tab: RequestTab,
    pub active_response_tab: ResponseTab,
    pub layout_mode: LayoutMode,
}

/// What a `MyApp` holds.
pub struct MyAppView {
    pub url: Seq<char>,
    pub method: HttpMethod,
    pub headers: Seq<char>,
    pub body: Seq<char>,
    pub auth_type: AuthType,
    pub bearer_token: Seq<char>,
    pub content_type: ContentType,
    pub form_data: Seq<FormFieldView>,
    pub response_status: Seq<char>,
    pub response_headers: Seq<char>,
    pub response_body: Seq<char>,
    pub is_response_binary: bool,
    pub response_filename: Seq<char>,
    pub response_bytes: Seq<u8>,
    pub response_content_type: Seq<char>,
    pub loading: bool,
    pub active_request_tab: RequestTab,
    pub active_response_tab: ResponseTab,
    pub layout_mode: LayoutMode,
}

impl View for MyApp {
    type V = MyAppView;

    open spec fn view(&self) -> MyAppView {
        MyAppView {
            url: self.url@,
            method: self.method,
            headers: self.headers@,
            body: self.body@,
            auth_type: self.auth_type,
            bearer_token: self.bearer_token@,
            content_type: self.content_type,
            form_data: field_views(self.form_data@),
            response_status: self.response_status@,
            response_headers: self.response_headers@,
            response_body: self.response_body@,
            is_response_binary: self.is_response_binary,
            response_filename: self.response_filename@,
            response_bytes: self.response_bytes@,
            response_content_type: self.response_content_type@,
            loading: self.loading,
            active_request_tab: self.active_request_tab,
            active_response_tab: self.active_response_tab,
            layout_mode: self.layout_mode,
        }
    }
}

/// The URL that a new client starts with.
pub const DEFAULT_URL: &'static str = "https://jsonplaceholder.typicode.com/posts";

/// The header text that a new client starts with.
pub const DEFAULT_HEADERS: &'static str =
    "# Add headers as key: value pairs\n# Example:\n# X-Custom-Header: value";

/// The body that a new client starts with.
pub const DEFAULT_BODY: &'static str =
    "{\n  \"title\": \"foo\",\n  \"body\": \"bar\",\n  \"userId\": 1\n}";

impl MyAppView {
    /// The state of a new client.
    pub open spec fn initial() -> MyAppView {
        MyAppView {
            url: DEFAULT_URL@,
            method: HttpMethod::GET,
            headers: DEFAULT_HEADERS@,
            body: DEFAULT_BODY@,
            auth_type: AuthType::NoAuth,
            bearer_token: Seq::empty(),
            content_type: ContentType::Json,
            form_data: seq![
                FormFieldView {
                    key: Seq::empty(),
                    value: Seq::empty(),
                    files: Seq::empty(),
                    field_type: crate::form::FormFieldType::Text,
                },
            ],
            response_status: Seq::empty(),
            response_headers: Seq::empty(),
            response_body: Seq::empty(),
            is_response_binary: false,
            response_filename: Seq::empty(),
            response_bytes: Seq::empty(),
            response_content_type: Seq::empty(),
            loading: false,
            active_request_tab: RequestTab::Body,
            active_response_tab: ResponseTab::Hidden,
            layout_mode: LayoutMode::Horizontal,
        }
    }

    /// The authentication that the state asks for.
    pub open spec fn auth(self) -> AuthView {
        match self.auth_type {
            AuthType::Bearer => AuthView::Bearer(self.bearer_token),
            AuthType::NoAuth => AuthView::NoAuth,
        }
    }

    /// The request that the state describes.
    pub open spec fn snapshot(self) -> RequestSpecView {
        RequestSpecView {
            url: self.url,
            method: self.method,
            raw_headers: self.headers,
            body_encoding: self.content_type,
            json_body: self.body,
            form_fields: self.form_data,
            auth: self.auth(),
        }
    }

    /// The state once its request was refused with `error`.
    pub open spec fn refused(self, error: RequestError) -> MyAppView {
        MyAppView {
            response_status: "Error"@,
            response_headers: Seq::empty(),
            response_body: match error {
                RequestError::EmptyUrl => "The URL is empty"@,
                RequestError::TooManyHeaders => "Too many headers"@,
            },
            is_response_binary: false,
            response_filename: Seq::empty(),
            response_bytes: Seq::empty(),
            response_content_type: Seq::empty(),
            active_response_tab: ResponseTab::Body,
            ..self
        }
    }

    /// The state once a request has been handed out.
    pub open spec fn sending(self) -> MyAppView {
        MyAppView {
            loading: true,
            response_body: "Loading..."@,
            response_status: Seq::empty(),
            ..self
        }
    }

    /// The state once `response` was taken in.
    pub open spec fn received(self, response: HttpResponseView) -> MyAppView {
        MyAppView {
            response_status: response.status,
            response_headers: response.headers,
            response_body: response.body,
            is_response_binary: response.is_binary,
            response_filename: response.filename,
            response_bytes: response.bytes,
            response_content_type: response.content_type,
            loading: false,
            active_response_tab: ResponseTab::Body,
            ..self
        }
    }

    /// What the response panel shows in this state.
    pub open spec fn display(self) -> ResponseDisplay {
        match self.active_response_tab {
            ResponseTab::Hidden => ResponseDisplay::Blank,
            ResponseTab::Headers => ResponseDisplay::HeaderText,
            ResponseTab::Body => if !self.is_response_binary {
                ResponseDisplay::BodyText
            } else if self.response_bytes.len() == 0 {
                ResponseDisplay::Blank
            } else if has_prefix(self.response_content_type, "image/"@) {
                ResponseDisplay::Image
            } else {
                ResponseDisplay::Download
            },
        }
    }
}

/// A copy of `fields`.
pub fn clone_fields(fields: &Vec<FormField>) -> (r: Vec<FormField>)
    ensures
        field_views(r@) == field_views(fields@),
{
    let mut out: Vec<FormField> = Vec::new();
    let mut i: usize = 0;
    while i < fields.len()
        invariant
            i <= fields.len(),
            field_views(out@) == field_views(fields@.take(i as int)),
        decreases fields.len() - i,
    {
        let ghost before = out@;
        out.push(fields[i].duplicate());
        proof {
            let taken = fields@.take(i as int);
            assert(fields@.take(i + 1) =~= taken.push(fields@[i as int]));
            assert(field_views(before.push(out@.last())) =~= field_views(before).push(
                out@.last()@,
            ));
            assert(field_views(taken.push(fields@[i as int])) =~= field_views(taken).push(
                fields@[i as int]@,
            ));
        }
        i += 1;
    }
    assert(fields@.take(fields.len() as int) =~= fields@);
    out
}

impl Default for MyApp {
    /// A new client: a `GET` of the sample URL, a commented header text, a
    /// sample JSON body, one empty form field, and no response.
    fn default() -> (r: MyApp)
        ensures
            r@ == MyAppView::initial(),
    {
        let mut form_data: Vec<FormField> = Vec::new();
        form_data.push(FormField::new());
        let r = MyApp {
            url: DEFAULT_URL.to_owned(),
            method: HttpMethod::GET,
            headers: DEFAULT_HEADERS.to_owned(),
            body: DEFAULT_BODY.to_owned(),
            auth_type: AuthType::NoAuth,
            bearer_token: String::new(),
            content_type: ContentType::Json,
            form_data,
            response_status: String::new(),
            response_headers: String::new(),
            response_body: String::new(),
            is_response_binary: false,
            response_filename: String::new(),
            response_bytes: Vec::new(),
            response_content_type: String::new(),
            loading: false,
            active_request_tab: RequestTab::Body,
            active_response_tab: ResponseTab::Hidden,
            layout_mode: LayoutMode::Horizontal,
        };
        assert(r@.form_data =~= MyAppView::initial().form_data);
        r
    }
}

impl MyApp {
    /// The name of the application.
    pub fn name() -> (r: &'static str)
        ensures
            r@ == "CrabiPie"@,
    {
        "CrabiPie"
    }

    /// Replaces a body that is JSON by its indented form.
    pub fn prettify_json(&mut self)
        ensures
            final(self)@ == (MyAppView { body: prettified(old(self)@.body), ..old(self)@ }),
    {
        let mut body = String::new();
        core::mem::swap(&mut body, &mut self.body);
        self.body = prettify(body);
    }

    /// The headers that the header text gives. A text that gives at most
    /// `HEADER_ROOM` names is read whole; of a longer one the map may refuse
    /// headers, which are left out.
    pub fn parse_headers(&self) -> (map: reqwest::header::HeaderMap)
        ensures
            headers_fit(self@.headers) ==> header_fields(map) == parsed_headers(self@.headers),
            header_fields(map).dom().subset_of(parsed_headers(self@.headers).dom()),
    {
        parse_headers(self.headers.as_str())
    }

    /// The request that the state describes.
    pub fn snapshot(&self) -> (spec: RequestSpec)
        ensures
            spec@ == self@.snapshot(),
    {
        RequestSpec {
            url: self.url.clone(),
            method: self.method,
            raw_headers: self.headers.clone(),
            body_encoding: self.content_type,
            json_body: self.body.clone(),
            form_fields: clone_fields(&self.form_data),
            auth: match self.auth_type {
                AuthType::Bearer => Auth::Bearer(self.bearer_token.clone()),
                AuthType::NoAuth => Auth::NoAuth,
            },
        }
    }

    /// Shows why a request was not sent, in place of a response.
    pub fn refuse(&mut self, error: RequestError)
        ensures
            final(self)@ == old(self)@.refused(error),
    {
        self.response_status = "Error".to_owned();
        self.response_headers = String::new();
        self.response_body = error.message().to_owned();
        self.is_response_binary = false;
        self.response_filename = String::new();
        self.response_bytes = Vec::new();
        self.response_content_type = String::new();
        self.active_response_tab = ResponseTab::Body;
    }

    /// Starts a request: marks the state as loading and hands out the
    /// request to send.
    ///
    /// A request with a URL that is empty or white space only is refused,
    /// and so is one whose headers are more than the header map takes, which
    /// cannot happen while they are at most `HEADER_ROOM`. Nothing is handed
    /// out then, and the state shows why.
    pub fn send_request(&mut self) -> (r: Result<RequestSpec, RequestError>)
        ensures
            is_blank(old(self)@.url) ==> r is Err,
            !is_blank(old(self)@.url) && request_fits(old(self)@.snapshot()) ==> r is Ok,
            r matches Err(e) ==> (e == RequestError::EmptyUrl <==> is_blank(old(self)@.url)),
            r matches Err(e) ==> final(self)@ == old(self)@.refused(e),
            r matches Ok(spec) ==> spec@ == old(self)@.snapshot(),
            r matches Ok(spec) ==> final(self)@ == old(self)@.sending(),
    {
        if blank_url(self.url.as_str()) {
            self.refuse(RequestError::EmptyUrl);
            return Err(RequestError::EmptyUrl);
        }
        let spec = self.snapshot();
        if make_headers(&spec).is_none() {
            self.refuse(RequestError::TooManyHeaders);
            return Err(RequestError::TooManyHeaders);
        }
        self.loading = true;
        self.response_body = "Loading...".to_owned();
        self.response_status = String::new();
        Ok(spec)
    }

    /// One cycle of the window: takes in the response that arrived, if one
    /// did, and opens the body tab for it. The result says whether a request
    /// is still under way, so that the window keeps polling.
    pub fn update(&mut self, arrived: Option<HttpResponse>) -> (repaint: bool)
        ensures
            final(self)@ == match arrived {
                Some(response) => old(self)@.received(response@),
                None => old(self)@,
            },
            repaint == final(self).loading,
    {
        match arrived {
            Some(response) => {
                self.response_status = response.status;
                self.response_headers = response.headers;
                self.response_body = response.body;
                self.is_response_binary = response.is_binary;
                self.response_filename = response.filename;
                self.response_bytes = response.bytes;
                self.response_content_type = response.content_type;
                self.loading = false;
                self.active_response_tab = ResponseTab::Body;
            },
            None => {},
        }
        self.loading
    }

    /// Switches between the two layouts.
    pub fn toggle_layout(&mut self)
        ensures
            final(self)@ == (MyAppView {
                layout_mode: match old(self).layout_mode {
                    LayoutMode::Horizontal => LayoutMode::Vertical,
                    LayoutMode::Vertical => LayoutMode::Horizontal,
                },
                ..old(self)@
            }),
    {
        self.layout_mode = match self.layout_mode {
            LayoutMode::Horizontal => LayoutMode::Vertical,
            LayoutMode::Vertical => LayoutMode::Horizontal,
        };
    }

    /// Adds an empty text field at the end of the form.
    pub fn add_form_field(&mut self)
        ensures
            final(self)@ == (MyAppView {
                form_data: old(self)@.form_data.push(
                    FormFieldView {
                        key: Seq::empty(),
                        value: Seq::empty(),
                        files: Seq::empty(),
                        field_type: crate::form::FormFieldType::Text,
                    },
                ),
                ..old(self)@
            }),
    {
        self.form_data.push(FormField::new());
        assert(field_views(self.form_data@) =~= field_views(old(self).form_data@).push(
            FormFieldView {
                key: Seq::empty(),
                value: Seq::empty(),
                files: Seq::empty(),
                field_type: crate::form::FormFieldType::Text,
            },
        ));
    }

    /// Removes the form field at `index`, where there is one.
    pub fn remove_form_field(&mut self, index: usize)
        ensures
            final(self)@ == (MyAppView {
                form_data: if index < old(self)@.form_data.len() {
                    old(self)@.form_data.remove(index as int)
                } else {
                    old(self)@.form_data
                },
                ..old(self)@
            }),
    {
        if index < self.form_data.len() {
            self.form_data.remove(index);
            assert(field_views(self.form_data@) =~= field_views(old(self).form_data@).remove(
                index as int,
            ));
        }
    }

    /// Whether the body of the request can be edited: only a request that
    /// carries a body has one.
    pub fn body_editable(&self) -> (r: bool)
        ensures
            r == self.method.has_body(),
    {
        self.method.allows_body()
    }

    /// What the response panel shows.
    pub fn response_display(&self) -> (r: ResponseDisplay)
        ensures
            r == self@.display(),
    {
        match self.active_response_tab {
            ResponseTab::Hidden => ResponseDisplay::Blank,
            ResponseTab::Headers => ResponseDisplay::HeaderText,
            ResponseTab::Body => {
                if !self.is_response_binary {
                    ResponseDisplay::BodyText
                } else if self.response_bytes.len() == 0 {
                    ResponseDisplay::Blank
                } else {
                    let v = chars_of(self.response_content_type.as_str());
                    let p = chars_of("image/");
                    assert(v@.subrange(0, v.len() as int) =~= v@);
                    if starts_with_at(&v, 0, v.len(), &p) {
                        ResponseDisplay::Image
                    } else {
                        ResponseDisplay::Download
                    }
                }
            },
        }
    }

    /// The address under which the image of the response is shown.
    pub fn image_uri(&self) -> (r: String)
        ensures
            r@ == "bytes://"@ + self@.response_filename,
    {
        let mut out = "bytes://".to_owned();
        push_text(&mut out, self.response_filename.as_str());
        out
    }
}

} // verus!
