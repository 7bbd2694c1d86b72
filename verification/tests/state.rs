use crabipie::form::{FormField, FormFieldType};
use crabipie::request::{Auth, ContentType, HttpMethod, RequestError};
use crabipie::response::{failure_response, HttpResponse};
use crabipie::state::{
    clone_fields, AuthType, LayoutMode, MyApp, RequestTab, ResponseDisplay, ResponseTab,
};

fn binary(content_type: &str, bytes: &[u8]) -> HttpResponse {
    HttpResponse {
        status: "200 OK".to_string(),
        headers: "{}".to_string(),
        body: "summary".to_string(),
        is_binary: true,
        filename: "pic.png".to_string(),
        bytes: bytes.to_vec(),
        content_type: content_type.to_string(),
    }
}

#[test]
fn name_of_the_application() {
    assert_eq!(MyApp::name(), "CrabiPie");
}

#[test]
fn new_client() {
    let app = MyApp::default();
    assert_eq!(app.url, "https://jsonplaceholder.typicode.com/posts");
    assert_eq!(app.method, HttpMethod::GET);
    assert_eq!(
        app.headers,
        "# Add headers as key: value pairs\n# Example:\n# X-Custom-Header: value"
    );
    assert_eq!(app.body, "{\n  \"title\": \"foo\",\n  \"body\": \"bar\",\n  \"userId\": 1\n}");
    assert_eq!(app.auth_type, AuthType::NoAuth);
    assert_eq!(app.bearer_token, "");
    assert_eq!(app.content_type, ContentType::Json);
    assert_eq!(app.form_data.len(), 1);
    assert_eq!(app.form_data[0].key, "");
    assert_eq!(app.form_data[0].value, "");
    assert!(app.form_data[0].files.is_empty());
    assert_eq!(app.form_data[0].field_type, FormFieldType::Text);
    assert_eq!(app.response_status, "");
    assert_eq!(app.response_headers, "");
    assert_eq!(app.response_body, "");
    assert!(!app.is_response_binary);
    assert_eq!(app.response_filename, "");
    assert!(app.response_bytes.is_empty());
    assert_eq!(app.response_content_type, "");
    assert!(!app.loading);
    assert_eq!(app.active_request_tab, RequestTab::Body);
    assert_eq!(app.active_response_tab, ResponseTab::Hidden);
    assert_eq!(app.layout_mode, LayoutMode::Horizontal);
    assert!(app.parse_headers().is_empty());
}

#[test]
fn sending_hands_out_the_request() {
    let mut app = MyApp::default();
    app.method = HttpMethod::POST;
    app.headers = "X-A: 1".to_string();
    app.auth_type = AuthType::Bearer;
    app.bearer_token = "tok".to_string();
    app.content_type = ContentType::FormData;
    app.form_data[0].key = "k".to_string();
    app.response_status = "200 OK".to_string();
    let spec = app.send_request().unwrap();
    assert!(app.loading);
    assert_eq!(app.response_body, "Loading...");
    assert_eq!(app.response_status, "");
    assert_eq!(spec.url, "https://jsonplaceholder.typicode.com/posts");
    assert_eq!(spec.method, HttpMethod::POST);
    assert_eq!(spec.raw_headers, "X-A: 1");
    assert_eq!(spec.body_encoding, ContentType::FormData);
    assert_eq!(spec.json_body, app.body);
    assert_eq!(spec.form_fields.len(), 1);
    assert_eq!(spec.form_fields[0].key, "k");
    assert!(matches!(spec.auth, Auth::Bearer(ref t) if t == "tok"));
}

#[test]
fn token_is_not_handed_out_without_bearer_auth() {
    let mut app = MyApp::default();
    app.bearer_token = "tok".to_string();
    let spec = app.send_request().unwrap();
    assert!(matches!(spec.auth, Auth::NoAuth));
}

#[test]
fn blank_url_is_refused() {
    for url in ["", "   ", "\t\n"] {
        let mut app = MyApp::default();
        app.url = url.to_string();
        app.response_body = "old".to_string();
        app.response_bytes = vec![1];
        app.is_response_binary = true;
        assert_eq!(app.send_request().unwrap_err(), RequestError::EmptyUrl);
        assert!(!app.loading);
        assert_eq!(app.response_status, "Error");
        assert_eq!(app.response_body, "The URL is empty");
        assert!(!app.is_response_binary);
        assert!(app.response_bytes.is_empty());
        assert_eq!(app.active_response_tab, ResponseTab::Body);
        assert_eq!(app.url, url);
    }
}

#[test]
fn too_many_headers_are_refused_at_once() {
    let mut app = MyApp::default();
    for i in 0..30000 {
        app.headers.push_str(&format!("\nx-{}: 1", i));
    }
    assert_eq!(app.send_request().unwrap_err(), RequestError::TooManyHeaders);
    assert!(!app.loading);
    assert_eq!(app.response_status, "Error");
    assert_eq!(app.response_body, "Too many headers");
    app.url = String::new();
    assert_eq!(app.send_request().unwrap_err(), RequestError::EmptyUrl);
}

#[test]
fn refusal_keeps_a_request_under_way() {
    let mut app = MyApp::default();
    app.send_request().unwrap();
    app.url = " ".to_string();
    assert!(app.send_request().is_err());
    assert!(app.loading);
}

#[test]
fn update_takes_in_a_response() {
    let mut app = MyApp::default();
    app.send_request().unwrap();
    assert!(app.update(None));
    assert!(app.loading);
    assert_eq!(app.active_response_tab, ResponseTab::Hidden);
    let repaint = app.update(Some(binary("image/png", &[1, 2])));
    assert!(!repaint);
    assert!(!app.loading);
    assert_eq!(app.response_status, "200 OK");
    assert_eq!(app.response_headers, "{}");
    assert_eq!(app.response_body, "summary");
    assert!(app.is_response_binary);
    assert_eq!(app.response_filename, "pic.png");
    assert_eq!(app.response_bytes, vec![1, 2]);
    assert_eq!(app.response_content_type, "image/png");
    assert_eq!(app.active_response_tab, ResponseTab::Body);
    assert!(!app.update(None));
    assert_eq!(app.response_status, "200 OK");
}

#[test]
fn update_takes_in_a_failure() {
    let mut app = MyApp::default();
    app.send_request().unwrap();
    app.update(Some(failure_response("no route")));
    assert_eq!(app.response_status, "Error");
    assert_eq!(app.response_body, "Request failed: no route");
    assert!(!app.loading);
    assert_eq!(app.response_display(), ResponseDisplay::BodyText);
}

#[test]
fn prettify_json_body() {
    let mut app = MyApp::default();
    app.body = "{\"a\":[1,2]}".to_string();
    app.prettify_json();
    assert_eq!(app.body, "{\n  \"a\": [\n    1,\n    2\n  ]\n}");
    app.body = "not json".to_string();
    app.prettify_json();
    assert_eq!(app.body, "not json");
    assert_eq!(app.url, "https://jsonplaceholder.typicode.com/posts");
}

#[test]
fn parse_headers_of_the_state() {
    let mut app = MyApp::default();
    app.headers = "# c\nAccept: */*\naccept: text/html".to_string();
    let map = app.parse_headers();
    assert_eq!(map.len(), 1);
    assert_eq!(map.get("accept").unwrap(), "text/html");
}

#[test]
fn layout_toggles() {
    let mut app = MyApp::default();
    app.toggle_layout();
    assert_eq!(app.layout_mode, LayoutMode::Vertical);
    app.toggle_layout();
    assert_eq!(app.layout_mode, LayoutMode::Horizontal);
}

#[test]
fn form_fields_are_added_and_removed() {
    let mut app = MyApp::default();
    app.form_data[0].key = "first".to_string();
    app.add_form_field();
    app.form_data[1].key = "second".to_string();
    app.add_form_field();
    assert_eq!(app.form_data.len(), 3);
    assert_eq!(app.form_data[2].key, "");
    app.remove_form_field(0);
    assert_eq!(app.form_data.len(), 2);
    assert_eq!(app.form_data[0].key, "second");
    app.remove_form_field(5);
    assert_eq!(app.form_data.len(), 2);
    app.remove_form_field(1);
    app.remove_form_field(0);
    assert!(app.form_data.is_empty());
    app.remove_form_field(0);
    assert!(app.form_data.is_empty());
}

#[test]
fn body_is_editable_for_methods_with_a_body() {
    let mut app = MyApp::default();
    assert!(!app.body_editable());
    app.method = HttpMethod::PATCH;
    assert!(app.body_editable());
    app.method = HttpMethod::DELETE;
    assert!(!app.body_editable());
}

#[test]
fn response_panel_shows_what_the_state_asks_for() {
    let mut app = MyApp::default();
    assert_eq!(app.response_display(), ResponseDisplay::Blank);
    app.update(Some(binary("image/png", &[1])));
    assert_eq!(app.response_display(), ResponseDisplay::Image);
    assert_eq!(app.image_uri(), "bytes://pic.png");
    app.active_response_tab = ResponseTab::Headers;
    assert_eq!(app.response_display(), ResponseDisplay::HeaderText);
    app.update(Some(binary("application/pdf", &[1])));
    assert_eq!(app.response_display(), ResponseDisplay::Download);
    app.update(Some(binary("application/pdf", &[])));
    assert_eq!(app.response_display(), ResponseDisplay::Blank);
    app.update(Some(binary("Image/png", &[1])));
    assert_eq!(app.response_display(), ResponseDisplay::Download);
    app.is_response_binary = false;
    assert_eq!(app.response_display(), ResponseDisplay::BodyText);
    app.active_response_tab = ResponseTab::Hidden;
    assert_eq!(app.response_display(), ResponseDisplay::Blank);
}

#[test]
fn fields_are_copied() {
    let fields = vec![FormField {
        key: "k".to_string(),
        value: "v".to_string(),
        files: vec!["/a".to_string(), "/b".to_string()],
        field_type: FormFieldType::File,
    }];
    let copy = clone_fields(&fields);
    assert_eq!(copy.len(), 1);
    assert_eq!(copy[0].key, "k");
    assert_eq!(copy[0].value, "v");
    assert_eq!(copy[0].files, vec!["/a".to_string(), "/b".to_string()]);
    assert_eq!(copy[0].field_type, FormFieldType::File);
}
