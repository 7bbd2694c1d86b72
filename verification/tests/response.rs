use crabipie::dispatch::{Arrival, Exchange, Next};
use crabipie::json::{choose_text, pretty_print, prettify};
use crabipie::response::{
    classify_head, disposition_filename, failure_response, format_status, header_string,
    is_binary_content, response_content_type, response_filename, status_text, summarize_binary,
    url_file_name,
};
use reqwest::header::{HeaderMap, HeaderValue};

fn headers(pairs: &[(&'static str, &str)]) -> HeaderMap {
    let mut map = HeaderMap::new();
    for (name, value) in pairs {
        map.append(*name, HeaderValue::from_bytes(value.as_bytes()).unwrap());
    }
    map
}

#[test]
fn image_response_is_binary() {
    let map = headers(&[("content-type", "image/png")]);
    let head = classify_head("https://x.test/logo", 200, &map);
    assert!(head.is_binary);
    assert_eq!(head.content_type, "image/png");
    let payload = vec![0x89, b'P', b'N', b'G', 0x0d, 0x0a, 0x1a, 0x0a];
    let result = head.complete_binary(Ok(payload.clone()));
    assert!(result.is_binary);
    assert!(!result.bytes.is_empty());
    assert_eq!(result.bytes, payload);
    assert_eq!(result.body, "Binary file (8 bytes)\n\nContent-Type: image/png");
    assert!(!result.body.contains("PNG"));
    assert_eq!(result.status, "200 OK");
    assert_eq!(result.filename, "logo");
    assert_eq!(result.content_type, "image/png");
}

#[test]
fn binary_content_types() {
    assert!(is_binary_content("image/png"));
    assert!(is_binary_content("image/"));
    assert!(is_binary_content("application/pdf"));
    assert!(is_binary_content("application/pdf; qs=1"));
    assert!(is_binary_content("application/octet-stream"));
    assert!(is_binary_content("video/mp4"));
    assert!(is_binary_content("audio/ogg"));
    assert!(!is_binary_content(""));
    assert!(!is_binary_content("image"));
    assert!(!is_binary_content("text/plain"));
    assert!(!is_binary_content("application/json"));
    assert!(!is_binary_content("application/pd"));
    assert!(!is_binary_content(" image/png"));
}

#[test]
fn content_type_prefix_is_case_sensitive() {
    assert!(!is_binary_content("Image/png"));
    assert!(!is_binary_content("IMAGE/PNG"));
    let map = headers(&[("Content-Type", "Application/PDF")]);
    assert!(!classify_head("https://x.test/a", 200, &map).is_binary);
}

#[test]
fn filename_falls_back_to_the_url() {
    let map = HeaderMap::new();
    assert_eq!(response_filename(&map, "https://x.test/report"), "report");
    assert_eq!(response_filename(&map, "https://x.test/dir/"), "download");
    assert_eq!(classify_head("https://x.test/report", 200, &map).filename, "report");
    assert_eq!(classify_head("https://x.test/", 200, &map).filename, "download");
}

#[test]
fn url_file_names() {
    assert_eq!(url_file_name("https://x.test/a/b.txt"), "b.txt");
    assert_eq!(url_file_name("plain"), "plain");
    assert_eq!(url_file_name(""), "download");
    assert_eq!(url_file_name("/"), "download");
    assert_eq!(url_file_name("https://x.test/a?x=1"), "a?x=1");
}

#[test]
fn filename_comes_from_content_disposition() {
    let map = headers(&[("content-disposition", "attachment; filename=\"data.csv\"")]);
    assert_eq!(response_filename(&map, "https://x.test/report"), "data.csv");
    let bare = headers(&[("Content-Disposition", "attachment; filename=data.csv")]);
    assert_eq!(response_filename(&bare, "https://x.test/report"), "data.csv");
}

#[test]
fn content_disposition_without_filename_falls_back() {
    let map = headers(&[("content-disposition", "inline")]);
    assert_eq!(response_filename(&map, "https://x.test/report"), "report");
    assert_eq!(response_filename(&map, "https://x.test/"), "download");
}

#[test]
fn content_disposition_that_is_not_text_falls_back() {
    let mut map = HeaderMap::new();
    map.insert(
        "content-disposition",
        HeaderValue::from_bytes(b"attachment; filename=\"caf\xc3\xa9.txt\"").unwrap(),
    );
    assert_eq!(response_filename(&map, "https://x.test/report"), "report");
}

#[test]
fn disposition_filenames() {
    assert_eq!(disposition_filename("attachment; filename=\"a.txt\"").unwrap(), "a.txt");
    assert_eq!(disposition_filename("attachment; filename='a.txt'").unwrap(), "a.txt");
    assert_eq!(disposition_filename("filename=a.txt").unwrap(), "a.txt");
    assert_eq!(disposition_filename("filename=").unwrap(), "");
    assert_eq!(disposition_filename("filename=\"\"").unwrap(), "");
    assert_eq!(disposition_filename("filename=\"a\"b\"").unwrap(), "a\"b");
    assert_eq!(disposition_filename("x; filename=\"a.txt\"; size=3").unwrap(), "a.txt\"; size=3");
    assert_eq!(disposition_filename("filename=a\nb").unwrap(), "a");
    assert_eq!(disposition_filename("filename=a; filename=b").unwrap(), "a; filename=b");
    assert_eq!(disposition_filename("filename*=UTF-8''a; filename=b").unwrap(), "b");
    assert!(disposition_filename("").is_none());
    assert!(disposition_filename("attachment").is_none());
    assert!(disposition_filename("file name=a").is_none());
    assert!(disposition_filename("Filename=a").is_none());
}

#[test]
fn status_lines() {
    assert_eq!(status_text(200), "200 OK");
    assert_eq!(status_text(404), "404 Not Found");
    assert_eq!(status_text(500), "500 Internal Server Error");
    assert_eq!(status_text(418), "418 I'm a teapot");
    assert_eq!(status_text(100), "100 Continue");
}

#[test]
fn status_without_reason_phrase() {
    assert_eq!(status_text(299), "299 ");
    assert_eq!(status_text(999), "999 ");
    assert_eq!(status_text(7), "7 ");
    assert_eq!(format_status(200, None), "200 ");
    assert_eq!(format_status(0, Some("Zero".to_string())), "0 Zero");
    assert_eq!(format_status(65535, Some(String::new())), "65535 ");
}

#[test]
fn header_listing_is_the_debug_rendering() {
    let map = headers(&[("content-type", "text/plain"), ("x-a", "1"), ("x-a", "2")]);
    let head = classify_head("https://x.test/a", 200, &map);
    assert_eq!(head.headers, format!("{:#?}", map));
    assert!(head.headers.contains("\"content-type\": \"text/plain\""));
    let empty = classify_head("https://x.test/a", 200, &HeaderMap::new());
    assert_eq!(empty.headers, "{}");
}

#[test]
fn content_type_is_the_first_value() {
    let map = headers(&[("content-type", "text/plain"), ("content-type", "image/png")]);
    assert_eq!(response_content_type(&map), "text/plain");
    assert_eq!(response_content_type(&HeaderMap::new()), "");
}

#[test]
fn content_type_that_is_not_text_counts_as_absent() {
    let mut map = HeaderMap::new();
    map.insert("content-type", HeaderValue::from_bytes(b"image/\xffpng").unwrap());
    assert_eq!(response_content_type(&map), "");
    assert!(!classify_head("https://x.test/a", 200, &map).is_binary);
}

#[test]
fn header_string_reads_one_header() {
    let map = headers(&[("x-a", "one\ttwo"), ("x-b", "")]);
    assert_eq!(header_string(&map, "x-a").unwrap(), "one\ttwo");
    assert_eq!(header_string(&map, "x-b").unwrap(), "");
    assert!(header_string(&map, "x-c").is_none());
}

#[test]
fn binary_summary_text() {
    assert_eq!(summarize_binary(0, ""), "Binary file (0 bytes)\n\nContent-Type: ");
    assert_eq!(
        summarize_binary(1234, "application/pdf"),
        "Binary file (1234 bytes)\n\nContent-Type: application/pdf"
    );
}

#[test]
fn binary_read_failure_is_reported() {
    let map = headers(&[("content-type", "application/octet-stream")]);
    let head = classify_head("https://x.test/blob", 200, &map);
    let result = head.complete_binary(Err("connection reset".to_string()));
    assert!(result.is_binary);
    assert!(result.bytes.is_empty());
    assert_eq!(result.body, "Error reading binary data: connection reset");
    assert_eq!(result.filename, "blob");
}

#[test]
fn json_body_is_shown_indented() {
    let map = headers(&[("content-type", "application/json")]);
    let head = classify_head("https://x.test/a", 201, &map);
    assert!(!head.is_binary);
    let result = head.complete_text(Ok("{\"a\":1}".to_string()));
    assert!(!result.is_binary);
    assert!(result.bytes.is_empty());
    assert_ne!(result.body, "{\"a\":1}");
    assert_eq!(result.body, "{\n  \"a\": 1\n}");
    let compact: serde_json::Value = serde_json::from_str("{\"a\":1}").unwrap();
    let shown: serde_json::Value = serde_json::from_str(&result.body).unwrap();
    assert_eq!(compact, shown);
    assert_eq!(result.status, "201 Created");
}

#[test]
fn text_that_is_not_json_is_kept() {
    let head = classify_head("https://x.test/a", 200, &HeaderMap::new());
    let result = head.complete_text(Ok("<html>{not json</html>".to_string()));
    assert_eq!(result.body, "<html>{not json</html>");
    assert!(!result.is_binary);
    assert!(result.bytes.is_empty());
}

#[test]
fn text_read_failure_is_reported() {
    let head = classify_head("https://x.test/a", 200, &HeaderMap::new());
    let result = head.complete_text(Err("timed out".to_string()));
    assert_eq!(result.body, "Error reading body: timed out");
    assert!(!result.is_binary);
    assert!(result.bytes.is_empty());
    assert_eq!(result.status, "200 OK");
}

#[test]
fn prettify_json_texts() {
    assert_eq!(prettify("[1,2]".to_string()), "[\n  1,\n  2\n]");
    assert_eq!(prettify("  {\"b\":{\"c\":null}} ".to_string()), "{\n  \"b\": {\n    \"c\": null\n  }\n}");
    assert_eq!(prettify("3".to_string()), "3");
    assert_eq!(prettify("".to_string()), "");
    assert_eq!(prettify("{\"a\":1} trailing".to_string()), "{\"a\":1} trailing");
    assert_eq!(pretty_print("{}").unwrap(), "{}");
    assert!(pretty_print("{").is_none());
    assert_eq!(choose_text("a".to_string(), Some("b".to_string())), "b");
    assert_eq!(choose_text("a".to_string(), None), "a");
}

#[test]
fn failure_gives_an_error_response() {
    let result = failure_response("connection refused");
    assert_eq!(result.status, "Error");
    assert_eq!(result.headers, "");
    assert_eq!(result.body, "Request failed: connection refused");
    assert!(!result.is_binary);
    assert!(result.bytes.is_empty());
    assert_eq!(result.filename, "");
    assert_eq!(result.content_type, "");
}

#[test]
fn failed_exchange_delivers_one_error() {
    let exchange = Exchange::start("https://x.test/a".to_string());
    let (exchange, next) = exchange.step(Arrival::Failed("dns error".to_string()));
    match next {
        Next::Deliver(result) => {
            assert_eq!(result.status, "Error");
            assert_eq!(result.body, "Request failed: dns error");
        }
        _ => panic!("nothing delivered"),
    }
    assert!(matches!(exchange, Exchange::Delivered));
    let (exchange, next) = exchange.step(Arrival::Failed("again".to_string()));
    assert!(matches!(next, Next::Ignore));
    assert!(matches!(exchange, Exchange::Delivered));
}

#[test]
fn text_exchange_reads_text_and_delivers_once() {
    let exchange = Exchange::start("https://x.test/a".to_string());
    let head = Arrival::Head { status: 200, headers: headers(&[("content-type", "text/plain")]) };
    let (exchange, next) = exchange.step(head);
    assert!(matches!(next, Next::ReadText));
    assert!(matches!(exchange, Exchange::Reading { .. }));
    let (exchange, next) = exchange.step(Arrival::Bytes(Ok(vec![1])));
    assert!(matches!(next, Next::Ignore));
    let (exchange, next) = exchange.step(Arrival::Text(Ok("hello".to_string())));
    match next {
        Next::Deliver(result) => {
            assert_eq!(result.body, "hello");
            assert_eq!(result.status, "200 OK");
            assert_eq!(result.filename, "a");
        }
        _ => panic!("nothing delivered"),
    }
    let (exchange, next) = exchange.step(Arrival::Text(Ok("more".to_string())));
    assert!(matches!(next, Next::Ignore));
    assert!(matches!(exchange, Exchange::Delivered));
}

#[test]
fn binary_exchange_reads_bytes_and_delivers_once() {
    let exchange = Exchange::start("https://x.test/clip".to_string());
    let head = Arrival::Head { status: 206, headers: headers(&[("content-type", "video/mp4")]) };
    let (exchange, next) = exchange.step(head);
    assert!(matches!(next, Next::ReadBytes));
    let (exchange, next) = exchange.step(Arrival::Text(Ok("x".to_string())));
    assert!(matches!(next, Next::Ignore));
    let (exchange, next) = exchange.step(Arrival::Bytes(Ok(vec![1, 2, 3])));
    match next {
        Next::Deliver(result) => {
            assert!(result.is_binary);
            assert_eq!(result.bytes, vec![1, 2, 3]);
            assert_eq!(result.status, "206 Partial Content");
            assert_eq!(result.body, "Binary file (3 bytes)\n\nContent-Type: video/mp4");
        }
        _ => panic!("nothing delivered"),
    }
    assert!(matches!(exchange, Exchange::Delivered));
}

#[test]
fn exchange_ignores_a_payload_before_the_head() {
    let exchange = Exchange::start("https://x.test/a".to_string());
    let (exchange, next) = exchange.step(Arrival::Text(Ok("early".to_string())));
    assert!(matches!(next, Next::Ignore));
    assert!(matches!(exchange, Exchange::Sending { .. }));
}

#[test]
fn header_value_is_text_when_all_its_bytes_are_visible() {
    for b in 0u8..=255 {
        let Ok(value) = HeaderValue::from_bytes(&[b'x', b, b'y']) else {
            continue;
        };
        let mut map = HeaderMap::new();
        map.insert("content-type", value);
        let visible = (32..127).contains(&b) || b == 9;
        let expected = if visible { format!("x{}y", b as char) } else { String::new() };
        assert_eq!(response_content_type(&map), expected, "byte {}", b);
    }
}

#[test]
fn header_is_found_whatever_the_case_of_its_name() {
    let map = headers(&[("x-a", "1")]);
    assert_eq!(header_string(&map, "X-A").unwrap(), "1");
    assert_eq!(header_string(&map, "x-A").unwrap(), "1");
    assert!(header_string(&map, "x a").is_none());
    assert!(header_string(&map, "").is_none());
    assert!(header_string(&map, "x-\u{e1}").is_none());
}
