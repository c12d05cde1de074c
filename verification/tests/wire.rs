use menemen::error::HttpError;
use menemen::header::Header;
use menemen::request::ContentTypes;
use menemen::request::Request;
use menemen::request::RequestTypes;
use menemen::url::Url;

#[test]
fn parse_simple_header() {
    let h = Header::parse("Content-Type: text/html; charset=utf-8").unwrap();
    assert_eq!(h.name, "Content-Type");
    assert_eq!(h.value, "text/html; charset=utf-8");
}

#[test]
fn parse_no_colon_fails() {
    let r = Header::parse("X-Flag");
    assert!(matches!(r, Err(HttpError::MalformedHeader)));
}

#[test]
fn parse_name_colon_has_empty_value() {
    let h = Header::parse("Name:").unwrap();
    assert_eq!(h.value, "");
    let h = Header::parse("Name: ").unwrap();
    assert_eq!(h.name, "Name");
    assert_eq!(h.value, "");
}

#[test]
fn parse_keeps_later_colons_in_value() {
    let h = Header::parse("Date: Mon, 1 Jan: 10:00").unwrap();
    assert_eq!(h.name, "Date");
    assert_eq!(h.value, "Mon, 1 Jan: 10:00");
}

#[test]
fn serialize_round_trips_parsed_line() {
    let h = Header::parse("Host: example.com").unwrap();
    assert_eq!(h.serialize(), "Host: example.com\r\n");
}

#[test]
fn serialize_appends_line_ending() {
    let h = Header { name: String::from("A"), value: String::from("b") };
    assert_eq!(h.serialize(), "A: b\r\n");
}

#[test]
fn request_types_map_to_tokens() {
    assert_eq!(RequestTypes::GET.get_type(), "GET");
    assert_eq!(RequestTypes::POST.get_type(), "POST");
    assert_eq!(RequestTypes::PUT.get_type(), "PUT");
    assert_eq!(RequestTypes::DELETE.get_type(), "DELETE");
}

#[test]
fn content_types_map_to_tokens() {
    assert_eq!(ContentTypes::JSON.get_type(), "application/json");
    assert_eq!(ContentTypes::HTML.get_type(), "text/html");
    assert_eq!(ContentTypes::Text.get_type(), "text/plain");
    assert_eq!(ContentTypes::Png.get_type(), "image/png");
    assert_eq!(ContentTypes::MP3.get_type(), "audio/mp3");
    assert_eq!(
        ContentTypes::Any.get_type(),
        "text/html,application/xhtml+xml,application/xml;q=0.9,*/*;q=0.8"
    );
    assert_eq!(ContentTypes::OctetStream.get_type(), "application/octet-stream");
}

#[test]
fn content_type_tokens_are_pairwise_distinct() {
    let all = [
        ContentTypes::JSON,
        ContentTypes::HTML,
        ContentTypes::Text,
        ContentTypes::Png,
        ContentTypes::MP3,
        ContentTypes::Any,
        ContentTypes::OctetStream,
    ];
    for i in 0..all.len() {
        for j in 0..all.len() {
            if i != j {
                assert_ne!(all[i].get_type(), all[j].get_type());
            }
        }
    }
}

#[test]
fn default_content_type_is_any() {
    let c: ContentTypes = Default::default();
    assert_eq!(c.get_type(), ContentTypes::Any.get_type());
}

#[test]
fn url_parse_splits_parts() {
    let u = Url::parse("http://example.com/a?b=1").unwrap();
    assert_eq!(u.scheme, "http");
    assert_eq!(u.host, "example.com");
    assert_eq!(u.port, None);
    assert_eq!(u.path, "/a");
    assert_eq!(u.query, "b=1");
    assert_eq!(u.port_or_default(), 80);
}

#[test]
fn url_parse_explicit_port_and_https_default() {
    let u = Url::parse("http://h:8080/x").unwrap();
    assert_eq!(u.port, Some(8080));
    assert_eq!(u.port_or_default(), 8080);
    let u = Url::parse("https://secure.example").unwrap();
    assert_eq!(u.port_or_default(), 443);
    assert_eq!(u.path, "");
    assert_eq!(u.query, "");
}

#[test]
fn url_parse_rejects_bad_shapes() {
    assert!(Url::parse("example.com/a").is_none());
    assert!(Url::parse("http//x").is_none());
    assert!(Url::parse("://x").is_none());
    assert!(Url::parse("http://").is_none());
    assert!(Url::parse("http://h:99999/").is_none());
    assert!(Url::parse("http://h:p/").is_none());
}

#[test]
fn serialize_get_request_with_auto_host() {
    let url = Url::parse("http://example.com/a?b=1").unwrap();
    let mut req = Request::new(url, RequestTypes::GET);
    let bytes = req.serialize().unwrap();
    let text = String::from_utf8(bytes).unwrap();
    let expected = format!(
        "GET /a?b=1 HTTP/1.1\r\nHost: example.com\r\nContent-Type: {}\r\n\r\n",
        ContentTypes::Any.get_type()
    );
    assert_eq!(text, expected);
}

#[test]
fn serialize_defaults_path_to_slash() {
    let url = Url::parse("http://example.com").unwrap();
    let mut req = Request::new(url, RequestTypes::GET);
    let bytes = req.serialize().unwrap();
    let text = String::from_utf8(bytes).unwrap();
    assert!(text.starts_with("GET / HTTP/1.1\r\n"));
}

#[test]
fn serialize_twice_is_already_sent() {
    let url = Url::parse("http://example.com/").unwrap();
    let mut req = Request::new(url, RequestTypes::GET);
    assert!(req.serialize().is_ok());
    assert!(matches!(req.serialize(), Err(HttpError::AlreadySent)));
}

#[test]
fn serialize_injects_content_length_for_body() {
    let url = Url::parse("http://example.com/up").unwrap();
    let mut req = Request::new(url, RequestTypes::POST);
    req.content_type = ContentTypes::Text;
    req.body = Some(b"hello".to_vec());
    let bytes = req.serialize().unwrap();
    let text = String::from_utf8(bytes).unwrap();
    assert!(text.contains("Content-Length: 5\r\n"));
    assert!(text.ends_with("\r\n\r\nhello"));
}

#[test]
fn caller_headers_suppress_injection_case_insensitively() {
    let url = Url::parse("http://example.com/").unwrap();
    let mut req = Request::new(url, RequestTypes::GET);
    req.headers.push(Header { name: String::from("HOST"), value: String::from("other") });
    let bytes = req.serialize().unwrap();
    let text = String::from_utf8(bytes).unwrap();
    assert!(text.contains("HOST: other\r\n"));
    assert!(!text.contains("Host: example.com"));
}
