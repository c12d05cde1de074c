use menemen::error::HttpError;
use menemen::response::ResponseParser;

fn feed_all(parser: &mut ResponseParser, bytes: &[u8], chunk: usize) {
    let mut i = 0;
    while i < bytes.len() {
        let end = (i + chunk).min(bytes.len());
        parser.feed(&bytes[i..end].to_vec());
        i = end;
    }
}

#[test]
fn content_length_stream_parses_whole() {
    let mut p = ResponseParser::new();
    p.feed(&b"HTTP/1.1 200 OK\r\nContent-Length: 5\r\n\r\nhello".to_vec());
    assert!(p.is_complete());
    let r = p.into_response();
    assert_eq!(r.status_code, 200);
    assert_eq!(r.status_text, "OK");
    assert_eq!(r.headers.len(), 1);
    assert_eq!(r.headers[0].name, "Content-Length");
    assert_eq!(r.headers[0].value, "5");
    assert_eq!(r.body, b"hello".to_vec());
}

#[test]
fn fragmentation_does_not_change_outcome() {
    let stream = b"HTTP/1.1 200 OK\r\nContent-Length: 5\r\n\r\nhello";
    for chunk in [1usize, 2, 3, 7, 64] {
        let mut p = ResponseParser::new();
        feed_all(&mut p, stream, chunk);
        assert!(p.is_complete());
        let r = p.into_response();
        assert_eq!(r.status_code, 200);
        assert_eq!(r.body, b"hello".to_vec());
    }
}

#[test]
fn chunked_stream_concatenates_chunks() {
    let mut p = ResponseParser::new();
    let stream = b"HTTP/1.1 200 OK\r\nTransfer-Encoding: chunked\r\n\r\n5\r\nhello\r\n6\r\n world\r\n0\r\n";
    feed_all(&mut p, stream, 4);
    assert!(p.is_complete());
    let r = p.into_response();
    assert_eq!(r.body, b"hello world".to_vec());
}

#[test]
fn chunk_size_accepts_hex_and_extension() {
    let mut p = ResponseParser::new();
    let stream = b"HTTP/1.1 200 OK\r\nTransfer-Encoding: chunked\r\n\r\nA;ext=1\r\n0123456789\r\n0\r\n";
    p.feed(&stream.to_vec());
    assert!(p.is_complete());
    let r = p.into_response();
    assert_eq!(r.body, b"0123456789".to_vec());
}

#[test]
fn no_framing_reads_until_close() {
    let mut p = ResponseParser::new();
    p.feed(&b"HTTP/1.1 200 OK\r\n\r\nabc".to_vec());
    assert!(!p.is_complete());
    p.feed(&b"def".to_vec());
    p.close();
    assert!(p.is_complete());
    let r = p.into_response();
    assert_eq!(r.body, b"abcdef".to_vec());
}

#[test]
fn zero_content_length_completes_without_body() {
    let mut p = ResponseParser::new();
    p.feed(&b"HTTP/1.1 204 No Content\r\nContent-Length: 0\r\n\r\n".to_vec());
    assert!(p.is_complete());
    let r = p.into_response();
    assert_eq!(r.status_code, 204);
    assert_eq!(r.body, Vec::<u8>::new());
}

#[test]
fn bad_protocol_prefix_is_malformed_status_line() {
    let mut p = ResponseParser::new();
    p.feed(&b"HTTX/1.1 200 OK\r\n".to_vec());
    assert_eq!(p.error(), Some(HttpError::MalformedStatusLine));
}

#[test]
fn out_of_range_code_is_malformed_status_line() {
    let mut p = ResponseParser::new();
    p.feed(&b"HTTP/1.1 999 Strange\r\n".to_vec());
    assert_eq!(p.error(), Some(HttpError::MalformedStatusLine));
}

#[test]
fn non_numeric_code_is_malformed_status_line() {
    let mut p = ResponseParser::new();
    p.feed(&b"HTTP/1.1 2x0 OK\r\n".to_vec());
    assert_eq!(p.error(), Some(HttpError::MalformedStatusLine));
}

#[test]
fn header_line_without_colon_is_malformed_header() {
    let mut p = ResponseParser::new();
    p.feed(&b"HTTP/1.1 200 OK\r\nNoColonHere\r\n".to_vec());
    assert_eq!(p.error(), Some(HttpError::MalformedHeader));
}

#[test]
fn unparseable_content_length_is_malformed_header() {
    let mut p = ResponseParser::new();
    p.feed(&b"HTTP/1.1 200 OK\r\nContent-Length: five\r\n\r\n".to_vec());
    assert_eq!(p.error(), Some(HttpError::MalformedHeader));
}

#[test]
fn close_mid_headers_is_io_error() {
    let mut p = ResponseParser::new();
    p.feed(&b"HTTP/1.1 200 OK\r\n".to_vec());
    p.close();
    assert_eq!(p.error(), Some(HttpError::IoError));
}

#[test]
fn status_line_without_text_parses() {
    let mut p = ResponseParser::new();
    p.feed(&b"HTTP/1.1 301\r\nContent-Length: 0\r\n\r\n".to_vec());
    assert!(p.is_complete());
    let r = p.into_response();
    assert_eq!(r.status_code, 301);
    assert_eq!(r.status_text, "");
}
