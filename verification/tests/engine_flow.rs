use menemen::engine::EngineAction;
use menemen::engine::EngineEvent;
use menemen::engine::RequestEngine;
use menemen::engine::REDIRECT_LIMIT;
use menemen::error::HttpError;
use menemen::request::Request;
use menemen::request::RequestTypes;
use menemen::url::Url;

fn new_request(url: &str, method: RequestTypes) -> Request {
    Request::new(Url::parse(url).unwrap(), method)
}

fn redirect_response(target: &str) -> Vec<u8> {
    format!("HTTP/1.1 302 Found\r\nLocation: {}\r\nContent-Length: 0\r\n\r\n", target).into_bytes()
}

#[test]
fn plain_exchange_finishes_with_response() {
    let req = new_request("http://example.com/a", RequestTypes::GET);
    let (mut engine, action) = RequestEngine::start(req, 0).unwrap();
    match action {
        EngineAction::Open(host, port) => {
            assert_eq!(host, "example.com");
            assert_eq!(port, 80);
        },
        _ => panic!("expected an open action"),
    }
    let action = engine.on_event(EngineEvent::Opened, 1);
    match action {
        EngineAction::Send(bytes) => {
            let text = String::from_utf8(bytes).unwrap();
            assert!(text.starts_with("GET /a HTTP/1.1\r\n"));
        },
        _ => panic!("expected a send action"),
    }
    assert!(matches!(engine.on_event(EngineEvent::Sent, 2), EngineAction::Recv));
    let action = engine.on_event(
        EngineEvent::Data(b"HTTP/1.1 200 OK\r\nContent-Length: 2\r\n\r\nhi".to_vec()),
        3,
    );
    match action {
        EngineAction::Done(resp) => {
            assert_eq!(resp.status_code, 200);
            assert_eq!(resp.body, b"hi".to_vec());
        },
        _ => panic!("expected the final response"),
    }
}

#[test]
fn status_302_redirects_once_with_method_forced_to_get() {
    let req = new_request("http://start.example/form", RequestTypes::POST);
    let (mut engine, _) = RequestEngine::start(req, 0).unwrap();
    engine.on_event(EngineEvent::Opened, 1);
    engine.on_event(EngineEvent::Sent, 2);
    let action = engine.on_event(EngineEvent::Data(redirect_response("http://x/y")), 3);
    match action {
        EngineAction::Open(host, port) => {
            assert_eq!(host, "x");
            assert_eq!(port, 80);
        },
        _ => panic!("expected a redirect hop"),
    }
    assert_eq!(engine.request.request_type, RequestTypes::GET);
    assert_eq!(engine.hops, 1);
    let action = engine.on_event(EngineEvent::Opened, 4);
    match action {
        EngineAction::Send(bytes) => {
            let text = String::from_utf8(bytes).unwrap();
            assert!(text.starts_with("GET /y HTTP/1.1\r\nHost: x\r\n"));
        },
        _ => panic!("expected the hop's request"),
    }
}

#[test]
fn status_307_keeps_method_and_body() {
    let mut req = new_request("http://start.example/up", RequestTypes::PUT);
    req.body = Some(b"payload".to_vec());
    let (mut engine, _) = RequestEngine::start(req, 0).unwrap();
    engine.on_event(EngineEvent::Opened, 1);
    engine.on_event(EngineEvent::Sent, 2);
    let stream =
        b"HTTP/1.1 307 Temporary Redirect\r\nLocation: http://x/up\r\nContent-Length: 0\r\n\r\n";
    let action = engine.on_event(EngineEvent::Data(stream.to_vec()), 3);
    assert!(matches!(action, EngineAction::Open(_, _)));
    assert_eq!(engine.request.request_type, RequestTypes::PUT);
    assert_eq!(engine.request.body, Some(b"payload".to_vec()));
}

#[test]
fn redirects_disabled_return_redirect_response_as_final() {
    let mut req = new_request("http://start.example/", RequestTypes::GET);
    req.redirect = false;
    let (mut engine, _) = RequestEngine::start(req, 0).unwrap();
    engine.on_event(EngineEvent::Opened, 1);
    engine.on_event(EngineEvent::Sent, 2);
    let action = engine.on_event(EngineEvent::Data(redirect_response("http://x/y")), 3);
    match action {
        EngineAction::Done(resp) => assert_eq!(resp.status_code, 302),
        _ => panic!("expected the redirect response itself"),
    }
}

#[test]
fn redirect_loop_fails_after_limit() {
    let req = new_request("http://start.example/", RequestTypes::GET);
    let (mut engine, _) = RequestEngine::start(req, 0).unwrap();
    for hop in 0..REDIRECT_LIMIT {
        engine.on_event(EngineEvent::Opened, 1);
        engine.on_event(EngineEvent::Sent, 2);
        let action = engine.on_event(EngineEvent::Data(redirect_response("http://x/loop")), 3);
        assert!(matches!(action, EngineAction::Open(_, _)), "hop {} should continue", hop);
    }
    engine.on_event(EngineEvent::Opened, 4);
    engine.on_event(EngineEvent::Sent, 5);
    let action = engine.on_event(EngineEvent::Data(redirect_response("http://x/loop")), 6);
    assert!(matches!(action, EngineAction::Fail(HttpError::RedirectLoopExceeded)));
}

#[test]
fn timeout_fires_once_elapsed_and_not_before() {
    let mut req = new_request("http://slow.example/", RequestTypes::GET);
    req.timeout = 100;
    let (mut engine, _) = RequestEngine::start(req, 0).unwrap();
    engine.on_event(EngineEvent::Opened, 1);
    engine.on_event(EngineEvent::Sent, 2);
    let action = engine.on_event(EngineEvent::Data(Vec::new()), 100);
    assert!(matches!(action, EngineAction::Recv));
    let action = engine.on_event(EngineEvent::Data(Vec::new()), 101);
    assert!(matches!(action, EngineAction::Fail(HttpError::Timeout)));
}

#[test]
fn already_sent_request_is_refused() {
    let mut req = new_request("http://example.com/", RequestTypes::GET);
    req.sent = true;
    assert!(matches!(RequestEngine::start(req, 0), Err(HttpError::AlreadySent)));
}

#[test]
fn transport_failures_pass_through() {
    let req = new_request("http://example.com/", RequestTypes::GET);
    let (mut engine, _) = RequestEngine::start(req, 0).unwrap();
    let action = engine.on_event(EngineEvent::TransportFailed(HttpError::ConnectError), 1);
    assert!(matches!(action, EngineAction::Fail(HttpError::ConnectError)));
}

#[test]
fn event_out_of_turn_is_io_error() {
    let req = new_request("http://example.com/", RequestTypes::GET);
    let (mut engine, _) = RequestEngine::start(req, 0).unwrap();
    let action = engine.on_event(EngineEvent::Sent, 1);
    assert!(matches!(action, EngineAction::Fail(HttpError::IoError)));
}

#[test]
fn unusable_location_ends_the_chain_with_final_response() {
    let req = new_request("http://start.example/", RequestTypes::GET);
    let (mut engine, _) = RequestEngine::start(req, 0).unwrap();
    engine.on_event(EngineEvent::Opened, 1);
    engine.on_event(EngineEvent::Sent, 2);
    let action = engine.on_event(EngineEvent::Data(redirect_response("not a url")), 3);
    match action {
        EngineAction::Done(resp) => assert_eq!(resp.status_code, 302),
        _ => panic!("expected the redirect response as final"),
    }
}

#[test]
fn body_framed_by_connection_close_finishes_on_closed() {
    let req = new_request("http://example.com/", RequestTypes::GET);
    let (mut engine, _) = RequestEngine::start(req, 0).unwrap();
    engine.on_event(EngineEvent::Opened, 1);
    engine.on_event(EngineEvent::Sent, 2);
    let action = engine.on_event(EngineEvent::Data(b"HTTP/1.1 200 OK\r\n\r\npartial".to_vec()), 3);
    assert!(matches!(action, EngineAction::Recv));
    let action = engine.on_event(EngineEvent::Closed, 4);
    match action {
        EngineAction::Done(resp) => assert_eq!(resp.body, b"partial".to_vec()),
        _ => panic!("expected the close-framed body"),
    }
}
