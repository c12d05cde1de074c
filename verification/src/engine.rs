//! The control loop of one logical request: serialize and send,
//! parse the reply, and decide between finishing, redirecting, and
//! failing, all under a single wall-clock budget.
//!
//! The engine does no I/O itself. A driver opens connections, writes
//! and reads bytes, and hands every outcome back as an
//! [`EngineEvent`] together with the clock; the engine answers with
//! the next [`EngineAction`]. One logical call may issue several wire
//! requests when redirects are followed.

use vstd::prelude::*;

verus! {

use crate::error::HttpError;
use crate::header::has_header;
use crate::header::find_header;
use crate::request::Request;
use crate::request::RequestTypes;
use crate::request::spec_wire_bytes;
use crate::response::Response;
use crate::response::ResponseParser;
use crate::response::ParserModel;
use crate::response::Phase;
use crate::response::init_model;
use crate::response::spec_feed;
use crate::response::spec_close;
use crate::response::pairs_of;
use crate::response::spec_has_pair;
use crate::response::spec_find_pair;
use crate::response::lemma_find_pair_of_headers;
use crate::url::Url;
use crate::url::spec_parse_url;
use crate::url::spec_port_or_default;

/// How many redirect responses one logical call follows before it
/// fails with [`HttpError::RedirectLoopExceeded`].
pub const REDIRECT_LIMIT: u32 = 10;

/// What the driver must do next.
#[derive(Debug)]
pub enum EngineAction {
    /// Open a connection to this host and port.
    Open(String, u16),
    /// Write these bytes to the connection.
    Send(Vec<u8>),
    /// Read more bytes from the connection.
    Recv,
    /// The logical call finished with this response.
    Done(Response),
    /// The logical call failed.
    Fail(HttpError),
}

/// What the transport reports back to the engine.
#[derive(Debug)]
pub enum EngineEvent {
    /// The connection is open.
    Opened,
    /// The write completed.
    Sent,
    /// The transport delivered these bytes; a delivery may be partial.
    Data(Vec<u8>),
    /// The peer closed the connection.
    Closed,
    /// The transport failed; connect and I/O errors pass through.
    TransportFailed(HttpError),
}

/// Where the engine stands in one wire exchange.
#[derive(Clone, Copy, Debug, PartialEq, Eq, Structural)]
pub enum EngineState {
    /// Waiting for the connection to open.
    Connecting,
    /// Waiting for the request bytes to be written.
    Sending,
    /// Waiting for response bytes.
    Receiving,
    /// The call finished with a response.
    Finished,
    /// The call failed.
    Failed,
}

/// Whether `c` is a status the engine redirects on.
pub open spec fn is_redirect_status(c: u16) -> bool {
    c == 301 || c == 302 || c == 303 || c == 307 || c == 308
}

/// Whether a redirect on `c` forces the method down to `GET`:
/// it does for 301, 302 and 303, while 307 and 308 keep the method
/// and the body.
pub open spec fn downgrades_method(c: u16) -> bool {
    c == 301 || c == 302 || c == 303
}

/// The method a redirect hop on status `c` uses.
pub open spec fn spec_redirect_method(m: RequestTypes, c: u16) -> RequestTypes {
    if downgrades_method(c) {
        RequestTypes::GET
    } else {
        m
    }
}

/// Whether the wall clock has left the budget behind: the cumulative
/// time across the whole logical call exceeds the timeout strictly.
pub open spec fn spec_timed_out(started: u64, timeout: u64, now: u64) -> bool {
    now >= started && now - started > timeout
}

/// Whether a complete response asks for a redirect hop: redirects
/// are enabled, the status is a redirect status, and a `Location`
/// header is present.
pub open spec fn spec_wants_redirect(m: ParserModel, follow: bool) -> bool {
    follow && is_redirect_status(m.code) && spec_has_pair(m.headers, "location"@)
}

/// A parse never fails with a timeout or a sent-twice error: those
/// belong to the engine, not to the byte machine.
pub open spec fn parse_fail_benign(m: ParserModel) -> bool {
    match m.phase {
        Phase::Failed(e) => e != HttpError::Timeout && e != HttpError::AlreadySent,
        _ => true,
    }
}

/// One step keeps parse failures benign.
proof fn lemma_step_fail_benign(m: ParserModel, b: u8)
    requires
        parse_fail_benign(m),
    ensures
        parse_fail_benign(crate::response::spec_step(m, b)),
{
}

/// A whole run keeps parse failures benign.
pub proof fn lemma_feed_fail_benign(m: ParserModel, bs: Seq<u8>)
    requires
        parse_fail_benign(m),
    ensures
        parse_fail_benign(spec_feed(m, bs)),
    decreases bs.len(),
{
    if bs.len() > 0 {
        lemma_feed_fail_benign(m, bs.drop_last());
        lemma_step_fail_benign(spec_feed(m, bs.drop_last()), bs.last());
    }
}

/// The method used on the hop a redirect status triggers.
pub fn redirect_method(m: RequestTypes, c: u16) -> (r: RequestTypes)
    ensures
        r == spec_redirect_method(m, c),
{
    if c == 301 || c == 302 || c == 303 {
        RequestTypes::GET
    } else {
        m
    }
}

/// Whether `c` is a status the engine redirects on.
pub fn is_redirect_code(c: u16) -> (r: bool)
    ensures
        r == is_redirect_status(c),
{
    c == 301 || c == 302 || c == 303 || c == 307 || c == 308
}

/// The engine of one logical call.
pub struct RequestEngine {
    /// The request of the current hop.
    pub request: Request,
    /// The parser of the current hop's response.
    pub parser: ResponseParser,
    /// Where the engine stands.
    pub state: EngineState,
    /// How many redirect responses have been followed so far.
    pub hops: u32,
    /// The clock reading the whole logical call started at.
    pub started_at: u64,
}

impl RequestEngine {
    /// What every reachable engine satisfies: the hop count never
    /// passes the limit, and the parser cannot report the engine's
    /// own error kinds.
    pub open spec fn inv(&self) -> bool {
        self.hops <= REDIRECT_LIMIT && parse_fail_benign(self.parser.model())
    }

    /// Begin one logical call at clock reading `now_ms`.
    ///
    /// A request that was already sent is refused with
    /// [`HttpError::AlreadySent`]. Otherwise the engine asks the
    /// driver to open a connection to the URL's host, on its explicit
    /// port or the scheme's default.
    pub fn start(request: Request, now_ms: u64) -> (r: Result<(RequestEngine, EngineAction), HttpError>)
        ensures
            request.sent ==> (r matches Err(e) && e == HttpError::AlreadySent),
            !request.sent ==> (r matches Ok(p) && p.0.request == request && p.0.state
                == EngineState::Connecting && p.0.hops == 0 && p.0.started_at == now_ms
                && p.0.parser.model() == init_model() && p.0.inv() && (p.1 matches EngineAction::Open(
                h,
                pt,
            ) && h@ == request.url.host@ && pt == spec_port_or_default(request.url.model()))),
    {
        if request.sent {
            return Err(HttpError::AlreadySent);
        }
        let host = request.url.host.clone();
        let port = request.url.port_or_default();
        let engine = RequestEngine {
            request,
            parser: ResponseParser::new(),
            state: EngineState::Connecting,
            hops: 0,
            started_at: now_ms,
        };
        Ok((engine, EngineAction::Open(host, port)))
    }

    /// Decide what a complete response leads to: the final answer,
    /// one more hop, or a redirect-loop failure.
    ///
    /// A `Location` whose URL the engine cannot parse ends the chain:
    /// the response is returned as final rather than guessed at.
    fn finish_response(&mut self) -> (r: EngineAction)
        requires
            old(self).parser.model().phase is Complete,
            old(self).inv(),
        ensures
            final(self).inv(),
            final(self).started_at == old(self).started_at,
            ({
                let m = old(self).parser.model();
                let req = old(self).request;
                &&& (!spec_wants_redirect(m, req.redirect) ==> (r matches EngineAction::Done(resp)
                    && resp.status_code == m.code && resp.status_text@ == m.text && pairs_of(
                    resp.headers@,
                ) == m.headers && resp.body@ == m.body && final(self).state
                    == EngineState::Finished))
                &&& (spec_wants_redirect(m, req.redirect) && old(self).hops >= REDIRECT_LIMIT
                    ==> (r matches EngineAction::Fail(e) && e == HttpError::RedirectLoopExceeded
                    && final(self).state == EngineState::Failed))
                &&& (spec_wants_redirect(m, req.redirect) && old(self).hops < REDIRECT_LIMIT
                    ==> ({
                    let loc = spec_find_pair(m.headers, "location"@)->0;
                    match spec_parse_url(loc) {
                        None => r matches EngineAction::Done(resp) && resp.status_code == m.code
                            && resp.status_text@ == m.text && pairs_of(resp.headers@) == m.headers
                            && resp.body@ == m.body && final(self).state == EngineState::Finished,
                        Some(u) => r matches EngineAction::Open(h, pt) && h@ == u.host && pt
                            == spec_port_or_default(u) && final(self).request.url.model() == u
                            && final(self).request.request_type == spec_redirect_method(
                            req.request_type,
                            m.code,
                        ) && final(self).request.content_type == req.content_type && final(self).request.headers == req.headers && final(self).request.timeout
                            == req.timeout && final(self).request.redirect == req.redirect && final(self).request.body == (if downgrades_method(m.code) {
                            Option::<Vec<u8>>::None
                        } else {
                            req.body
                        }) && final(self).request.sent == false && final(self).hops == old(self).hops + 1 && final(self).parser.model() == init_model() && final(self).state == EngineState::Connecting,
                    }
                }))
            }),
    {
        let mut taken = ResponseParser::new();
        core::mem::swap(&mut taken, &mut self.parser);
        let resp = taken.into_response();
        proof {
            lemma_find_pair_of_headers(resp.headers@, "location"@);
        }
        let follow = self.request.redirect;
        let code = resp.status_code;
        if !(follow && is_redirect_code(code) && has_header(&resp.headers, "location")) {
            self.state = EngineState::Finished;
            return EngineAction::Done(resp);
        }
        if self.hops >= REDIRECT_LIMIT {
            self.state = EngineState::Failed;
            return EngineAction::Fail(HttpError::RedirectLoopExceeded);
        }
        let loc = match find_header(&resp.headers, "location") {
            Some(l) => l,
            None => {
                proof {
                    assert(false);
                }
                return EngineAction::Fail(HttpError::IoError);
            },
        };
        match Url::parse(loc.as_str()) {
            None => {
                self.state = EngineState::Finished;
                EngineAction::Done(resp)
            },
            Some(u) => {
                let host = u.host.clone();
                let port = u.port_or_default();
                let mut old_req = Request::new(
                    Url {
                        scheme: String::new(),
                        host: String::new(),
                        port: None,
                        path: String::new(),
                        query: String::new(),
                    },
                    RequestTypes::GET,
                );
                core::mem::swap(&mut old_req, &mut self.request);
                let method = redirect_method(old_req.request_type, code);
                let body: Option<Vec<u8>> = if code == 301 || code == 302 || code == 303 {
                    None
                } else {
                    old_req.body
                };
                self.request = Request {
                    url: u,
                    request_type: method,
                    content_type: old_req.content_type,
                    headers: old_req.headers,
                    timeout: old_req.timeout,
                    redirect: old_req.redirect,
                    body,
                    sent: false,
                };
                self.hops = self.hops + 1;
                self.state = EngineState::Connecting;
                EngineAction::Open(host, port)
            },
        }
    }

    /// Advance the engine by one transport event at clock reading
    /// `now_ms`.
    ///
    /// The deadline is checked first, at every event: once the
    /// cumulative time across the whole logical call, redirect hops
    /// included, strictly exceeds the request's timeout, the call
    /// fails with [`HttpError::Timeout`] — and never earlier, unless
    /// the driver itself reports a failure. Transport failures pass
    /// through unwrapped. An event that does not fit the engine's
    /// state fails the call with [`HttpError::IoError`].
    pub fn on_event(&mut self, ev: EngineEvent, now_ms: u64) -> (r: EngineAction)
        requires
            now_ms >= old(self).started_at,
            old(self).inv(),
        ensures
            final(self).inv(),
            final(self).started_at == old(self).started_at,
            spec_timed_out(old(self).started_at, old(self).request.timeout, now_ms) ==> (
            r matches EngineAction::Fail(e) && e == HttpError::Timeout && final(self).state
                == EngineState::Failed),
            !spec_timed_out(old(self).started_at, old(self).request.timeout, now_ms) ==> ({
                let req = old(self).request;
                &&& (ev matches EngineEvent::TransportFailed(te) ==> (r matches EngineAction::Fail(
                    e,
                ) && e == te && final(self).state == EngineState::Failed))
                &&& ((ev is Opened && old(self).state == EngineState::Connecting && !req.sent)
                    ==> (r matches EngineAction::Send(b) && b@ == spec_wire_bytes(req) && final(self).state == EngineState::Sending && final(self).request.sent))
                &&& ((ev is Sent && old(self).state == EngineState::Sending) ==> (r
                    is Recv && final(self).state == EngineState::Receiving))
                &&& (ev matches EngineEvent::Data(d) ==> old(self).state
                    == EngineState::Receiving ==> ({
                    let pm = spec_feed(old(self).parser.model(), d@);
                    &&& (pm.phase matches Phase::Failed(pe) ==> (r matches EngineAction::Fail(e)
                        && e == pe && final(self).state == EngineState::Failed))
                    &&& (pm.phase is Complete ==> ({
                        &&& (!spec_wants_redirect(pm, req.redirect) ==> r is Done)
                        &&& (spec_wants_redirect(pm, req.redirect) && old(self).hops
                            >= REDIRECT_LIMIT ==> (r matches EngineAction::Fail(e) && e
                            == HttpError::RedirectLoopExceeded))
                        &&& (spec_wants_redirect(pm, req.redirect) && old(self).hops
                            < REDIRECT_LIMIT && spec_parse_url(
                            spec_find_pair(pm.headers, "location"@)->0,
                        ) is Some ==> (r is Open && final(self).hops == old(self).hops + 1 && final(self).request.request_type == spec_redirect_method(
                            req.request_type,
                            pm.code,
                        ) && final(self).state == EngineState::Connecting))
                    }))
                    &&& (!(pm.phase is Complete) && !(pm.phase matches Phase::Failed(_)) ==> (r
                        is Recv && final(self).parser.model() == pm && final(self).state
                        == EngineState::Receiving))
                }))
                &&& (ev is Closed ==> old(self).state == EngineState::Receiving ==> ({
                    let pm = spec_close(old(self).parser.model());
                    &&& (pm.phase matches Phase::Failed(pe) ==> (r matches EngineAction::Fail(e)
                        && e == pe && final(self).state == EngineState::Failed))
                    &&& (pm.phase is Complete && !spec_wants_redirect(pm, req.redirect) ==> (
                    r matches EngineAction::Done(resp) && resp.status_code == pm.code
                        && resp.body@ == pm.body))
                }))
                &&& (!(ev matches EngineEvent::TransportFailed(_)) ==> !(r
                    matches EngineAction::Fail(e) && e == HttpError::Timeout))
            }),
    {
        if now_ms - self.started_at > self.request.timeout {
            self.state = EngineState::Failed;
            return EngineAction::Fail(HttpError::Timeout);
        }
        match ev {
            EngineEvent::TransportFailed(e) => {
                self.state = EngineState::Failed;
                EngineAction::Fail(e)
            },
            EngineEvent::Opened => {
                match self.state {
                    EngineState::Connecting => {
                        match self.request.serialize() {
                            Ok(bytes) => {
                                self.state = EngineState::Sending;
                                EngineAction::Send(bytes)
                            },
                            Err(e) => {
                                self.state = EngineState::Failed;
                                EngineAction::Fail(e)
                            },
                        }
                    },
                    _ => {
                        self.state = EngineState::Failed;
                        EngineAction::Fail(HttpError::IoError)
                    },
                }
            },
            EngineEvent::Sent => {
                match self.state {
                    EngineState::Sending => {
                        self.state = EngineState::Receiving;
                        EngineAction::Recv
                    },
                    _ => {
                        self.state = EngineState::Failed;
                        EngineAction::Fail(HttpError::IoError)
                    },
                }
            },
            EngineEvent::Data(d) => {
                match self.state {
                    EngineState::Receiving => {
                        proof {
                            lemma_feed_fail_benign(self.parser.model(), d@);
                        }
                        self.parser.feed(&d);
                        match self.parser.error() {
                            Some(e) => {
                                self.state = EngineState::Failed;
                                EngineAction::Fail(e)
                            },
                            None => {
                                if self.parser.is_complete() {
                                    self.finish_response()
                                } else {
                                    EngineAction::Recv
                                }
                            },
                        }
                    },
                    _ => {
                        self.state = EngineState::Failed;
                        EngineAction::Fail(HttpError::IoError)
                    },
                }
            },
            EngineEvent::Closed => {
                match self.state {
                    EngineState::Receiving => {
                        self.parser.close();
                        match self.parser.error() {
                            Some(e) => {
                                self.state = EngineState::Failed;
                                EngineAction::Fail(e)
                            },
                            None => {
                                if self.parser.is_complete() {
                                    self.finish_response()
                                } else {
                                    self.state = EngineState::Failed;
                                    EngineAction::Fail(HttpError::IoError)
                                }
                            },
                        }
                    },
                    _ => {
                        self.state = EngineState::Failed;
                        EngineAction::Fail(HttpError::IoError)
                    },
                }
            },
        }
    }
}

} // verus!
