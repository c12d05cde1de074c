//! Request methods, content types, and the request value itself.

use vstd::prelude::*;

verus! {

use crate::error::HttpError;
use crate::header::Header;
use crate::header::has_header;
use crate::header::spec_has_header;
use crate::header::spec_serialize_header;
use crate::text::dec_rep;
use crate::text::u64_to_string;
use crate::url::Url;
use crate::url::UrlModel;
use vstd::string::StringExecFns;
use vstd::string::StrSliceExecFns;
use vstd::utf8::encode_utf8;

/// The closed set of request methods the engine can send.
#[derive(Clone, Copy, Debug, PartialEq, Eq, Structural)]
pub enum RequestTypes {
    /// GET Method
    GET,
    /// POST Method
    POST,
    /// PUT Method
    PUT,
    /// DELETE Method
    DELETE,
}

impl RequestTypes {
    /// The exact wire token of this method.
    pub open spec fn spec_token(self) -> Seq<char> {
        match self {
            RequestTypes::GET => "GET"@,
            RequestTypes::POST => "POST"@,
            RequestTypes::PUT => "PUT"@,
            RequestTypes::DELETE => "DELETE"@,
        }
    }

    /// Get the string representation of the RequestType.
    pub fn get_type(&self) -> (r: String)
        ensures
            r@ == self.spec_token(),
    {
        match self {
            RequestTypes::GET => "GET".to_owned(),
            RequestTypes::POST => "POST".to_owned(),
            RequestTypes::PUT => "PUT".to_owned(),
            RequestTypes::DELETE => "DELETE".to_owned(),
        }
    }
}

/// No two methods share a wire token.
pub proof fn lemma_request_tokens_distinct(a: RequestTypes, b: RequestTypes)
    requires
        a != b,
    ensures
        a.spec_token() != b.spec_token(),
{
    reveal_strlit("GET");
    reveal_strlit("POST");
    reveal_strlit("PUT");
    reveal_strlit("DELETE");
    assert("GET"@.len() == 3);
    assert("POST"@.len() == 4);
    assert("PUT"@.len() == 3);
    assert("DELETE"@.len() == 6);
    assert("GET"@[0] != "PUT"@[0]);
    assert("GET"@ != "POST"@);
    assert("GET"@ != "PUT"@);
    assert("GET"@ != "DELETE"@);
    assert("POST"@ != "PUT"@);
    assert("POST"@ != "DELETE"@);
    assert("PUT"@ != "DELETE"@);
}

/// The closed set of content types a request can declare.
#[derive(Clone, Copy, Debug, PartialEq, Eq, Structural)]
pub enum ContentTypes {
    /// application/json
    JSON,
    /// text/html
    HTML,
    /// text/plain
    Text,
    /// image/png
    Png,
    /// audio/mp3
    MP3,
    /// text/html,application/xhtml+xml,application/xml;q=0.9,*/*;q=0.8
    Any,
    /// application/octet-stream
    OctetStream,
}

impl Default for ContentTypes {
    /// The default content type is the broad negotiation value [`ContentTypes::Any`].
    fn default() -> (r: Self)
        ensures
            r == ContentTypes::Any,
    {
        ContentTypes::Any
    }
}

impl ContentTypes {
    /// The exact MIME wire string of this content type.
    pub open spec fn spec_token(self) -> Seq<char> {
        match self {
            ContentTypes::JSON => "application/json"@,
            ContentTypes::HTML => "text/html"@,
            ContentTypes::Text => "text/plain"@,
            ContentTypes::Png => "image/png"@,
            ContentTypes::MP3 => "audio/mp3"@,
            ContentTypes::Any => "text/html,application/xhtml+xml,application/xml;q=0.9,*/*;q=0.8"@,
            ContentTypes::OctetStream => "application/octet-stream"@,
        }
    }

    /// Get the string representation of the ContentType.
    pub fn get_type(&self) -> (r: &str)
        ensures
            r@ == self.spec_token(),
    {
        match self {
            ContentTypes::JSON => "application/json",
            ContentTypes::HTML => "text/html",
            ContentTypes::Text => "text/plain",
            ContentTypes::Png => "image/png",
            ContentTypes::MP3 => "audio/mp3",
            ContentTypes::Any => "text/html,application/xhtml+xml,application/xml;q=0.9,*/*;q=0.8",
            ContentTypes::OctetStream => "application/octet-stream",
        }
    }
}

/// No two content types share a MIME wire string.
pub proof fn lemma_content_tokens_distinct(a: ContentTypes, b: ContentTypes)
    requires
        a != b,
    ensures
        a.spec_token() != b.spec_token(),
{
    reveal_strlit("application/json");
    reveal_strlit("text/html");
    reveal_strlit("text/plain");
    reveal_strlit("image/png");
    reveal_strlit("audio/mp3");
    reveal_strlit("text/html,application/xhtml+xml,application/xml;q=0.9,*/*;q=0.8");
    reveal_strlit("application/octet-stream");
    let long = "text/html,application/xhtml+xml,application/xml;q=0.9,*/*;q=0.8"@;
    assert("application/json"@.len() == 16);
    assert("text/html"@.len() == 9);
    assert("text/plain"@.len() == 10);
    assert("image/png"@.len() == 9);
    assert("audio/mp3"@.len() == 9);
    assert(long.len() == 63);
    assert("application/octet-stream"@.len() == 24);
    assert("text/html"@[0] != "image/png"@[0]);
    assert("text/html"@[0] != "audio/mp3"@[0]);
    assert("image/png"@[0] != "audio/mp3"@[0]);
    assert("application/json"@ != "text/html"@);
    assert("application/json"@ != "text/plain"@);
    assert("application/json"@ != "image/png"@);
    assert("application/json"@ != "audio/mp3"@);
    assert("application/json"@ != long);
    assert("application/json"@ != "application/octet-stream"@);
    assert("text/html"@ != "text/plain"@);
    assert("text/html"@ != "image/png"@);
    assert("text/html"@ != "audio/mp3"@);
    assert("text/html"@ != long);
    assert("text/html"@ != "application/octet-stream"@);
    assert("text/plain"@ != "image/png"@);
    assert("text/plain"@ != "audio/mp3"@);
    assert("text/plain"@ != long);
    assert("text/plain"@ != "application/octet-stream"@);
    assert("image/png"@ != "audio/mp3"@);
    assert("image/png"@ != long);
    assert("image/png"@ != "application/octet-stream"@);
    assert("audio/mp3"@ != long);
    assert("audio/mp3"@ != "application/octet-stream"@);
    assert(long != "application/octet-stream"@);
}

/// One logical request, owned by the caller.
///
/// The header sequence keeps insertion order: it determines wire order
/// and first-match-wins lookup. `sent` moves from `false` to `true`
/// exactly once, when the request is first serialized for
/// transmission; serializing again without a reset is refused.
#[derive(Debug)]
pub struct Request {
    /// Where the request goes.
    pub url: Url,
    /// The method of the request.
    pub request_type: RequestTypes,
    /// The declared content type of the request.
    pub content_type: ContentTypes,
    /// Caller-supplied headers, in wire order.
    pub headers: Vec<Header>,
    /// The wall-clock budget of the whole logical call, in milliseconds.
    pub timeout: u64,
    /// Whether redirect statuses are followed.
    pub redirect: bool,
    /// The request body, if any.
    pub body: Option<Vec<u8>>,
    /// Whether the request has already been serialized for transmission.
    pub sent: bool,
}

/// The request target: the path, `"/"` when the URL has none, with
/// `"?" query` appended when a query is present.
pub open spec fn spec_request_target(u: UrlModel) -> Seq<char> {
    (if u.path.len() == 0 {
        "/"@
    } else {
        u.path
    }) + (if u.query.len() == 0 {
        Seq::<char>::empty()
    } else {
        "?"@ + u.query
    })
}

/// The request line: `"{method} {target} HTTP/1.1\r\n"`.
pub open spec fn spec_request_line(m: RequestTypes, u: UrlModel) -> Seq<char> {
    m.spec_token() + " "@ + spec_request_target(u) + " HTTP/1.1\r\n"@
}

/// The caller-supplied headers, serialized in insertion order.
pub open spec fn spec_headers_block(hs: Seq<Header>) -> Seq<char>
    decreases hs.len(),
{
    if hs.len() == 0 {
        Seq::<char>::empty()
    } else {
        spec_headers_block(hs.drop_last()) + spec_serialize_header(
            hs.last().name@,
            hs.last().value@,
        )
    }
}

/// The headers the builder injects when the caller supplied none of
/// the same name (compared up to ASCII case): `Host` from the URL's
/// authority, `Content-Type` from the declared content type, and
/// `Content-Length` when a body is present.
pub open spec fn spec_injected_headers(r: Request) -> Seq<char> {
    (if spec_has_header(r.headers@, "host"@) {
        Seq::<char>::empty()
    } else {
        "Host: "@ + r.url.host@ + "\r\n"@
    }) + (if spec_has_header(r.headers@, "content-type"@) {
        Seq::<char>::empty()
    } else {
        "Content-Type: "@ + r.content_type.spec_token() + "\r\n"@
    }) + (match r.body {
        Some(b) => if spec_has_header(r.headers@, "content-length"@) {
            Seq::<char>::empty()
        } else {
            "Content-Length: "@ + dec_rep(b@.len()) + "\r\n"@
        },
        None => Seq::<char>::empty(),
    })
}

/// The whole head of the wire request: request line, caller headers,
/// injected headers, and the blank line that ends the header block.
pub open spec fn spec_head(r: Request) -> Seq<char> {
    spec_request_line(r.request_type, r.url.model()) + spec_headers_block(r.headers@)
        + spec_injected_headers(r) + "\r\n"@
}

/// The body bytes, empty when the request carries none.
pub open spec fn spec_body_bytes(b: Option<Vec<u8>>) -> Seq<u8> {
    match b {
        Some(v) => v@,
        None => Seq::<u8>::empty(),
    }
}

/// The exact bytes the request places on the wire: the UTF-8 bytes
/// of the head followed by the raw body bytes, unmodified.
pub open spec fn spec_wire_bytes(r: Request) -> Seq<u8> {
    encode_utf8(spec_head(r)) + spec_body_bytes(r.body)
}

impl Request {
    /// A fresh, unsent request for this URL and method: content type
    /// [`ContentTypes::Any`], no caller headers, no body, a timeout
    /// of 30000 milliseconds, redirects followed.
    pub fn new(url: Url, request_type: RequestTypes) -> (r: Request)
        ensures
            r.url == url,
            r.request_type == request_type,
            r.content_type == ContentTypes::Any,
            r.headers@ == Seq::<Header>::empty(),
            r.timeout == 30000,
            r.redirect == true,
            r.body is None,
            r.sent == false,
    {
        Request {
            url,
            request_type,
            content_type: ContentTypes::Any,
            headers: Vec::new(),
            timeout: 30000,
            redirect: true,
            body: None,
            sent: false,
        }
    }

    /// The request line of this request as text.
    fn request_line_string(&self) -> (r: String)
        ensures
            r@ == spec_request_line(self.request_type, self.url.model()),
    {
        let mut out = self.request_type.get_type();
        out.append(" ");
        if self.url.path.as_str().unicode_len() == 0 {
            out.append("/");
        } else {
            out.append(self.url.path.as_str());
        }
        if self.url.query.as_str().unicode_len() != 0 {
            out.append("?");
            out.append(self.url.query.as_str());
        }
        out.append(" HTTP/1.1\r\n");
        proof {
            assert(out@ =~= spec_request_line(self.request_type, self.url.model()));
        }
        out
    }

    /// The caller-supplied headers of this request as one block of text.
    fn headers_block_string(&self) -> (r: String)
        ensures
            r@ == spec_headers_block(self.headers@),
    {
        let mut out = String::new();
        let n = self.headers.len();
        let mut i: usize = 0;
        while i < n
            invariant
                n == self.headers@.len(),
                0 <= i <= n,
                out@ == spec_headers_block(self.headers@.take(i as int)),
            decreases n - i,
        {
            let h = &self.headers[i];
            let hl = h.serialize();
            out.append(hl.as_str());
            proof {
                assert(self.headers@.take(i as int + 1).drop_last() =~= self.headers@.take(
                    i as int,
                ));
                assert(self.headers@.take(i as int + 1).last() == self.headers@[i as int]);
                assert(out@ =~= spec_headers_block(self.headers@.take(i as int + 1)));
            }
            i += 1;
        }
        proof {
            assert(self.headers@.take(n as int) =~= self.headers@);
        }
        out
    }

    /// The headers the builder injects, as one block of text.
    fn injected_string(&self) -> (r: String)
        ensures
            r@ == spec_injected_headers(*self),
    {
        let mut out = String::new();
        let ghost with_headers = out@;
        let ghost host_part = (if spec_has_header(self.headers@, "host"@) {
            Seq::<char>::empty()
        } else {
            "Host: "@ + self.url.host@ + "\r\n"@
        });
        if !has_header(&self.headers, "host") {
            out.append("Host: ");
            out.append(self.url.host.as_str());
            out.append("\r\n");
        }
        proof {
            assert(out@ =~= with_headers + host_part);
        }
        let ghost ct_part = (if spec_has_header(self.headers@, "content-type"@) {
            Seq::<char>::empty()
        } else {
            "Content-Type: "@ + self.content_type.spec_token() + "\r\n"@
        });
        if !has_header(&self.headers, "content-type") {
            out.append("Content-Type: ");
            out.append(self.content_type.get_type());
            out.append("\r\n");
        }
        proof {
            assert(out@ =~= with_headers + host_part + ct_part);
        }
        let ghost cl_part = (match &self.body {
            Some(b) => if spec_has_header(self.headers@, "content-length"@) {
                Seq::<char>::empty()
            } else {
                "Content-Length: "@ + dec_rep(b@.len()) + "\r\n"@
            },
            None => Seq::<char>::empty(),
        });
        match &self.body {
            Some(b) => {
                if !has_header(&self.headers, "content-length") {
                    out.append("Content-Length: ");
                    let num = u64_to_string(b.len() as u64);
                    out.append(num.as_str());
                    out.append("\r\n");
                }
            },
            None => {},
        }
        proof {
            assert(out@ =~= with_headers + host_part + ct_part + cl_part);
            assert(spec_injected_headers(*self) == host_part + ct_part + cl_part);
            assert(out@ =~= spec_injected_headers(*self));
        }
        out
    }

    /// The head of the wire request as text, exactly as serialized.
    pub fn serialize_head(&self) -> (r: String)
        ensures
            r@ == spec_head(*self),
    {
        let mut out = self.request_line_string();
        let block = self.headers_block_string();
        out.append(block.as_str());
        let injected = self.injected_string();
        out.append(injected.as_str());
        out.append("\r\n");
        proof {
            assert(out@ =~= spec_head(*self));
        }
        out
    }

    /// Serialize this request into the exact bytes to place on the
    /// wire, marking it sent.
    ///
    /// The first call on an unsent request succeeds and flips `sent`
    /// to `true`; any further call is refused with
    /// [`HttpError::AlreadySent`] and changes nothing, so a request
    /// is never re-serialized without an explicit reset.
    pub fn serialize(&mut self) -> (r: Result<Vec<u8>, HttpError>)
        ensures
            old(self).sent ==> (r matches Err(e) && e == HttpError::AlreadySent && *final(self)
                == *old(self)),
            !old(self).sent ==> (r matches Ok(bytes) && bytes@ == spec_wire_bytes(*old(self))),
            final(self).url == old(self).url,
            final(self).request_type == old(self).request_type,
            final(self).content_type == old(self).content_type,
            final(self).headers == old(self).headers,
            final(self).timeout == old(self).timeout,
            final(self).redirect == old(self).redirect,
            final(self).body == old(self).body,
            final(self).sent == (old(self).sent || r is Ok),
    {
        if self.sent {
            return Err(HttpError::AlreadySent);
        }
        let head = self.serialize_head();
        let mut out = head.as_str().as_bytes_vec();
        proof {
            assert(out@ == encode_utf8(spec_head(*self)));
        }
        match &self.body {
            Some(b) => {
                let m = b.len();
                let mut i: usize = 0;
                while i < m
                    invariant
                        m == b@.len(),
                        0 <= i <= m,
                        out@ == encode_utf8(spec_head(*self)) + b@.take(i as int),
                    decreases m - i,
                {
                    out.push(b[i]);
                    proof {
                        assert(b@.take(i as int + 1) =~= b@.take(i as int).push(b@[i as int]));
                        assert(out@ =~= encode_utf8(spec_head(*self)) + b@.take(i as int + 1));
                    }
                    i += 1;
                }
                proof {
                    assert(b@.take(m as int) =~= b@);
                }
            },
            None => {
                proof {
                    assert(out@ =~= spec_wire_bytes(*self));
                }
            },
        }
        self.sent = true;
        Ok(out)
    }
}

} // verus!
