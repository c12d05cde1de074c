//! Incremental response parsing: a resumable byte-level machine.
//!
//! The transport may deliver fewer bytes than needed per call, so the
//! parser consumes its input one byte at a time and can resume from
//! any sub-state without re-reading bytes already attributed to a
//! prior field. Its whole visible state is a function of the
//! concatenation of all bytes fed so far, which is exactly why the
//! outcome cannot depend on how a stream is fragmented across reads.

use vstd::prelude::*;

verus! {

use crate::error::HttpError;
use crate::header::Header;
use crate::header::spec_parse_header;
use crate::header::spec_has_header;
use crate::header::first_header;
use crate::header::find_header;
use crate::text::spec_eq_ci;
use crate::text::eq_ignore_case;
use crate::text::all_digits;
use crate::text::dec_val;
use crate::text::parse_dec;
use crate::text::is_hex_byte;
use crate::text::hex_val;
use vstd::slice::slice_subrange;
use vstd::slice::slice_to_vec;
use vstd::utf8::valid_utf8;
use vstd::utf8::decode_utf8;

/// Where the parser stands in the response byte stream.
#[derive(Clone, Copy, Debug, PartialEq, Eq, Structural)]
pub enum Phase {
    /// Accumulating the status line.
    StatusLine,
    /// Accumulating one header line after another.
    Headers,
    /// Reading exactly this many more body bytes.
    BodyLen(u64),
    /// Accumulating a chunk-size line.
    ChunkSize,
    /// Reading this many more bytes of the current chunk.
    ChunkData(u64),
    /// Expecting the `\r` that ends a chunk's data.
    ChunkEndCr,
    /// Expecting the `\n` that ends a chunk's data.
    ChunkEndLf,
    /// Reading body bytes until the peer closes the connection.
    UntilClose,
    /// The response is fully parsed.
    Complete,
    /// Parsing failed; the error is final.
    Failed(HttpError),
}

/// The mathematical state of the parser.
#[verifier::ext_equal]
pub struct ParserModel {
    /// The current phase.
    pub phase: Phase,
    /// The bytes of the unfinished line, in the line-oriented phases.
    pub line: Seq<u8>,
    /// The parsed status code.
    pub code: u16,
    /// The parsed status text.
    pub text: Seq<char>,
    /// The parsed headers so far, as name/value character sequences.
    pub headers: Seq<(Seq<char>, Seq<char>)>,
    /// The body bytes gathered so far.
    pub body: Seq<u8>,
}

/// The state a fresh parser starts from.
pub open spec fn init_model() -> ParserModel {
    ParserModel {
        phase: Phase::StatusLine,
        line: Seq::<u8>::empty(),
        code: 0,
        text: Seq::<char>::empty(),
        headers: Seq::<(Seq<char>, Seq<char>)>::empty(),
        body: Seq::<u8>::empty(),
    }
}

/// The name/value pairs a header list stands for.
pub open spec fn pairs_of(hs: Seq<Header>) -> Seq<(Seq<char>, Seq<char>)> {
    hs.map_values(|h: Header| (h.name@, h.value@))
}

/// Whether some pair in `ps` carries this name, up to ASCII case.
pub open spec fn spec_has_pair(ps: Seq<(Seq<char>, Seq<char>)>, name: Seq<char>) -> bool {
    exists|i: int| 0 <= i < ps.len() && spec_eq_ci(ps[i].0, name)
}

/// The index of the first pair in `ps` with this name.
pub open spec fn first_pair(ps: Seq<(Seq<char>, Seq<char>)>, name: Seq<char>) -> int {
    choose|i: int|
        0 <= i < ps.len() && spec_eq_ci(ps[i].0, name) && (forall|j: int|
            0 <= j < i ==> !spec_eq_ci(ps[j].0, name))
}

/// The value of the first pair in `ps` with this name, if any.
pub open spec fn spec_find_pair(ps: Seq<(Seq<char>, Seq<char>)>, name: Seq<char>) -> Option<
    Seq<char>,
> {
    if spec_has_pair(ps, name) {
        Some(ps[first_pair(ps, name)].1)
    } else {
        None
    }
}

/// A first matching pair index is unique.
pub proof fn lemma_first_pair_is(ps: Seq<(Seq<char>, Seq<char>)>, name: Seq<char>, i: int)
    requires
        0 <= i < ps.len(),
        spec_eq_ci(ps[i].0, name),
        forall|j: int| 0 <= j < i ==> !spec_eq_ci(ps[j].0, name),
    ensures
        spec_has_pair(ps, name),
        first_pair(ps, name) == i,
{
    assert(spec_has_pair(ps, name));
    let k = first_pair(ps, name);
    assert(0 <= k < ps.len() && spec_eq_ci(ps[k].0, name) && (forall|j: int|
        0 <= j < k ==> !spec_eq_ci(ps[j].0, name))) by {
        assert(0 <= i < ps.len() && spec_eq_ci(ps[i].0, name) && (forall|j: int|
            0 <= j < i ==> !spec_eq_ci(ps[j].0, name)));
    }
    if k < i {
        assert(!spec_eq_ci(ps[k].0, name));
    }
    if i < k {
        assert(!spec_eq_ci(ps[i].0, name));
    }
}

/// Lookup over a header list and over the pairs it stands for agree.
pub proof fn lemma_find_pair_of_headers(hs: Seq<Header>, name: Seq<char>)
    ensures
        spec_has_pair(pairs_of(hs), name) == spec_has_header(hs, name),
        spec_has_header(hs, name) ==> spec_find_pair(pairs_of(hs), name)
            == crate::header::spec_find_header(hs, name),
{
    let ps = pairs_of(hs);
    assert(ps.len() == hs.len());
    assert(forall|i: int| 0 <= i < hs.len() ==> ps[i] == (hs[i].name@, hs[i].value@));
    if spec_has_header(hs, name) {
        crate::header::lemma_first_header_props(hs, name);
        let i = first_header(hs, name);
        lemma_first_pair_is(ps, name, i);
    }
}

/// The model with its phase replaced by a final failure.
pub open spec fn fail_model(m: ParserModel, e: HttpError) -> ParserModel {
    ParserModel { phase: Phase::Failed(e), ..m }
}

/// The nine bytes of `"HTTP/1.1 "`, which every status line must open with.
pub open spec fn spec_status_prefix() -> Seq<u8> {
    seq![72u8, 84u8, 84u8, 80u8, 47u8, 49u8, 46u8, 49u8, 32u8]
}

/// Whether `b` is an ASCII decimal digit byte.
pub open spec fn is_digit_byte(b: u8) -> bool {
    48 <= b <= 57
}

/// What a complete status line does to the model: `"HTTP/1.1 "`,
/// then a three-digit code in `[100, 599]`, then either nothing or a
/// space and the status text; anything else fails with
/// [`HttpError::MalformedStatusLine`].
pub open spec fn spec_handle_status(m: ParserModel, line: Seq<u8>) -> ParserModel {
    if line.len() >= 12 && line.take(9) == spec_status_prefix() && is_digit_byte(line[9])
        && is_digit_byte(line[10]) && is_digit_byte(line[11]) && (line.len() == 12 || line[12]
        == 32) {
        let code = (line[9] - 48) * 100 + (line[10] - 48) * 10 + (line[11] - 48);
        let text_bytes = if line.len() == 12 {
            Seq::<u8>::empty()
        } else {
            line.skip(13)
        };
        if !(100 <= code <= 599) {
            fail_model(m, HttpError::MalformedStatusLine)
        } else if !valid_utf8(text_bytes) {
            fail_model(m, HttpError::MalformedStatusLine)
        } else {
            ParserModel {
                phase: Phase::Headers,
                code: code as u16,
                text: decode_utf8(text_bytes),
                ..m
            }
        }
    } else {
        fail_model(m, HttpError::MalformedStatusLine)
    }
}

/// The framing decision at the end of the header block: chunked when
/// `Transfer-Encoding: chunked` is present, else the exact
/// `Content-Length` count, else read until the connection closes.
pub open spec fn spec_framing(m: ParserModel) -> ParserModel {
    let te = spec_find_pair(m.headers, "transfer-encoding"@);
    if te is Some && spec_eq_ci(te->0, "chunked"@) {
        ParserModel { phase: Phase::ChunkSize, ..m }
    } else {
        match spec_find_pair(m.headers, "content-length"@) {
            Some(v) => if v.len() > 0 && all_digits(v) && dec_val(v) <= u64::MAX {
                if dec_val(v) == 0 {
                    ParserModel { phase: Phase::Complete, ..m }
                } else {
                    ParserModel { phase: Phase::BodyLen(dec_val(v) as u64), ..m }
                }
            } else {
                fail_model(m, HttpError::MalformedHeader)
            },
            None => ParserModel { phase: Phase::UntilClose, ..m },
        }
    }
}

/// What a complete header line does to the model: an empty line
/// triggers the framing decision; any other line must parse as a
/// header, and a parse failure is fatal for the whole response.
pub open spec fn spec_handle_header_line(m: ParserModel, line: Seq<u8>) -> ParserModel {
    if line.len() == 0 {
        spec_framing(m)
    } else if !valid_utf8(line) {
        fail_model(m, HttpError::MalformedHeader)
    } else {
        match spec_parse_header(decode_utf8(line)) {
            Some(p) => ParserModel { phase: Phase::Headers, headers: m.headers.push(p), ..m },
            None => fail_model(m, HttpError::MalformedHeader),
        }
    }
}

/// The first index at or after `from` in `s` that is not a
/// hexadecimal digit byte, or `s.len()` when there is none.
pub open spec fn first_non_hex(s: Seq<u8>, from: nat) -> int
    decreases s.len() - from,
{
    if from >= s.len() {
        s.len() as int
    } else if !is_hex_byte(s[from as int]) {
        from as int
    } else {
        first_non_hex(s, (from + 1) as nat)
    }
}

/// What a complete chunk-size line does to the model: a non-empty
/// hexadecimal numeral, optionally followed by `';'` and an
/// extension, names the next chunk's size; size zero completes the
/// response.
pub open spec fn spec_handle_chunk_size(m: ParserModel, line: Seq<u8>) -> ParserModel {
    let k = first_non_hex(line, 0);
    if k == 0 {
        fail_model(m, HttpError::MalformedHeader)
    } else if !(k == line.len() || line[k] == 59) {
        fail_model(m, HttpError::MalformedHeader)
    } else if hex_val(line.take(k)) > u64::MAX {
        fail_model(m, HttpError::MalformedHeader)
    } else if hex_val(line.take(k)) == 0 {
        ParserModel { phase: Phase::Complete, ..m }
    } else {
        ParserModel { phase: Phase::ChunkData(hex_val(line.take(k)) as u64), ..m }
    }
}

/// Whether byte `b` completes the `"\r\n"`-terminated line whose
/// earlier bytes are `line`.
pub open spec fn line_done(line: Seq<u8>, b: u8) -> bool {
    b == 10 && line.len() > 0 && line.last() == 13
}

/// One byte of progress of the parsing machine.
pub open spec fn spec_step(m: ParserModel, b: u8) -> ParserModel {
    match m.phase {
        Phase::StatusLine => if line_done(m.line, b) {
            spec_handle_status(
                ParserModel { line: Seq::<u8>::empty(), ..m },
                m.line.drop_last(),
            )
        } else {
            ParserModel { line: m.line.push(b), ..m }
        },
        Phase::Headers => if line_done(m.line, b) {
            spec_handle_header_line(
                ParserModel { line: Seq::<u8>::empty(), ..m },
                m.line.drop_last(),
            )
        } else {
            ParserModel { line: m.line.push(b), ..m }
        },
        Phase::ChunkSize => if line_done(m.line, b) {
            spec_handle_chunk_size(
                ParserModel { line: Seq::<u8>::empty(), ..m },
                m.line.drop_last(),
            )
        } else {
            ParserModel { line: m.line.push(b), ..m }
        },
        Phase::BodyLen(r) => if r <= 1 {
            ParserModel { phase: Phase::Complete, body: m.body.push(b), ..m }
        } else {
            ParserModel { phase: Phase::BodyLen((r - 1) as u64), body: m.body.push(b), ..m }
        },
        Phase::ChunkData(r) => if r <= 1 {
            ParserModel { phase: Phase::ChunkEndCr, body: m.body.push(b), ..m }
        } else {
            ParserModel { phase: Phase::ChunkData((r - 1) as u64), body: m.body.push(b), ..m }
        },
        Phase::ChunkEndCr => if b == 13 {
            ParserModel { phase: Phase::ChunkEndLf, ..m }
        } else {
            fail_model(m, HttpError::MalformedHeader)
        },
        Phase::ChunkEndLf => if b == 10 {
            ParserModel { phase: Phase::ChunkSize, ..m }
        } else {
            fail_model(m, HttpError::MalformedHeader)
        },
        Phase::UntilClose => ParserModel { body: m.body.push(b), ..m },
        Phase::Complete => m,
        Phase::Failed(_) => m,
    }
}

/// The machine run over a whole byte sequence.
pub open spec fn spec_feed(m: ParserModel, bs: Seq<u8>) -> ParserModel
    decreases bs.len(),
{
    if bs.len() == 0 {
        m
    } else {
        spec_step(spec_feed(m, bs.drop_last()), bs.last())
    }
}

/// What the peer closing the connection does: it completes a body
/// framed by connection close, leaves a finished or failed parse as
/// it is, and is an [`HttpError::IoError`] anywhere else.
pub open spec fn spec_close(m: ParserModel) -> ParserModel {
    match m.phase {
        Phase::UntilClose => ParserModel { phase: Phase::Complete, ..m },
        Phase::Complete => m,
        Phase::Failed(_) => m,
        _ => fail_model(m, HttpError::IoError),
    }
}

/// The parsed status line, header block, and framed body of one
/// response.
///
/// `status_code` is a three-digit value in `[100, 599]`, and the body
/// holds exactly the bytes the framing declared: the `Content-Length`
/// count, the concatenation of all chunks with their size prefixes
/// removed, or everything read before the peer closed.
#[derive(Debug)]
pub struct Response {
    /// The status code of the status line.
    pub status_code: u16,
    /// The status text after the code, possibly empty.
    pub status_text: String,
    /// The response headers, in wire order.
    pub headers: Vec<Header>,
    /// The response body.
    pub body: Vec<u8>,
}

/// Whether the code field is trustworthy for the phase the machine
/// is in: from the header block onward it is three digits in range.
pub open spec fn code_ok(m: ParserModel) -> bool {
    match m.phase {
        Phase::StatusLine => true,
        Phase::Failed(_) => true,
        _ => 100 <= m.code <= 599,
    }
}

/// One step keeps the code in range.
proof fn lemma_step_code_ok(m: ParserModel, b: u8)
    requires
        code_ok(m),
    ensures
        code_ok(spec_step(m, b)),
{
}

/// A whole run keeps the code in range.
proof fn lemma_feed_code_ok(m: ParserModel, bs: Seq<u8>)
    requires
        code_ok(m),
    ensures
        code_ok(spec_feed(m, bs)),
    decreases bs.len(),
{
    if bs.len() > 0 {
        lemma_feed_code_ok(m, bs.drop_last());
        lemma_step_code_ok(spec_feed(m, bs.drop_last()), bs.last());
    }
}

/// Whatever byte stream a fresh parser consumes, a complete parse
/// carries a status code that is a three-digit value in `[100, 599]`.
pub proof fn lemma_complete_code_in_range(bs: Seq<u8>)
    ensures
        spec_feed(init_model(), bs).phase is Complete ==> 100 <= spec_feed(init_model(), bs).code
            <= 599,
{
    lemma_feed_code_ok(init_model(), bs);
}

/// The exact byte count the headers declare, when the framing is
/// length-based: no `Transfer-Encoding: chunked`, and a well-formed
/// `Content-Length`.
pub open spec fn declared_length(headers: Seq<(Seq<char>, Seq<char>)>) -> Option<int> {
    let te = spec_find_pair(headers, "transfer-encoding"@);
    if te is Some && spec_eq_ci(te->0, "chunked"@) {
        None
    } else {
        match spec_find_pair(headers, "content-length"@) {
            Some(v) => if v.len() > 0 && all_digits(v) && dec_val(v) <= u64::MAX {
                Some(dec_val(v))
            } else {
                None
            },
            None => None,
        }
    }
}

/// How the body gathered so far relates to the declared framing, in
/// every phase.
pub open spec fn body_tracks_framing(m: ParserModel) -> bool {
    &&& (m.phase is StatusLine || m.phase is Headers) ==> m.body.len() == 0
    &&& (m.phase matches Phase::BodyLen(r) ==> r > 0 && declared_length(m.headers) == Some(
        m.body.len() + r,
    ))
    &&& ((m.phase is ChunkSize || m.phase matches Phase::ChunkData(_) || m.phase is ChunkEndCr
        || m.phase is ChunkEndLf || m.phase is UntilClose) ==> declared_length(m.headers)
        is None)
    &&& (m.phase is Complete && declared_length(m.headers) is Some ==> declared_length(m.headers)
        == Some(m.body.len() as int))
}

/// One step keeps the body tracking the declared framing.
#[verifier::rlimit(60)]
proof fn lemma_step_body_tracks(m: ParserModel, b: u8)
    requires
        body_tracks_framing(m),
    ensures
        body_tracks_framing(spec_step(m, b)),
{
    if m.phase is Headers && line_done(m.line, b) && m.line.drop_last().len() == 0 {
        match spec_find_pair(m.headers, "content-length"@) {
            Some(v) => {
                if all_digits(v) {
                    crate::text::lemma_dec_val_nonneg(v);
                }
            },
            None => {},
        }
        assert(body_tracks_framing(spec_step(m, b)));
    }
}

/// A whole run keeps the body tracking the declared framing.
proof fn lemma_feed_body_tracks(m: ParserModel, bs: Seq<u8>)
    requires
        body_tracks_framing(m),
    ensures
        body_tracks_framing(spec_feed(m, bs)),
    decreases bs.len(),
{
    if bs.len() > 0 {
        lemma_feed_body_tracks(m, bs.drop_last());
        lemma_step_body_tracks(spec_feed(m, bs.drop_last()), bs.last());
    }
}

/// Whatever byte stream a fresh parser consumes, a complete parse
/// whose headers declare length framing — no chunked transfer
/// encoding, a well-formed `Content-Length` — carries exactly the
/// declared number of body bytes.
pub proof fn lemma_complete_body_matches_declared_length(bs: Seq<u8>)
    ensures
        ({
            let m = spec_feed(init_model(), bs);
            m.phase is Complete && declared_length(m.headers) is Some ==> declared_length(m.headers)
                == Some(m.body.len() as int)
        }),
{
    lemma_feed_body_tracks(init_model(), bs);
}

/// Relies on `String::from_utf8`: it returns `Ok` exactly on valid
/// UTF-8 input, and the string then holds those bytes decoded.
#[verifier::external_body]
fn string_from_utf8(v: Vec<u8>) -> (r: Option<String>)
    ensures
        r is Some <==> valid_utf8(v@),
        r matches Some(s) ==> s@ == decode_utf8(v@),
{
    String::from_utf8(v).ok()
}

/// Whether `b` is an ASCII hexadecimal digit byte.
fn is_hex_digit_byte(b: u8) -> (r: bool)
    ensures
        r == is_hex_byte(b),
{
    (b >= 48 && b <= 57) || (b >= 97 && b <= 102) || (b >= 65 && b <= 70)
}

/// The byte of the status-line prefix at index `j`.
fn status_prefix_byte(j: usize) -> (r: u8)
    requires
        j < 9,
    ensures
        r == spec_status_prefix()[j as int],
{
    match j {
        0 => 72,
        1 => 84,
        2 => 84,
        3 => 80,
        4 => 47,
        5 => 49,
        6 => 46,
        7 => 49,
        _ => 32,
    }
}

/// The resumable response parser.
///
/// Feed it bytes as they arrive; its visible state is a function of
/// the concatenation of everything fed so far and of nothing else.
pub struct ResponseParser {
    phase: Phase,
    line: Vec<u8>,
    code: u16,
    text: String,
    headers: Vec<Header>,
    body: Vec<u8>,
    consumed: Ghost<Seq<u8>>,
}

impl ResponseParser {
    /// The model this parser stands at.
    pub closed spec fn model(&self) -> ParserModel {
        ParserModel {
            phase: self.phase,
            line: self.line@,
            code: self.code,
            text: self.text@,
            headers: pairs_of(self.headers@),
            body: self.body@,
        }
    }

    /// Every byte fed so far, in order.
    pub closed spec fn consumed(&self) -> Seq<u8> {
        self.consumed@
    }

    /// The parser's state is the machine run over its consumed bytes.
    pub open spec fn wf(&self) -> bool {
        self.model() == spec_feed(init_model(), self.consumed())
    }

    /// A fresh parser, awaiting the status line.
    pub fn new() -> (r: ResponseParser)
        ensures
            r.model() == init_model(),
            r.consumed() == Seq::<u8>::empty(),
            r.wf(),
    {
        let r = ResponseParser {
            phase: Phase::StatusLine,
            line: Vec::new(),
            code: 0,
            text: String::new(),
            headers: Vec::new(),
            body: Vec::new(),
            consumed: Ghost(Seq::empty()),
        };
        proof {
            assert(r.model() =~= init_model());
        }
        r
    }

    /// Handle a complete status line.
    fn handle_status_line(&mut self, line: &Vec<u8>)
        ensures
            final(self).model() == spec_handle_status(old(self).model(), line@),
            final(self).consumed == old(self).consumed,
    {
        let n = line.len();
        if n < 12 {
            self.phase = Phase::Failed(HttpError::MalformedStatusLine);
            proof {
                assert(self.model() =~~= spec_handle_status(old(self).model(), line@));
            }
            return;
        }
        let mut j: usize = 0;
        while j < 9
            invariant
                0 <= j <= 9,
                n == line@.len(),
                n >= 12,
                self == old(self),
                forall|t: int| 0 <= t < j ==> line@[t] == spec_status_prefix()[t],
            decreases 9 - j,
        {
            if line[j] != status_prefix_byte(j) {
                self.phase = Phase::Failed(HttpError::MalformedStatusLine);
                proof {
                    assert(line@.take(9)[j as int] != spec_status_prefix()[j as int]);
                    assert(line@.take(9) != spec_status_prefix());
                    assert(self.model() =~~= spec_handle_status(old(self).model(), line@));
                }
                return;
            }
            j += 1;
        }
        proof {
            assert(line@.take(9) =~= spec_status_prefix());
        }
        let d0 = line[9];
        let d1 = line[10];
        let d2 = line[11];
        if d0 < 48 || d0 > 57 || d1 < 48 || d1 > 57 || d2 < 48 || d2 > 57 {
            self.phase = Phase::Failed(HttpError::MalformedStatusLine);
            proof {
                assert(self.model() =~~= spec_handle_status(old(self).model(), line@));
            }
            return;
        }
        if n > 12 && line[12] != 32 {
            self.phase = Phase::Failed(HttpError::MalformedStatusLine);
            proof {
                assert(self.model() =~~= spec_handle_status(old(self).model(), line@));
            }
            return;
        }
        let c: u32 = ((d0 - 48) as u32) * 100 + ((d1 - 48) as u32) * 10 + ((d2 - 48) as u32);
        if c < 100 || c > 599 {
            self.phase = Phase::Failed(HttpError::MalformedStatusLine);
            proof {
                assert(self.model() =~~= spec_handle_status(old(self).model(), line@));
            }
            return;
        }
        if n == 12 {
            self.code = c as u16;
            self.text = String::new();
            self.phase = Phase::Headers;
            proof {
                assert(decode_utf8(Seq::<u8>::empty()) =~= Seq::<char>::empty());
                assert(self.model() =~~= spec_handle_status(old(self).model(), line@));
            }
        } else {
            let tb = slice_to_vec(slice_subrange(line.as_slice(), 13, n));
            proof {
                assert(tb@ =~= line@.skip(13));
            }
            match string_from_utf8(tb) {
                Some(s) => {
                    self.code = c as u16;
                    self.text = s;
                    self.phase = Phase::Headers;
                    proof {
                        assert(self.model() =~~= spec_handle_status(old(self).model(), line@));
                    }
                },
                None => {
                    self.phase = Phase::Failed(HttpError::MalformedStatusLine);
                    proof {
                        assert(self.model() =~~= spec_handle_status(old(self).model(), line@));
                    }
                },
            }
        }
    }

    /// Handle a complete header line, or the empty line that ends
    /// the header block and decides the framing.
    fn handle_header_line(&mut self, line: &Vec<u8>)
        ensures
            final(self).model() == spec_handle_header_line(old(self).model(), line@),
            final(self).consumed == old(self).consumed,
    {
        if line.len() == 0 {
            proof {
                lemma_find_pair_of_headers(self.headers@, "transfer-encoding"@);
                lemma_find_pair_of_headers(self.headers@, "content-length"@);
            }
            let te = find_header(&self.headers, "transfer-encoding");
            let chunked = match &te {
                Some(v) => eq_ignore_case(v.as_str(), "chunked"),
                None => false,
            };
            if chunked {
                self.phase = Phase::ChunkSize;
            } else {
                match find_header(&self.headers, "content-length") {
                    Some(v) => {
                        match parse_dec(v.as_str()) {
                            Some(len) => {
                                if len == 0 {
                                    self.phase = Phase::Complete;
                                } else {
                                    self.phase = Phase::BodyLen(len);
                                }
                            },
                            None => {
                                self.phase = Phase::Failed(HttpError::MalformedHeader);
                            },
                        }
                    },
                    None => {
                        self.phase = Phase::UntilClose;
                    },
                }
            }
            proof {
                assert(self.model() =~~= spec_handle_header_line(old(self).model(), line@));
            }
        } else {
            let lv = slice_to_vec(line.as_slice());
            proof {
                assert(lv@ =~= line@);
            }
            match string_from_utf8(lv) {
                None => {
                    self.phase = Phase::Failed(HttpError::MalformedHeader);
                },
                Some(s) => {
                    match Header::parse(s.as_str()) {
                        Err(_) => {
                            self.phase = Phase::Failed(HttpError::MalformedHeader);
                        },
                        Ok(h) => {
                            let ghost hs0 = self.headers@;
                            let ghost p = (h.name@, h.value@);
                            self.headers.push(h);
                            self.phase = Phase::Headers;
                            proof {
                                assert(pairs_of(self.headers@) =~= pairs_of(hs0).push(p));
                            }
                        },
                    }
                },
            }
            proof {
                assert(self.model() =~~= spec_handle_header_line(old(self).model(), line@));
            }
        }
    }

    /// Handle a complete chunk-size line.
    fn handle_chunk_size(&mut self, line: &Vec<u8>)
        ensures
            final(self).model() == spec_handle_chunk_size(old(self).model(), line@),
            final(self).consumed == old(self).consumed,
    {
        let n = line.len();
        let mut k: usize = 0;
        let mut val: u128 = 0;
        let mut over = false;
        while k < n && is_hex_digit_byte(line[k])
            invariant
                0 <= k <= n,
                n == line@.len(),
                self == old(self),
                first_non_hex(line@, 0) == first_non_hex(line@, k as nat),
                forall|t: int| 0 <= t < k ==> is_hex_byte(line@[t]),
                !over ==> val == hex_val(line@.take(k as int)) && val <= u64::MAX,
                over ==> hex_val(line@.take(k as int)) > u64::MAX,
            decreases n - k,
        {
            let b = line[k];
            let d: u128 = if b >= 48 && b <= 57 {
                (b - 48) as u128
            } else if b >= 97 && b <= 102 {
                (b - 87) as u128
            } else {
                (b - 55) as u128
            };
            proof {
                assert(line@.take(k as int + 1).drop_last() =~= line@.take(k as int));
                assert(line@.take(k as int + 1).last() == line@[k as int]);
            }
            if !over {
                let next = val * 16 + d;
                if next > u64::MAX as u128 {
                    over = true;
                } else {
                    val = next;
                }
            }
            k += 1;
        }
        proof {
            if k < n {
                assert(!is_hex_byte(line@[k as int]));
            }
            assert(first_non_hex(line@, 0) == k as int);
        }
        if k == 0 {
            self.phase = Phase::Failed(HttpError::MalformedHeader);
        } else if k < n && line[k] != 59 {
            self.phase = Phase::Failed(HttpError::MalformedHeader);
        } else if over {
            self.phase = Phase::Failed(HttpError::MalformedHeader);
        } else if val == 0 {
            self.phase = Phase::Complete;
        } else {
            self.phase = Phase::ChunkData(val as u64);
        }
        proof {
            assert(self.model() =~~= spec_handle_chunk_size(old(self).model(), line@));
        }
    }

    /// Consume one byte.
    fn step_byte(&mut self, b: u8)
        ensures
            final(self).model() == spec_step(old(self).model(), b),
            final(self).consumed == old(self).consumed,
    {
        match self.phase {
            Phase::StatusLine => {
                if b == 10 && self.line.len() > 0 && self.line[self.line.len() - 1] == 13 {
                    self.line.pop();
                    let mut content: Vec<u8> = Vec::new();
                    core::mem::swap(&mut content, &mut self.line);
                    self.handle_status_line(&content);
                    proof {
                        assert(self.model() =~~= spec_step(old(self).model(), b));
                    }
                } else {
                    self.line.push(b);
                    proof {
                        assert(self.model() =~~= spec_step(old(self).model(), b));
                    }
                }
            },
            Phase::Headers => {
                if b == 10 && self.line.len() > 0 && self.line[self.line.len() - 1] == 13 {
                    self.line.pop();
                    let mut content: Vec<u8> = Vec::new();
                    core::mem::swap(&mut content, &mut self.line);
                    self.handle_header_line(&content);
                    proof {
                        assert(self.model() =~~= spec_step(old(self).model(), b));
                    }
                } else {
                    self.line.push(b);
                    proof {
                        assert(self.model() =~~= spec_step(old(self).model(), b));
                    }
                }
            },
            Phase::ChunkSize => {
                if b == 10 && self.line.len() > 0 && self.line[self.line.len() - 1] == 13 {
                    self.line.pop();
                    let mut content: Vec<u8> = Vec::new();
                    core::mem::swap(&mut content, &mut self.line);
                    self.handle_chunk_size(&content);
                    proof {
                        assert(self.model() =~~= spec_step(old(self).model(), b));
                    }
                } else {
                    self.line.push(b);
                    proof {
                        assert(self.model() =~~= spec_step(old(self).model(), b));
                    }
                }
            },
            Phase::BodyLen(r) => {
                self.body.push(b);
                if r <= 1 {
                    self.phase = Phase::Complete;
                } else {
                    self.phase = Phase::BodyLen(r - 1);
                }
                proof {
                    assert(self.model() =~~= spec_step(old(self).model(), b));
                }
            },
            Phase::ChunkData(r) => {
                self.body.push(b);
                if r <= 1 {
                    self.phase = Phase::ChunkEndCr;
                } else {
                    self.phase = Phase::ChunkData(r - 1);
                }
                proof {
                    assert(self.model() =~~= spec_step(old(self).model(), b));
                }
            },
            Phase::ChunkEndCr => {
                if b == 13 {
                    self.phase = Phase::ChunkEndLf;
                } else {
                    self.phase = Phase::Failed(HttpError::MalformedHeader);
                }
                proof {
                    assert(self.model() =~~= spec_step(old(self).model(), b));
                }
            },
            Phase::ChunkEndLf => {
                if b == 10 {
                    self.phase = Phase::ChunkSize;
                } else {
                    self.phase = Phase::Failed(HttpError::MalformedHeader);
                }
                proof {
                    assert(self.model() =~~= spec_step(old(self).model(), b));
                }
            },
            Phase::UntilClose => {
                self.body.push(b);
                proof {
                    assert(self.model() =~~= spec_step(old(self).model(), b));
                }
            },
            Phase::Complete => {
                proof {
                    assert(self.model() =~~= spec_step(old(self).model(), b));
                }
            },
            Phase::Failed(_) => {
                proof {
                    assert(self.model() =~~= spec_step(old(self).model(), b));
                }
            },
        }
    }

    /// Consume one delivery of bytes from the transport.
    ///
    /// The parser advances exactly as the machine does over these
    /// bytes; buffering is kept across calls, so a field split across
    /// deliveries is reassembled without re-reading anything.
    pub fn feed(&mut self, input: &Vec<u8>)
        ensures
            final(self).model() == spec_feed(old(self).model(), input@),
            final(self).consumed() == old(self).consumed() + input@,
            old(self).wf() ==> final(self).wf(),
    {
        let n = input.len();
        let mut i: usize = 0;
        while i < n
            invariant
                0 <= i <= n,
                n == input@.len(),
                self.model() == spec_feed(old(self).model(), input@.take(i as int)),
                self.consumed == old(self).consumed,
            decreases n - i,
        {
            proof {
                assert(input@.take(i as int + 1).drop_last() =~= input@.take(i as int));
                assert(input@.take(i as int + 1).last() == input@[i as int]);
            }
            self.step_byte(input[i]);
            i += 1;
        }
        proof {
            assert(input@.take(n as int) =~= input@);
        }
        self.consumed = Ghost(self.consumed@ + input@);
        proof {
            if old(self).wf() {
                lemma_feed_splits(init_model(), old(self).consumed@, input@);
            }
        }
    }

    /// Tell the parser the peer closed the connection.
    pub fn close(&mut self)
        ensures
            final(self).model() == spec_close(old(self).model()),
            final(self).consumed() == old(self).consumed(),
    {
        match self.phase {
            Phase::UntilClose => {
                self.phase = Phase::Complete;
            },
            Phase::Complete => {},
            Phase::Failed(_) => {},
            _ => {
                self.phase = Phase::Failed(HttpError::IoError);
            },
        }
        proof {
            assert(self.model() =~= spec_close(old(self).model()));
        }
    }

    /// Whether the response is fully parsed.
    pub fn is_complete(&self) -> (r: bool)
        ensures
            r == (self.model().phase is Complete),
    {
        match self.phase {
            Phase::Complete => true,
            _ => false,
        }
    }

    /// The error parsing failed with, if it failed.
    pub fn error(&self) -> (r: Option<HttpError>)
        ensures
            match self.model().phase {
                Phase::Failed(e) => r == Some(e),
                _ => r is None,
            },
    {
        match self.phase {
            Phase::Failed(e) => Some(e),
            _ => None,
        }
    }

    /// Surrender the parsed response.
    ///
    /// On a well-formed parser the status code is guaranteed to be a
    /// three-digit value in `[100, 599]`.
    pub fn into_response(self) -> (r: Response)
        requires
            self.model().phase is Complete,
        ensures
            r.status_code == self.model().code,
            r.status_text@ == self.model().text,
            pairs_of(r.headers@) == self.model().headers,
            r.body@ == self.model().body,
            self.wf() ==> 100 <= r.status_code <= 599,
    {
        proof {
            lemma_complete_code_in_range(self.consumed@);
        }
        Response {
            status_code: self.code,
            status_text: self.text,
            headers: self.headers,
            body: self.body,
        }
    }
}

/// Feeding a concatenation is feeding its parts one after the other:
/// the machine's outcome depends only on the concatenation of what
/// was fed, never on how the stream was fragmented across reads.
pub proof fn lemma_feed_splits(m: ParserModel, a: Seq<u8>, b: Seq<u8>)
    ensures
        spec_feed(m, a + b) == spec_feed(spec_feed(m, a), b),
    decreases b.len(),
{
    if b.len() == 0 {
        assert(a + b =~= a);
    } else {
        lemma_feed_splits(m, a, b.drop_last());
        assert((a + b).drop_last() =~= a + b.drop_last());
        assert((a + b).last() == b.last());
    }
}

/// The machine run over a stream delivered as a list of reads.
pub open spec fn spec_feed_all(m: ParserModel, chunks: Seq<Seq<u8>>) -> ParserModel
    decreases chunks.len(),
{
    if chunks.len() == 0 {
        m
    } else {
        spec_feed_all(spec_feed(m, chunks.first()), chunks.drop_first())
    }
}

/// However a byte stream is cut into partial reads, feeding the
/// pieces one by one ends in the same state as feeding the whole
/// stream at once.
pub proof fn lemma_feed_fragmentation(m: ParserModel, chunks: Seq<Seq<u8>>)
    ensures
        spec_feed_all(m, chunks) == spec_feed(m, chunks.flatten()),
    decreases chunks.len(),
{
    if chunks.len() == 0 {
        assert(chunks.flatten() =~= Seq::<u8>::empty());
    } else {
        lemma_feed_fragmentation(spec_feed(m, chunks.first()), chunks.drop_first());
        assert(chunks.flatten() == chunks.first() + chunks.drop_first().flatten());
        lemma_feed_splits(m, chunks.first(), chunks.drop_first().flatten());
    }
}

} // verus!
