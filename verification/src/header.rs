//! HTTP headers: a name/value pair with a strict wire-format parser.

use vstd::prelude::*;

verus! {

use crate::error::HttpError;
use crate::text::spec_eq_ci;
use crate::text::eq_ignore_case;
use vstd::string::StringExecFns;
use vstd::string::StrSliceExecFns;

/// An HTTP header: a name together with a value.
///
/// A header is created per parsed wire line or per caller-supplied
/// pair and is immutable once constructed. The value may be empty.
#[derive(Debug, Clone)]
pub struct Header {
    /// The name of the header.
    pub name: String,
    /// The value of the header.
    pub value: String,
}

/// Whether `s` holds a `:` anywhere.
pub open spec fn contains_colon(s: Seq<char>) -> bool {
    exists|i: int| 0 <= i < s.len() && s[i] == ':'
}

/// Whether the two-character separator `": "` stands at index `i` of `s`.
pub open spec fn is_sep_at(s: Seq<char>, i: int) -> bool {
    0 <= i && i + 2 <= s.len() && s[i] == ':' && s[i + 1] == ' '
}

/// Whether `s` holds the separator `": "` anywhere.
pub open spec fn has_sep(s: Seq<char>) -> bool {
    exists|i: int| is_sep_at(s, i)
}

/// The index of the first `": "` in `s`; meaningful only when `has_sep(s)`.
pub open spec fn first_sep(s: Seq<char>) -> int {
    choose|i: int| is_sep_at(s, i) && (forall|j: int| 0 <= j < i ==> !is_sep_at(s, j))
}

/// What parsing a header line yields: `None` when the line holds no
/// `:` at all; otherwise the name before the first `": "` and the
/// value after it, the value empty when no `": "` occurs.
pub open spec fn spec_parse_header(s: Seq<char>) -> Option<(Seq<char>, Seq<char>)> {
    if !contains_colon(s) {
        None
    } else if has_sep(s) {
        Some((s.take(first_sep(s)), s.skip(first_sep(s) + 2)))
    } else {
        Some((s, Seq::<char>::empty()))
    }
}

/// The exact wire line a header serializes to.
pub open spec fn spec_serialize_header(name: Seq<char>, value: Seq<char>) -> Seq<char> {
    name + ": "@ + value + "\r\n"@
}

/// A first `": "` index is unique: a witness that is a separator with
/// no separator before it is what `first_sep` picks.
proof fn lemma_first_sep_is(s: Seq<char>, i: int)
    requires
        is_sep_at(s, i),
        forall|j: int| 0 <= j < i ==> !is_sep_at(s, j),
    ensures
        has_sep(s),
        first_sep(s) == i,
{
    assert(has_sep(s));
    let k = first_sep(s);
    assert(is_sep_at(s, k) && (forall|j: int| 0 <= j < k ==> !is_sep_at(s, j))) by {
        assert(is_sep_at(s, i) && (forall|j: int| 0 <= j < i ==> !is_sep_at(s, j)));
    }
    if k < i {
        assert(!is_sep_at(s, k));
    }
    if i < k {
        assert(!is_sep_at(s, i));
    }
}

impl Header {
    /// The pair of character sequences this header stands for.
    pub open spec fn model(&self) -> (Seq<char>, Seq<char>) {
        (self.name@, self.value@)
    }

    /// Parse one raw wire line into a [`Header`].
    ///
    /// Fails with [`HttpError::MalformedHeader`] when no `:` appears
    /// anywhere in the line. Otherwise the line is split on the first
    /// occurrence of the literal separator `": "`: the name is what
    /// stands before it and the value what stands after it, intact
    /// even when it holds further colons. When no `": "` occurs the
    /// value is the empty string. No whitespace is trimmed beyond the
    /// one mandated separator.
    pub fn parse(line: &str) -> (r: Result<Header, HttpError>)
        ensures
            r is Ok <==> contains_colon(line@),
            r matches Err(e) ==> e == HttpError::MalformedHeader,
            r matches Ok(h) ==> Some(h.model()) == spec_parse_header(line@),
    {
        let n = line.unicode_len();
        let mut colon = false;
        let mut sep: Option<usize> = None;
        let mut i: usize = 0;
        while i < n
            invariant
                n == line@.len(),
                0 <= i <= n,
                colon <==> (exists|j: int| 0 <= j < i && line@[j] == ':'),
                match sep {
                    Some(k) => is_sep_at(line@, k as int) && (forall|j: int|
                        0 <= j < k ==> !is_sep_at(line@, j)) && k < i,
                    None => forall|j: int| 0 <= j < i ==> !is_sep_at(line@, j),
                },
            decreases n - i,
        {
            let c = line.get_char(i);
            if c == ':' {
                colon = true;
                if sep.is_none() && i + 1 < n && line.get_char(i + 1) == ' ' {
                    sep = Some(i);
                }
            }
            i += 1;
        }
        if !colon {
            return Err(HttpError::MalformedHeader);
        }
        match sep {
            None => {
                proof {
                    assert(forall|j: int| 0 <= j < line@.len() ==> !is_sep_at(line@, j));
                    assert(!has_sep(line@));
                }
                Ok(Header { name: line.to_owned(), value: String::new() })
            },
            Some(k) => {
                proof {
                    lemma_first_sep_is(line@, k as int);
                }
                let name = line.substring_char(0, k).to_owned();
                let value = line.substring_char(k + 2, n).to_owned();
                proof {
                    assert(name@ =~= line@.take(k as int));
                    assert(value@ =~= line@.skip(k as int + 2));
                }
                Ok(Header { name, value })
            },
        }
    }

    /// Emit the exact wire line `"{name}: {value}\r\n"`.
    ///
    /// No escaping is applied: callers are responsible for supplying
    /// wire-safe names and values, and embedded line breaks are passed
    /// through unchanged rather than silently sanitized.
    pub fn serialize(&self) -> (r: String)
        ensures
            r@ == spec_serialize_header(self.name@, self.value@),
    {
        let mut out = self.name.clone();
        out.append(": ");
        out.append(self.value.as_str());
        out.append("\r\n");
        out
    }
}

/// Whether some header in `hs` carries this name, compared up to
/// ASCII case.
pub open spec fn spec_has_header(hs: Seq<Header>, name: Seq<char>) -> bool {
    exists|i: int| 0 <= i < hs.len() && spec_eq_ci(hs[i].name@, name)
}

/// The index of the first header in `hs` with this name; meaningful
/// only when `spec_has_header(hs, name)`.
pub open spec fn first_header(hs: Seq<Header>, name: Seq<char>) -> int {
    choose|i: int|
        0 <= i < hs.len() && spec_eq_ci(hs[i].name@, name) && (forall|j: int|
            0 <= j < i ==> !spec_eq_ci(hs[j].name@, name))
}

/// The value of the first header in `hs` with this name, if any:
/// lookup is first-match-wins in insertion order.
pub open spec fn spec_find_header(hs: Seq<Header>, name: Seq<char>) -> Option<Seq<char>> {
    if spec_has_header(hs, name) {
        Some(hs[first_header(hs, name)].value@)
    } else {
        None
    }
}

/// A first matching index is unique: a witness match with no match
/// before it is what `first_header` picks.
pub proof fn lemma_first_header_is(hs: Seq<Header>, name: Seq<char>, i: int)
    requires
        0 <= i < hs.len(),
        spec_eq_ci(hs[i].name@, name),
        forall|j: int| 0 <= j < i ==> !spec_eq_ci(hs[j].name@, name),
    ensures
        spec_has_header(hs, name),
        first_header(hs, name) == i,
{
    assert(spec_has_header(hs, name));
    let k = first_header(hs, name);
    assert(0 <= k < hs.len() && spec_eq_ci(hs[k].name@, name) && (forall|j: int|
        0 <= j < k ==> !spec_eq_ci(hs[j].name@, name))) by {
        assert(0 <= i < hs.len() && spec_eq_ci(hs[i].name@, name) && (forall|j: int|
            0 <= j < i ==> !spec_eq_ci(hs[j].name@, name)));
    }
    if k < i {
        assert(!spec_eq_ci(hs[k].name@, name));
    }
    if i < k {
        assert(!spec_eq_ci(hs[i].name@, name));
    }
}

/// Below any match stands a first match.
proof fn lemma_first_match_below(hs: Seq<Header>, name: Seq<char>, k: int)
    requires
        0 <= k < hs.len(),
        spec_eq_ci(hs[k].name@, name),
    ensures
        exists|i: int|
            0 <= i <= k && spec_eq_ci(hs[i].name@, name) && (forall|j: int|
                0 <= j < i ==> !spec_eq_ci(hs[j].name@, name)),
    decreases k,
{
    if forall|j: int| 0 <= j < k ==> !spec_eq_ci(hs[j].name@, name) {
        assert(0 <= k <= k && spec_eq_ci(hs[k].name@, name) && (forall|j: int|
            0 <= j < k ==> !spec_eq_ci(hs[j].name@, name)));
    } else {
        let j = choose|j: int| 0 <= j < k && spec_eq_ci(hs[j].name@, name);
        lemma_first_match_below(hs, name, j);
    }
}

/// When some header matches, `first_header` names the first match.
pub proof fn lemma_first_header_props(hs: Seq<Header>, name: Seq<char>)
    requires
        spec_has_header(hs, name),
    ensures
        0 <= first_header(hs, name) < hs.len(),
        spec_eq_ci(hs[first_header(hs, name)].name@, name),
        forall|j: int| 0 <= j < first_header(hs, name) ==> !spec_eq_ci(hs[j].name@, name),
{
    let w = choose|i: int| 0 <= i < hs.len() && spec_eq_ci(hs[i].name@, name);
    lemma_first_match_below(hs, name, w);
    let i0 = choose|i: int|
        0 <= i <= w && spec_eq_ci(hs[i].name@, name) && (forall|j: int|
            0 <= j < i ==> !spec_eq_ci(hs[j].name@, name));
    lemma_first_header_is(hs, name, i0);
}

/// Whether the list holds a header of this name, up to ASCII case.
pub fn has_header(headers: &Vec<Header>, name: &str) -> (r: bool)
    ensures
        r == spec_has_header(headers@, name@),
{
    let n = headers.len();
    let mut i: usize = 0;
    while i < n
        invariant
            n == headers@.len(),
            0 <= i <= n,
            forall|j: int| 0 <= j < i ==> !spec_eq_ci(headers@[j].name@, name@),
        decreases n - i,
    {
        if eq_ignore_case(headers[i].name.as_str(), name) {
            return true;
        }
        i += 1;
    }
    false
}

/// The value of the first header of this name, up to ASCII case, if
/// the list holds one.
pub fn find_header(headers: &Vec<Header>, name: &str) -> (r: Option<String>)
    ensures
        r is Some <==> spec_has_header(headers@, name@),
        r matches Some(v) ==> Some(v@) == spec_find_header(headers@, name@),
{
    let n = headers.len();
    let mut i: usize = 0;
    while i < n
        invariant
            n == headers@.len(),
            0 <= i <= n,
            forall|j: int| 0 <= j < i ==> !spec_eq_ci(headers@[j].name@, name@),
        decreases n - i,
    {
        if eq_ignore_case(headers[i].name.as_str(), name) {
            proof {
                lemma_first_header_is(headers@, name@, i as int);
            }
            return Some(headers[i].value.clone());
        }
        i += 1;
    }
    None
}

/// Parsing inverts serialization: any line assembled as
/// `name + ": " + value` with a colon-free name parses back to exactly
/// that name and that value, and serializing the parsed header yields
/// the line again with its `"\r\n"` terminator appended.
pub proof fn lemma_header_round_trip(name: Seq<char>, value: Seq<char>)
    requires
        !contains_colon(name),
    ensures
        spec_parse_header(name + ": "@ + value) == Some((name, value)),
        spec_serialize_header(name, value) == (name + ": "@ + value) + "\r\n"@,
{
    reveal_strlit(": ");
    let s = name + ": "@ + value;
    let n = name.len() as int;
    assert(s[n] == ':');
    assert(s[n + 1] == ' ');
    assert(is_sep_at(s, n));
    assert(contains_colon(s));
    assert forall|j: int| 0 <= j < n implies !is_sep_at(s, j) by {
        if is_sep_at(s, j) {
            assert(s[j] == ':');
            if j < n {
                assert(s[j] == name[j]);
                assert(contains_colon(name));
            }
        }
    }
    lemma_first_sep_is(s, n);
    assert(s.take(n) =~= name);
    assert(s.skip(n + 2) =~= value);
    assert(spec_serialize_header(name, value) =~= (name + ": "@ + value) + "\r\n"@);
}

} // verus!
