//! A plain-value URL model: scheme, host, optional port, path, query.

use vstd::prelude::*;

verus! {

use crate::text::all_digits;
use crate::text::dec_val;
use crate::text::parse_dec;
use crate::text::spec_eq_ci;
use crate::text::eq_ignore_case;
use vstd::string::StringExecFns;
use vstd::string::StrSliceExecFns;

/// The mathematical shape of a URL.
pub struct UrlModel {
    /// The scheme, without the `"://"` separator.
    pub scheme: Seq<char>,
    /// The host part of the authority.
    pub host: Seq<char>,
    /// An explicit port, when one stands in the authority.
    pub port: Option<u16>,
    /// The path, with its leading `'/'`; empty when the URL has none.
    pub path: Seq<char>,
    /// The query, without the `'?'`; empty when the URL has none.
    pub query: Seq<char>,
}

/// A URL held as plain values.
#[derive(Debug, Clone)]
pub struct Url {
    /// The scheme, such as `"http"`.
    pub scheme: String,
    /// The host the request is addressed to.
    pub host: String,
    /// An explicit port, when the URL names one.
    pub port: Option<u16>,
    /// The path, with its leading `'/'`; empty when the URL has none.
    pub path: String,
    /// The query, without the `'?'`; empty when the URL has none.
    pub query: String,
}

/// The first index at or after `from` where `c` stands in `s`, or
/// `s.len()` when there is none.
pub open spec fn find_char_from(s: Seq<char>, c: char, from: nat) -> int
    decreases s.len() - from,
{
    if from >= s.len() {
        s.len() as int
    } else if s[from as int] == c {
        from as int
    } else {
        find_char_from(s, c, (from + 1) as nat)
    }
}

/// What `find_char_from` returns: an index in `[from, s.len()]`, a
/// hit when it is short of the end, and no hit before it.
pub proof fn lemma_find_char_from(s: Seq<char>, c: char, from: nat)
    requires
        from <= s.len(),
    ensures
        from <= find_char_from(s, c, from) <= s.len(),
        find_char_from(s, c, from) < s.len() ==> s[find_char_from(s, c, from)] == c,
        forall|j: int| from <= j < find_char_from(s, c, from) ==> s[j] != c,
    decreases s.len() - from,
{
    if from < s.len() && s[from as int] != c {
        lemma_find_char_from(s, c, (from + 1) as nat);
    }
}

/// Find the first `c` in `s` at or after `from`.
pub fn find_char(s: &str, c: char, from: usize) -> (r: usize)
    requires
        from <= s@.len(),
    ensures
        r == find_char_from(s@, c, from as nat),
{
    let n = s.unicode_len();
    let mut i: usize = from;
    while i < n
        invariant
            from <= i <= n,
            n == s@.len(),
            find_char_from(s@, c, from as nat) == find_char_from(s@, c, i as nat),
        decreases n - i,
    {
        if s.get_char(i) == c {
            return i;
        }
        i += 1;
    }
    n
}

impl Url {
    /// The model this URL stands for.
    pub open spec fn model(&self) -> UrlModel {
        UrlModel {
            scheme: self.scheme@,
            host: self.host@,
            port: self.port,
            path: self.path@,
            query: self.query@,
        }
    }

    /// Parse an absolute URL of the shape
    /// `scheme "://" host [":" port] [path] ["?" query]`.
    ///
    /// The scheme and the host must be non-empty; a named port must be
    /// a decimal numeral no larger than 65535. Anything else yields
    /// `None`.
    pub fn parse(s: &str) -> (r: Option<Url>)
        ensures
            r is Some <==> spec_parse_url(s@) is Some,
            r matches Some(u) ==> Some(u.model()) == spec_parse_url(s@),
    {
        let n = s.unicode_len();
        let ci = find_char(s, ':', 0);
        proof {
            lemma_find_char_from(s@, ':', 0);
        }
        if ci == n || ci == 0 {
            return None;
        }
        if n - ci < 3 {
            return None;
        }
        if s.get_char(ci + 1) != '/' || s.get_char(ci + 2) != '/' {
            return None;
        }
        let scheme = s.substring_char(0, ci).to_owned();
        let a0 = ci + 3;
        let slash = find_char(s, '/', a0);
        let qm = find_char(s, '?', a0);
        proof {
            lemma_find_char_from(s@, '/', a0 as nat);
            lemma_find_char_from(s@, '?', a0 as nat);
        }
        let aend = if qm < slash {
            qm
        } else {
            slash
        };
        let auth = s.substring_char(a0, aend);
        let an = auth.unicode_len();
        let pi = find_char(auth, ':', 0);
        proof {
            lemma_find_char_from(auth@, ':', 0);
        }
        if pi == 0 {
            return None;
        }
        let host = auth.substring_char(0, pi).to_owned();
        let ghost port_digits = auth@.skip(pi as int + 1);
        let port: Option<u16> = if pi == an {
            None
        } else {
            let digits = auth.substring_char(pi + 1, an);
            proof {
                assert(digits@ =~= port_digits);
            }
            match parse_dec(digits) {
                Some(v) => {
                    if v <= 65535 {
                        Some(v as u16)
                    } else {
                        return None;
                    }
                },
                None => {
                    return None;
                },
            }
        };
        let path: String;
        let query: String;
        proof {
            lemma_find_char_from(s@, '?', aend as nat);
        }
        if aend == n {
            path = String::new();
            query = String::new();
        } else if s.get_char(aend) == '?' {
            path = String::new();
            query = s.substring_char(aend + 1, n).to_owned();
            proof {
                assert(query@ =~= s@.skip(aend as int + 1));
            }
        } else {
            let q2 = find_char(s, '?', aend);
            path = s.substring_char(aend, q2).to_owned();
            if q2 == n {
                query = String::new();
            } else {
                query = s.substring_char(q2 + 1, n).to_owned();
                proof {
                    assert(query@ =~= s@.skip(q2 as int + 1));
                }
            }
        }
        let u = Url { scheme, host, port, path, query };
        proof {
            assert(u.scheme@ =~= s@.take(ci as int));
            assert(u.host@ =~= auth@.take(pi as int));
            assert(Some(u.model()) == spec_parse_url(s@));
        }
        Some(u)
    }

    /// The port to connect to: the explicit one when named, else 443
    /// for `https` (compared up to case), else 80.
    pub fn port_or_default(&self) -> (r: u16)
        ensures
            r == spec_port_or_default(self.model()),
    {
        match self.port {
            Some(p) => p,
            None => {
                if eq_ignore_case(self.scheme.as_str(), "https") {
                    443
                } else {
                    80
                }
            },
        }
    }
}

/// The port a model connects to when none is named.
pub open spec fn spec_port_or_default(u: UrlModel) -> u16 {
    match u.port {
        Some(p) => p,
        None => if spec_eq_ci(u.scheme, "https"@) {
            443
        } else {
            80
        },
    }
}

/// What parsing a URL yields, or `None` when the text is not an
/// absolute URL of the supported shape.
pub open spec fn spec_parse_url(s: Seq<char>) -> Option<UrlModel> {
    let n = s.len() as int;
    let ci = find_char_from(s, ':', 0);
    if ci == n || ci == 0 {
        None
    } else if !(ci + 3 <= n && s[ci + 1] == '/' && s[ci + 2] == '/') {
        None
    } else {
        let a0 = ci + 3;
        let slash = find_char_from(s, '/', a0 as nat);
        let qm = find_char_from(s, '?', a0 as nat);
        let aend = if qm < slash {
            qm
        } else {
            slash
        };
        let auth = s.subrange(a0, aend);
        let pi = find_char_from(auth, ':', 0);
        if pi == 0 {
            None
        } else if pi != auth.len() && !(auth.skip(pi + 1).len() > 0 && all_digits(
            auth.skip(pi + 1),
        ) && dec_val(auth.skip(pi + 1)) <= 65535) {
            None
        } else {
            let port = if pi == auth.len() {
                None
            } else {
                Some(dec_val(auth.skip(pi + 1)) as u16)
            };
            let path = if aend == n || s[aend] == '?' {
                Seq::<char>::empty()
            } else {
                s.subrange(aend, find_char_from(s, '?', aend as nat))
            };
            let query = if aend == n {
                Seq::<char>::empty()
            } else if s[aend] == '?' {
                s.skip(aend + 1)
            } else if find_char_from(s, '?', aend as nat) == n {
                Seq::<char>::empty()
            } else {
                s.skip(find_char_from(s, '?', aend as nat) + 1)
            };
            Some(
                UrlModel {
                    scheme: s.take(ci),
                    host: auth.take(pi),
                    port,
                    path,
                    query,
                },
            )
        }
    }
}

} // verus!
