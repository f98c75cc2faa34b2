//! HTTP request model and the parser from request text.
use vstd::prelude::*;

use crate::text::{
    contains_seq, contains_str, find_char, index_of, lemma_index_of_bound, next_word,
    split_lines, str_eq, strip_cr, words,
};

verus! {

/// Request method; any token other than `GET` or `POST` is `UNINITIALIZED`.
#[derive(PartialEq, Eq, Structural, Debug, Clone, Copy)]
pub enum Method {
    GET,
    POST,
    UNINITIALIZED,
}

/// Protocol version; only `HTTP/1.1` is recognised by the parser.
#[derive(PartialEq, Eq, Structural, Debug, Clone, Copy)]
pub enum Version {
    V1_1,
    V2_0,
    UNINITIALIZED,
}

/// The requested resource: the raw path text of the request line.
#[derive(PartialEq, Debug)]
pub enum Resource {
    Path(String),
}

/// Why request text could not be parsed.
#[derive(PartialEq, Eq, Structural, Debug, Clone, Copy)]
pub enum ParseError {
    /// The request line has fewer than three whitespace-separated tokens.
    MalformedRequestLine,
}

/// A parsed request. `headers` holds each key at most once.
#[derive(PartialEq, Debug)]
pub struct HttpRequest {
    pub method: Method,
    pub version: Version,
    pub resource: Resource,
    pub headers: Vec<(String, String)>,
    pub msg_body: String,
}

/// The abstract content of a request.
pub struct RequestModel {
    pub method: Method,
    pub version: Version,
    pub path: Seq<char>,
    pub headers: Map<Seq<char>, Seq<char>>,
    pub body: Seq<char>,
}

pub open spec fn method_of(s: Seq<char>) -> Method {
    if s == "GET"@ {
        Method::GET
    } else if s == "POST"@ {
        Method::POST
    } else {
        Method::UNINITIALIZED
    }
}

pub open spec fn version_of(s: Seq<char>) -> Version {
    if s == "HTTP/1.1"@ {
        Version::V1_1
    } else {
        Version::UNINITIALIZED
    }
}

/// Header pairs as character sequences.
pub open spec fn pair_views(v: Seq<(String, String)>) -> Seq<(Seq<char>, Seq<char>)> {
    v.map_values(|p: (String, String)| (p.0@, p.1@))
}

/// The mapping that a list of pairs denotes: a later pair overrides an earlier one.
pub open spec fn pairs_to_map(s: Seq<(Seq<char>, Seq<char>)>) -> Map<Seq<char>, Seq<char>>
    decreases s.len(),
{
    if s.len() == 0 {
        Map::empty()
    } else {
        pairs_to_map(s.drop_last()).insert(s.last().0, s.last().1)
    }
}

pub open spec fn keys_unique(s: Seq<(Seq<char>, Seq<char>)>) -> bool {
    forall|i: int, j: int| 0 <= i < j < s.len() ==> #[trigger] s[i].0 != #[trigger] s[j].0
}

impl Resource {
    pub open spec fn path_view(&self) -> Seq<char> {
        match self {
            Resource::Path(p) => p@,
        }
    }
}

impl View for HttpRequest {
    type V = RequestModel;

    open spec fn view(&self) -> RequestModel {
        RequestModel {
            method: self.method,
            version: self.version,
            path: self.resource.path_view(),
            headers: pairs_to_map(pair_views(self.headers@)),
            body: self.msg_body@,
        }
    }
}

/// The state before any line is read.
pub open spec fn initial_request() -> RequestModel {
    RequestModel {
        method: Method::UNINITIALIZED,
        version: Version::V1_1,
        path: Seq::empty(),
        headers: Map::empty(),
        body: Seq::empty(),
    }
}

/// A line that mentions `HTTP` is the request line.
pub open spec fn is_request_line(line: Seq<char>) -> bool {
    contains_seq(line, "HTTP"@)
}

/// Any other line with a colon is a header line.
pub open spec fn is_header_line(line: Seq<char>) -> bool {
    index_of(line, ':') < line.len()
}

/// The effect of one line on the request read so far.
pub open spec fn apply_line(st: RequestModel, line: Seq<char>) -> Result<RequestModel, ParseError> {
    if is_request_line(line) {
        let w = words(line);
        if w.len() < 3 {
            Err(ParseError::MalformedRequestLine)
        } else {
            Ok(
                RequestModel {
                    method: method_of(w[0]),
                    version: version_of(w[2]),
                    path: w[1],
                    headers: st.headers,
                    body: st.body,
                },
            )
        }
    } else if is_header_line(line) {
        let i = index_of(line, ':') as int;
        Ok(
            RequestModel {
                method: st.method,
                version: st.version,
                path: st.path,
                headers: st.headers.insert(line.take(i), line.skip(i + 1)),
                body: st.body,
            },
        )
    } else if line.len() == 0 {
        Ok(st)
    } else {
        Ok(
            RequestModel {
                method: st.method,
                version: st.version,
                path: st.path,
                headers: st.headers,
                body: line,
            },
        )
    }
}

/// The lines applied in order; the first error stops the parse.
pub open spec fn apply_lines(st: RequestModel, ls: Seq<Seq<char>>) -> Result<
    RequestModel,
    ParseError,
>
    decreases ls.len(),
{
    if ls.len() == 0 {
        Ok(st)
    } else {
        match apply_line(st, ls[0]) {
            Ok(next) => apply_lines(next, ls.drop_first()),
            Err(e) => Err(e),
        }
    }
}

/// What request text means.
pub open spec fn parse_request(s: Seq<char>) -> Result<RequestModel, ParseError> {
    apply_lines(initial_request(), split_lines(s))
}

/// A single header line is split at its first colon: the key is the text
/// before it and the value everything after it, neither trimmed.
pub proof fn lemma_header_line_split(line: Seq<char>)
    requires
        index_of(line, '\n') == line.len(),
        !is_request_line(line),
        is_header_line(line),
    ensures
        parse_request(line) == Ok::<RequestModel, ParseError>(
            RequestModel {
                method: Method::UNINITIALIZED,
                version: Version::V1_1,
                path: Seq::empty(),
                headers: map![
                    line.take(index_of(line, ':') as int) => line.skip(index_of(line, ':') + 1 as int)
                ],
                body: Seq::empty(),
            },
        ),
{
    let ls = split_lines(line);
    assert(ls =~= seq![line]);
    assert(ls.drop_first() =~= Seq::<Seq<char>>::empty());
    let i = index_of(line, ':') as int;
    assert(Map::<Seq<char>, Seq<char>>::empty().insert(line.take(i), line.skip(i + 1)) =~= map![
        line.take(i) => line.skip(i + 1)
    ]);
    let next = RequestModel {
        method: Method::UNINITIALIZED,
        version: Version::V1_1,
        path: Seq::empty(),
        headers: map![line.take(i) => line.skip(i + 1)],
        body: Seq::empty(),
    };
    assert(apply_line(initial_request(), line) == Ok::<RequestModel, ParseError>(next));
    assert(apply_lines(next, ls.drop_first()) == Ok::<RequestModel, ParseError>(next));
}

/// Text whose first line is a request line with fewer than three words is
/// refused as malformed, whatever follows.
pub proof fn lemma_malformed_request_line(s: Seq<char>)
    requires
        split_lines(s).len() > 0,
        is_request_line(split_lines(s)[0]),
        words(split_lines(s)[0]).len() < 3,
    ensures
        parse_request(s) == Err::<RequestModel, ParseError>(ParseError::MalformedRequestLine),
{
}

/// Overwriting the value of a key that occurs once is inserting it into the mapping.
pub proof fn lemma_pairs_update(s: Seq<(Seq<char>, Seq<char>)>, idx: int, k: Seq<char>, v: Seq<char>)
    requires
        keys_unique(s),
        0 <= idx < s.len(),
        s[idx].0 == k,
    ensures
        pairs_to_map(s.update(idx, (k, v))) == pairs_to_map(s).insert(k, v),
    decreases s.len(),
{
    let u = s.update(idx, (k, v));
    if idx == s.len() - 1 {
        assert(u.drop_last() =~= s.drop_last());
        assert(pairs_to_map(u) =~= pairs_to_map(s).insert(k, v));
    } else {
        assert(u.drop_last() =~= s.drop_last().update(idx, (k, v)));
        lemma_pairs_update(s.drop_last(), idx, k, v);
        assert(s.last().0 != k);
        assert(pairs_to_map(u) =~= pairs_to_map(s).insert(k, v));
    }
}

impl Method {
    /// The method that a request-line token names.
    pub fn from_token(s: &str) -> (r: Method)
        ensures
            r == method_of(s@),
    {
        if str_eq(s, "GET") {
            Method::GET
        } else if str_eq(s, "POST") {
            Method::POST
        } else {
            Method::UNINITIALIZED
        }
    }
}

impl Version {
    /// The version that a request-line token names.
    pub fn from_token(s: &str) -> (r: Version)
        ensures
            r == version_of(s@),
    {
        if str_eq(s, "HTTP/1.1") {
            Version::V1_1
        } else {
            Version::UNINITIALIZED
        }
    }
}

impl<'a> From<&'a str> for Method {
    fn from(value: &'a str) -> Method {
        Method::from_token(value)
    }
}

impl<'a> vstd::std_specs::convert::FromSpecImpl<&'a str> for Method {
    open spec fn obeys_from_spec() -> bool {
        true
    }

    open spec fn from_spec(v: &'a str) -> Method {
        method_of(v@)
    }
}

impl<'a> From<&'a str> for Version {
    fn from(value: &'a str) -> Version {
        Version::from_token(value)
    }
}

impl<'a> vstd::std_specs::convert::FromSpecImpl<&'a str> for Version {
    open spec fn obeys_from_spec() -> bool {
        true
    }

    open spec fn from_spec(v: &'a str) -> Version {
        version_of(v@)
    }
}

/// Sets `key` to `value`, replacing an earlier value of the same key.
fn insert_header(headers: &mut Vec<(String, String)>, key: String, value: String)
    requires
        keys_unique(pair_views(old(headers)@)),
    ensures
        keys_unique(pair_views(final(headers)@)),
        pairs_to_map(pair_views(final(headers)@)) == pairs_to_map(pair_views(old(headers)@)).insert(
            key@,
            value@,
        ),
{
    let n = headers.len();
    let mut i: usize = 0;
    while i < n
        invariant
            n == headers@.len(),
            i <= n,
            headers@ == old(headers)@,
            keys_unique(pair_views(headers@)),
            forall|j: int| 0 <= j < i ==> headers@[j].0@ != key@,
        decreases n - i,
    {
        if headers[i].0 == key {
            let ghost before = pair_views(headers@);
            let ghost kv = key@;
            let ghost vv = value@;
            headers[i] = (key, value);
            proof {
                let after = pair_views(headers@);
                assert(after =~= before.update(i as int, (kv, vv)));
                lemma_pairs_update(before, i as int, kv, vv);
                assert forall|a: int, b: int| 0 <= a < b < after.len() implies after[a].0
                    != after[b].0 by {
                    assert(before[a].0 != before[b].0);
                }
            }
            return;
        }
        i = i + 1;
    }
    let ghost before = pair_views(headers@);
    headers.push((key, value));
    proof {
        let after = pair_views(headers@);
        assert(after.drop_last() =~= before);
        assert forall|a: int, b: int| 0 <= a < b < after.len() implies after[a].0 != after[b].0 by {
            if b == after.len() - 1 {
                assert(after[a].0 == headers@[a].0@);
            } else {
                assert(before[a].0 != before[b].0);
            }
        }
    }
}

impl HttpRequest {
    /// The abstract content together with the stored form's invariant.
    pub open spec fn well_formed(&self) -> bool {
        keys_unique(pair_views(self.headers@))
    }

    /// Parses request text line by line. A line that mentions `HTTP` is the
    /// request line; one with a colon is a header, split at its first colon,
    /// a later one overriding an earlier one; a blank line is skipped; any other
    /// line becomes the body, so the last such line wins.
    pub fn parse(req: &str) -> (r: Result<HttpRequest, ParseError>)
        ensures
            r is Ok <==> parse_request(req@) is Ok,
            r is Ok ==> r->Ok_0@ == parse_request(req@)->Ok_0 && r->Ok_0.well_formed(),
            r is Err ==> r->Err_0 == parse_request(req@)->Err_0,
    {
        let n = req.unicode_len();
        let mut st = HttpRequest {
            method: Method::UNINITIALIZED,
            version: Version::V1_1,
            resource: Resource::Path(String::new()),
            headers: Vec::new(),
            msg_body: String::new(),
        };
        let mut pos: usize = 0;
        assert(req@.skip(0) =~= req@);
        assert(pairs_to_map(pair_views(st.headers@)) =~= Map::empty());
        assert(st@ == initial_request());
        while pos < n
            invariant
                n == req@.len(),
                pos <= n,
                st.well_formed(),
                parse_request(req@) == apply_lines(st@, split_lines(req@.skip(pos as int))),
            decreases n - pos,
        {
            let j = find_char(req, n, pos, '\n');
            let ghost t = req@.skip(pos as int);
            let ghost ls = split_lines(t);
            let mut e = j;
            if j < n && j > pos && req.get_char(j - 1) == '\r' {
                e = j - 1;
            }
            let line = req.substring_char(pos, e);
            proof {
                lemma_index_of_bound(t, '\n');
                if j < n {
                    assert(line@ =~= strip_cr(t.take(j - pos)));
                    assert(t.skip(j - pos + 1) =~= req@.skip(j + 1));
                } else {
                    assert(line@ =~= t);
                }
                assert(ls[0] == line@);
            }
            let ghost prev = st@;
            let ln = line.unicode_len();
            if contains_str(line, "HTTP") {
                let (a0, a1) = next_word(line, ln, 0);
                let (b0, b1) = next_word(line, ln, a1);
                let (c0, c1) = next_word(line, ln, b1);
                proof {
                    assert(line@.skip(0) =~= line@);
                }
                if c0 == ln {
                    proof {
                        assert(words(line@).len() < 3);
                    }
                    return Err(ParseError::MalformedRequestLine);
                }
                st.method = Method::from_token(line.substring_char(a0, a1));
                st.resource = Resource::Path(String::from_str(line.substring_char(b0, b1)));
                st.version = Version::from_token(line.substring_char(c0, c1));
            } else {
                let i = find_char(line, ln, 0, ':');
                proof {
                    assert(line@.skip(0) =~= line@);
                }
                if i < ln {
                    let key = String::from_str(line.substring_char(0, i));
                    let value = String::from_str(line.substring_char(i + 1, ln));
                    proof {
                        assert(key@ =~= line@.take(i as int));
                        assert(value@ =~= line@.skip(i + 1));
                    }
                    insert_header(&mut st.headers, key, value);
                } else if ln > 0 {
                    st.msg_body = String::from_str(line);
                }
            }
            proof {
                assert(apply_line(prev, line@) == Ok::<RequestModel, ParseError>(st@));
            }
            if j < n {
                pos = j + 1;
            } else {
                pos = n;
                assert(req@.skip(n as int) =~= Seq::<char>::empty());
            }
            proof {
                assert(ls.drop_first() =~= split_lines(req@.skip(pos as int)));
            }
        }
        Ok(st)
    }
}

} // verus!
