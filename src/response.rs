//! HTTP response: construction from a status code, and its wire form.
use vstd::prelude::*;
use vstd::utf8::encode_utf8;

use crate::request::{keys_unique, pair_views};
use crate::text::{
    decimal, decimal_string, index_of, lemma_index_of_is, split_lines, str_eq,
};

verus! {

/// A response. `status_text` always follows from `status_code`.
#[derive(PartialEq, Debug)]
pub struct HttpResponse {
    version: String,
    status_code: String,
    status_text: String,
    headers: Option<Vec<(String, String)>>,
    body: Option<String>,
}

/// The abstract content of a response.
pub struct ResponseModel {
    pub version: Seq<char>,
    pub status_code: Seq<char>,
    pub status_text: Seq<char>,
    pub headers: Option<Seq<(Seq<char>, Seq<char>)>>,
    pub body: Option<Seq<char>>,
}

/// The reason phrase of a status code; an unknown code reads "Not Found".
pub open spec fn status_text_of(code: Seq<char>) -> Seq<char> {
    if code == "200"@ {
        "OK"@
    } else if code == "400"@ {
        "Bad Request"@
    } else if code == "404"@ {
        "Not Found"@
    } else if code == "500"@ {
        "Internal Server Error"@
    } else {
        "Not Found"@
    }
}

/// The headers that a response gets when none are given.
pub open spec fn default_headers() -> Seq<(Seq<char>, Seq<char>)> {
    seq![("Content-Type"@, "text/html"@)]
}

/// One `key: value` line per header, in order.
pub open spec fn header_lines(hs: Seq<(Seq<char>, Seq<char>)>) -> Seq<char>
    decreases hs.len(),
{
    if hs.len() == 0 {
        Seq::empty()
    } else {
        header_lines(hs.drop_last()) + hs.last().0 + ": "@ + hs.last().1 + "\r\n"@
    }
}

/// The body's length in UTF-8 bytes, as `str::len` reports it.
pub open spec fn content_length(body: Seq<char>) -> usize {
    encode_utf8(body).len() as usize
}

/// The wire form: status line, header lines, `Content-Length`, blank line, body.
pub open spec fn wire(m: ResponseModel) -> Seq<char> {
    let body = match m.body {
        Some(b) => b,
        None => Seq::empty(),
    };
    let headers = match m.headers {
        Some(h) => header_lines(h),
        None => Seq::empty(),
    };
    m.version + " "@ + m.status_code + " "@ + m.status_text + "\r\n"@ + headers
        + "Content-Length: "@ + decimal(content_length(body) as nat) + "\r\n\r\n"@ + body
}

/// Serializing depends on the response's content alone: the same response,
/// or any with equal content, always yields the same characters, and so the
/// same bytes from `send_response`.
pub proof fn lemma_wire_deterministic(a: &HttpResponse, b: &HttpResponse)
    requires
        a@ == b@,
    ensures
        wire(a@) == wire(b@),
        encode_utf8(wire(a@)) == encode_utf8(wire(b@)),
{
}

/// One header line as it is written.
pub open spec fn header_line(p: (Seq<char>, Seq<char>)) -> Seq<char> {
    p.0 + ": "@ + p.1 + "\r\n"@
}

/// A header line read back: the key before its first colon, the value after
/// the colon and the one space that follows it.
pub open spec fn read_header(line: Seq<char>) -> (Seq<char>, Seq<char>) {
    let i = index_of(line, ':') as int;
    (line.take(i), line.skip(i + 2))
}

/// Headers that can be written on lines and read back: no key holds a
/// colon, and no key or value holds a line feed.
pub open spec fn writable_headers(hs: Seq<(Seq<char>, Seq<char>)>) -> bool {
    &&& forall|i: int, j: int|
        0 <= i < hs.len() && 0 <= j < hs[i].0.len() ==> #[trigger] hs[i].0[j] != ':' && hs[i].0[j]
            != '\n'
    &&& forall|i: int, j: int|
        0 <= i < hs.len() && 0 <= j < hs[i].1.len() ==> #[trigger] hs[i].1[j] != '\n'
}

proof fn lemma_header_lines_front(hs: Seq<(Seq<char>, Seq<char>)>)
    requires
        hs.len() > 0,
    ensures
        header_lines(hs) == header_line(hs[0]) + header_lines(hs.drop_first()),
    decreases hs.len(),
{
    if hs.len() == 1 {
        assert(hs.drop_last() =~= Seq::<(Seq<char>, Seq<char>)>::empty());
        assert(hs.drop_first() =~= Seq::<(Seq<char>, Seq<char>)>::empty());
        assert(header_lines(hs) =~= header_line(hs[0]));
        assert(header_lines(hs) =~= header_line(hs[0]) + Seq::<char>::empty());
    } else {
        lemma_header_lines_front(hs.drop_last());
        assert(hs.drop_first().drop_last() =~= hs.drop_last().drop_first());
        assert(hs.drop_first().last() == hs.last());
        let a = header_line(hs[0]);
        let m = header_lines(hs.drop_last().drop_first());
        let z = header_line(hs.last());
        assert(header_lines(hs) =~= a + m + z);
        assert(header_lines(hs.drop_first()) =~= m + z);
        assert(a + m + z =~= a + (m + z));
    }
}

/// Reading a header block back, line by line and each line at its first
/// colon, gives exactly the headers it was written from, in their order; so
/// the mapping a response sends is the one it holds.
pub proof fn lemma_headers_read_back(hs: Seq<(Seq<char>, Seq<char>)>)
    requires
        writable_headers(hs),
    ensures
        split_lines(header_lines(hs)).map_values(|l: Seq<char>| read_header(l)) == hs,
    decreases hs.len(),
{
    reveal_strlit(": ");
    reveal_strlit("\r\n");
    if hs.len() == 0 {
        assert(header_lines(hs) =~= Seq::<char>::empty());
        assert(split_lines(header_lines(hs)).map_values(|l: Seq<char>| read_header(l)) =~= hs);
    } else {
        let rest_hs = hs.drop_first();
        assert(writable_headers(rest_hs)) by {
            assert forall|i: int, j: int|
                0 <= i < rest_hs.len() && 0 <= j < rest_hs[i].0.len() implies #[trigger] rest_hs[i].0[j]
                != ':' && rest_hs[i].0[j] != '\n' by {
                assert(rest_hs[i] == hs[i + 1]);
                assert(hs[i + 1].0[j] != ':');
            }
            assert forall|i: int, j: int|
                0 <= i < rest_hs.len() && 0 <= j < rest_hs[i].1.len() implies #[trigger] rest_hs[i].1[j]
                != '\n' by {
                assert(rest_hs[i] == hs[i + 1]);
                assert(hs[i + 1].1[j] != '\n');
            }
        }
        lemma_headers_read_back(rest_hs);
        lemma_header_lines_front(hs);
        let k = hs[0].0;
        let v = hs[0].1;
        let body = k + ": "@ + v;
        let rest = header_lines(rest_hs);
        let t = header_lines(hs);
        assert(t =~= body + "\r"@ + "\n"@ + rest) by {
            assert("\r\n"@ =~= "\r"@ + "\n"@) by {
                reveal_strlit("\r");
                reveal_strlit("\n");
            }
        }
        reveal_strlit("\r");
        reveal_strlit("\n");
        let idx: int = body.len() + 1 as int;
        assert forall|i: int| 0 <= i < idx implies t[i] != '\n' by {
            if i < k.len() {
                assert(t[i] == k[i]);
                assert(hs[0].0[i] != '\n');
            } else if i < k.len() + 2 {
            } else if i < body.len() {
                assert(t[i] == v[i - k.len() - 2]);
                assert(hs[0].1[i - k.len() - 2] != '\n');
            }
        }
        lemma_index_of_is(t, '\n', idx);
        assert(t.take(idx) =~= body + "\r"@);
        assert((body + "\r"@).drop_last() =~= body);
        assert(t.skip(idx + 1) =~= rest);
        let ls = split_lines(t);
        assert(ls =~= seq![body] + split_lines(rest));
        assert forall|i: int| 0 <= i < k.len() implies body[i] != ':' by {
            assert(body[i] == k[i]);
            assert(hs[0].0[i] != ':');
        }
        lemma_index_of_is(body, ':', k.len() as int);
        assert(body.take(k.len() as int) =~= k);
        assert(body.skip(k.len() + 2 as int) =~= v);
        let f = |l: Seq<char>| read_header(l);
        assert(ls.map_values(f) =~= seq![read_header(body)] + split_lines(rest).map_values(f));
        assert(ls.map_values(f) =~= hs);
    }
}

/// The response that `HttpResponse::new` builds.
pub open spec fn built(
    code: Seq<char>,
    headers: Option<Seq<(Seq<char>, Seq<char>)>>,
    body: Option<Seq<char>>,
) -> ResponseModel {
    ResponseModel {
        version: "HTTP/1.1"@,
        status_code: code,
        status_text: status_text_of(code),
        headers: match headers {
            Some(h) => Some(h),
            None => Some(default_headers()),
        },
        body: body,
    }
}

pub open spec fn opt_view(o: Option<String>) -> Option<Seq<char>> {
    match o {
        Some(s) => Some(s@),
        None => None,
    }
}

pub open spec fn opt_pairs(o: Option<Vec<(String, String)>>) -> Option<Seq<(Seq<char>, Seq<char>)>> {
    match o {
        Some(h) => Some(pair_views(h@)),
        None => None,
    }
}

impl View for HttpResponse {
    type V = ResponseModel;

    closed spec fn view(&self) -> ResponseModel {
        ResponseModel {
            version: self.version@,
            status_code: self.status_code@,
            status_text: self.status_text@,
            headers: opt_pairs(self.headers),
            body: opt_view(self.body),
        }
    }
}

/// The reason phrase of `code`.
fn status_text_for(code: &str) -> (r: &'static str)
    ensures
        r@ == status_text_of(code@),
{
    if str_eq(code, "200") {
        "OK"
    } else if str_eq(code, "400") {
        "Bad Request"
    } else if str_eq(code, "404") {
        "Not Found"
    } else if str_eq(code, "500") {
        "Internal Server Error"
    } else {
        "Not Found"
    }
}

impl Default for HttpResponse {
    fn default() -> (r: HttpResponse)
        ensures
            r@ == (ResponseModel {
                version: "HTTP/1.1"@,
                status_code: "200"@,
                status_text: "OK"@,
                headers: None,
                body: None,
            }),
    {
        HttpResponse {
            version: String::from_str("HTTP/1.1"),
            status_code: String::from_str("200"),
            status_text: String::from_str("OK"),
            headers: None,
            body: None,
        }
    }
}

impl HttpResponse {
    /// A header list, when present, names each key once.
    pub open spec fn well_formed(&self) -> bool {
        match self@.headers {
            Some(h) => keys_unique(h),
            None => true,
        }
    }

    /// The status text is looked up from `status_code`. Without `headers`
    /// the response carries `Content-Type: text/html`; an empty list given
    /// explicitly stays empty.
    pub fn new(status_code: &str, headers: Option<Vec<(String, String)>>, body: Option<String>) -> (r:
        HttpResponse)
        requires
            headers is Some ==> keys_unique(pair_views(headers->Some_0@)),
        ensures
            r@ == built(status_code@, opt_pairs(headers), opt_view(body)),
            r.well_formed(),
    {
        let headers = match headers {
            Some(h) => Some(h),
            None => {
                let mut h: Vec<(String, String)> = Vec::new();
                h.push((String::from_str("Content-Type"), String::from_str("text/html")));
                proof {
                    assert(pair_views(h@) =~= default_headers());
                }
                Some(h)
            },
        };
        HttpResponse {
            version: String::from_str("HTTP/1.1"),
            status_code: String::from_str(status_code),
            status_text: String::from_str(status_text_for(status_code)),
            headers,
            body,
        }
    }

    /// One `key: value` line per header, in list order; empty without headers.
    pub fn headers_text(&self) -> (r: String)
        ensures
            r@ == match self@.headers {
                Some(h) => header_lines(h),
                None => Seq::<char>::empty(),
            },
    {
        let mut s = String::new();
        match &self.headers {
            Some(hs) => {
                let n = hs.len();
                let mut i: usize = 0;
                assert(pair_views(hs@).take(0) =~= Seq::<(Seq<char>, Seq<char>)>::empty());
                while i < n
                    invariant
                        n == hs@.len(),
                        i <= n,
                        s@ == header_lines(pair_views(hs@).take(i as int)),
                    decreases n - i,
                {
                    s.append(hs[i].0.as_str());
                    s.append(": ");
                    s.append(hs[i].1.as_str());
                    s.append("\r\n");
                    proof {
                        let t = pair_views(hs@).take(i + 1);
                        assert(t.drop_last() =~= pair_views(hs@).take(i as int));
                        assert(s@ =~= header_lines(t));
                    }
                    i = i + 1;
                }
                assert(pair_views(hs@).take(n as int) =~= pair_views(hs@));
            },
            None => {},
        }
        s
    }

    /// The serialized response, in the order the header list holds.
    pub fn to_string(&self) -> (r: String)
        ensures
            r@ == wire(self@),
    {
        let mut s = String::from_str(self.version.as_str());
        s.append(" ");
        s.append(self.status_code.as_str());
        s.append(" ");
        s.append(self.status_text.as_str());
        s.append("\r\n");
        let lines = self.headers_text();
        s.append(lines.as_str());
        let body = self.body();
        s.append("Content-Length: ");
        let len_text = decimal_string(body.len());
        s.append(len_text.as_str());
        s.append("\r\n\r\n");
        s.append(body);
        s
    }

    /// The bytes to write to the connection: the UTF-8 encoding of the wire form.
    pub fn send_response(&self) -> (r: Vec<u8>)
        ensures
            r@ == encode_utf8(wire(self@)),
    {
        let s = self.to_string();
        s.as_str().as_bytes_vec()
    }

    pub fn version(&self) -> (r: &str)
        ensures
            r@ == self@.version,
    {
        self.version.as_str()
    }

    pub fn status_code(&self) -> (r: &str)
        ensures
            r@ == self@.status_code,
    {
        self.status_code.as_str()
    }

    pub fn status_text(&self) -> (r: &str)
        ensures
            r@ == self@.status_text,
    {
        self.status_text.as_str()
    }

    /// The header list, if the response has one.
    pub fn headers(&self) -> (r: Option<&Vec<(String, String)>>)
        ensures
            r is Some <==> self@.headers is Some,
            r is Some ==> pair_views(r->Some_0@) == self@.headers->Some_0,
    {
        match &self.headers {
            Some(h) => Some(h),
            None => None,
        }
    }

    /// The body, or the empty string when there is none.
    pub fn body(&self) -> (r: &str)
        ensures
            r@ == match self@.body {
                Some(b) => b,
                None => Seq::<char>::empty(),
            },
    {
        match &self.body {
            Some(b) => b.as_str(),
            None => {
                proof {
                    reveal_strlit("");
                }
                ""
            },
        }
    }
}

} // verus!
