//! Building the request of the blocking server from its head: the head is
//! parsed by `httparse`, and the request line, the fields and the body's
//! length are taken from what it read.
use vstd::prelude::*;
use vstd::utf8::encode_utf8;
use crate::error::Error;
use crate::text::{lower_bytes, to_lower_bytes, bytes_equal};

verus! {

/// What `httparse::Request::parse` reads from `head` with room for
/// `max_fields` fields: none when it reports an error; otherwise the
/// method, path and minor version it found, and the `max_fields` field
/// slots after the parse as name and value.
pub uninterp spec fn httparse_head(head: Seq<u8>, max_fields: nat) -> Option<(Option<Seq<char>>, Option<Seq<char>>, Option<u8>, Seq<(Seq<char>, Seq<u8>)>)>;

pub open spec fn parsed_view(r: Option<(Option<String>, Option<String>, Option<u8>, Vec<(String, Vec<u8>)>)>) -> Option<(Option<Seq<char>>, Option<Seq<char>>, Option<u8>, Seq<(Seq<char>, Seq<u8>)>)> {
    match r {
        Some((m, p, v, fs)) => Some((
            match m { Some(x) => Some(x@), None => None },
            match p { Some(x) => Some(x@), None => None },
            v,
            fs@.map_values(|f: (String, Vec<u8>)| (f.0@, f.1@)),
        )),
        None => None,
    }
}

/// Parses `head` with `httparse::Request::parse` into `max_fields` slots
/// that start as `EMPTY_HEADER`, and copies out the method, path, version
/// and every slot, or turns the parser's error into an I/O error with
/// `std::io::Error::other`, as the blocking server reports it. The result is
/// named; there are `max_fields` slots, since the parser fills the slice it
/// is given and does not change its length.
#[verifier::external_body]
fn parse_head(head: &[u8], max_fields: usize) -> (r: Result<(Option<String>, Option<String>, Option<u8>, Vec<(String, Vec<u8>)>), std::io::Error>)
    ensures
        r is Err <==> httparse_head(head@, max_fields as nat) is None,
        r matches Ok(p) ==> parsed_view(Some(p)) == httparse_head(head@, max_fields as nat),
        r matches Ok((_, _, _, fs)) ==> fs@.len() == max_fields,
{
    let mut slots = vec![httparse::EMPTY_HEADER; max_fields];
    let mut req = httparse::Request::new(&mut slots);
    match req.parse(head) {
        Ok(_) => {
            let method = req.method.map(|m| m.to_string());
            let path = req.path.map(|p| p.to_string());
            let version = req.version;
            Ok((method, path, version, slots.iter().map(|h| (h.name.to_string(), h.value.to_vec())).collect()))
        },
        Err(e) => Err(std::io::Error::other(e)),
    }
}

/// The request of the blocking server.
pub struct SyncRequest {
    pub method: String,
    pub url: String,
    /// `HTTP/1.` and the minor version.
    pub proto: String,
    /// The value of the first field.
    pub host: Vec<u8>,
    /// Every field slot in order, names ASCII-lower-cased.
    pub headers: Vec<(Vec<u8>, Vec<u8>)>,
    /// The length of the body.
    pub content_length: usize,
}

/// The method of a request line that has none.
pub open spec fn default_method() -> Seq<char> {
    "GET"@
}

/// The target of a request line that has none.
pub open spec fn default_url() -> Seq<char> {
    "/"@
}

/// The decimal digits of `v`.
pub open spec fn decimal(v: nat) -> Seq<char>
    decreases v,
{
    if v < 10 {
        seq![(v + 48) as char]
    } else {
        decimal(v / 10).push(((v % 10) + 48) as char)
    }
}

/// The value of a string of ASCII digits.
pub open spec fn digits_value(s: Seq<u8>) -> nat
    decreases s.len(),
{
    if s.len() == 0 {
        0
    } else {
        digits_value(s.drop_last()) * 10 + (s.last() - 48) as nat
    }
}

pub open spec fn all_digits(s: Seq<u8>) -> bool {
    forall|i: int| 0 <= i < s.len() ==> 48 <= #[trigger] s[i] <= 57
}

/// What `str::parse::<usize>` gives for these bytes: an optional `+`, then
/// at least one ASCII digit, and a value that fits in a `usize`.
pub open spec fn parse_usize(s: Seq<u8>) -> Option<nat> {
    let d = if s.len() > 0 && s[0] == 43 { s.drop_first() } else { s };
    if d.len() > 0 && all_digits(d) && digits_value(d) <= usize::MAX {
        Some(digits_value(d))
    } else {
        None
    }
}

/// The lower-cased name `content-length`.
pub open spec fn content_length_key() -> Seq<u8> {
    "content-length"@.map_values(|c: char| c as u8)
}

/// The fields as stored: names ASCII-lower-cased.
pub open spec fn lowered(fields: Seq<(Seq<char>, Seq<u8>)>) -> Seq<(Seq<u8>, Seq<u8>)> {
    fields.map_values(|f: (Seq<char>, Seq<u8>)| (lower_bytes(encode_utf8(f.0)), f.1))
}

/// The body's length from the stored fields, in order: each
/// `content-length` field must parse, and the last one counts; none gives 0.
pub open spec fn content_length_of(fields: Seq<(Seq<u8>, Seq<u8>)>) -> Option<nat>
    decreases fields.len(),
{
    if fields.len() == 0 {
        Some(0)
    } else {
        match content_length_of(fields.drop_last()) {
            None => None,
            Some(n) => if fields.last().0 == content_length_key() {
                parse_usize(fields.last().1)
            } else {
                Some(n)
            },
        }
    }
}

proof fn lemma_digits_value_grows(s: Seq<u8>, k: int)
    requires
        0 <= k <= s.len(),
        all_digits(s),
    ensures
        digits_value(s.subrange(0, k)) <= digits_value(s),
    decreases s.len() - k,
{
    if k < s.len() {
        let t = s.subrange(0, k + 1);
        assert(t.drop_last() =~= s.subrange(0, k));
        assert(48 <= t.last());
        lemma_digits_value_grows(s, k + 1);
    } else {
        assert(s.subrange(0, k) =~= s);
    }
}

/// The value of `s` as `str::parse::<usize>` reads it.
pub fn parse_length(s: &[u8]) -> (r: Option<usize>)
    ensures
        r matches Some(v) ==> parse_usize(s@) == Some(v as nat),
        r is None ==> parse_usize(s@) is None,
{
    let n = s.len();
    let start: usize = if n > 0 && s[0] == 43 { 1 } else { 0 };
    let ghost d = if s@.len() > 0 && s@[0] == 43 { s@.drop_first() } else { s@ };
    assert(d =~= s@.subrange(start as int, n as int));
    assert(parse_usize(s@) == (if d.len() > 0 && all_digits(d) && digits_value(d) <= usize::MAX {
        Some(digits_value(d))
    } else {
        None::<nat>
    }));
    if start >= n {
        assert(d.len() == 0);
        return None;
    }
    let mut v: usize = 0;
    let mut i: usize = start;
    while i < n
        invariant
            start <= i <= n,
            start < n,
            n == s@.len(),
            d == s@.subrange(start as int, n as int),
            parse_usize(s@) == (if d.len() > 0 && all_digits(d) && digits_value(d) <= usize::MAX {
                Some(digits_value(d))
            } else {
                None::<nat>
            }),
            all_digits(s@.subrange(start as int, i as int)),
            v as nat == digits_value(s@.subrange(start as int, i as int)),
        decreases n - i,
    {
        let b = s[i];
        let ghost pre = s@.subrange(start as int, i as int);
        let ghost next = s@.subrange(start as int, i + 1);
        assert(next.drop_last() =~= pre);
        if b < 48 || b > 57 {
            assert(d[i - start] == b);
            assert(!all_digits(d));
            return None;
        }
        let dv = (b - 48) as usize;
        assert(digits_value(next) == digits_value(pre) * 10 + dv);
        let sum = match v.checked_mul(10) {
            Some(m) => m.checked_add(dv),
            None => None,
        };
        match sum {
            Some(x) => {
                v = x;
            },
            None => {
                proof {
                    assert(digits_value(next) > usize::MAX);
                    if all_digits(d) {
                        lemma_digits_value_grows(d, i + 1 - start);
                        assert(d.subrange(0, i + 1 - start) =~= next);
                        assert(digits_value(d) > usize::MAX);
                    }
                    assert(parse_usize(s@) is None);
                }
                return None;
            },
        }
        i = i + 1;
        assert forall|j: int| 0 <= j < next.len() implies 48 <= #[trigger] next[j] <= 57 by {
            if j < pre.len() { assert(next[j] == pre[j]); }
        }
    }
    assert(s@.subrange(start as int, n as int) =~= d);
    Some(v)
}

/// The protocol of a request with minor version `v`: `HTTP/1.` and its
/// digits, 0 when the head gave none.
pub open spec fn spec_proto(v: Option<u8>) -> Seq<char> {
    "HTTP/1."@ + decimal(match v {
        Some(x) => x as nat,
        None => 0,
    })
}

pub open spec fn headers_view(h: Seq<(Vec<u8>, Vec<u8>)>) -> Seq<(Seq<u8>, Seq<u8>)> {
    h.map_values(|f: (Vec<u8>, Vec<u8>)| (f.0@, f.1@))
}

/// The text of one decimal digit.
fn digit_text(d: u8) -> (r: &'static str)
    requires
        d < 10,
    ensures
        r@ == seq![(d + 48) as char],
{
    proof {
        reveal_strlit("0");
        reveal_strlit("1");
        reveal_strlit("2");
        reveal_strlit("3");
        reveal_strlit("4");
        reveal_strlit("5");
        reveal_strlit("6");
        reveal_strlit("7");
        reveal_strlit("8");
        reveal_strlit("9");
    }
    if d == 0 {
        "0"
    } else if d == 1 {
        "1"
    } else if d == 2 {
        "2"
    } else if d == 3 {
        "3"
    } else if d == 4 {
        "4"
    } else if d == 5 {
        "5"
    } else if d == 6 {
        "6"
    } else if d == 7 {
        "7"
    } else if d == 8 {
        "8"
    } else {
        "9"
    }
}

/// `HTTP/1.` followed by the digits of `v`.
fn proto_text(v: u8) -> (r: String)
    ensures
        r@ == "HTTP/1."@ + decimal(v as nat),
{
    proof {
        reveal_with_fuel(decimal, 3);
    }
    let r = String::from_str("HTTP/1.");
    if v >= 100 {
        let a = r.concat(digit_text(v / 100));
        let b = a.concat(digit_text((v / 10) % 10));
        let c = b.concat(digit_text(v % 10));
        assert(decimal((v / 10) as nat) == seq![((v / 100) + 48) as char, (((v / 10) % 10) + 48) as char]);
        assert(c@ =~= "HTTP/1."@ + decimal(v as nat));
        c
    } else if v >= 10 {
        let a = r.concat(digit_text(v / 10));
        let b = a.concat(digit_text(v % 10));
        assert(b@ =~= "HTTP/1."@ + decimal(v as nat));
        b
    } else {
        let a = r.concat(digit_text(v));
        assert(a@ =~= "HTTP/1."@ + decimal(v as nat));
        a
    }
}

/// The request built from a head of `header_count` lines (the request line
/// and the fields, as the head scanner counts them): the method, target and
/// minor version that `httparse` read, with `GET`, `/` and 0 where it read
/// none; every field slot with its name lower-cased; the host from the
/// first slot; the body's length from the `content-length` fields. It fails
/// with an I/O error carrying the parser's error when `httparse` reports
/// one, and when a `content-length` value does not read as a `usize`.
pub fn parse_request(head: &[u8], header_count: usize) -> (r: Result<SyncRequest, Error>)
    requires
        header_count >= 2,
    ensures
        ({
            let p = httparse_head(head@, (header_count - 1) as nat);
            &&& (r is Ok <==> (p is Some && content_length_of(lowered(p.unwrap().3)) is Some))
            &&& (p is None ==> r matches Err(Error::IO(_)))
            &&& (p is Some && content_length_of(lowered(p.unwrap().3)) is None ==> (r matches Err(Error::Generic(m))
                && m@ == "Invalid Content-Length"@))
            &&& (r matches Ok(q) ==> {
                let (method, path, version, slots) = p.unwrap();
                &&& q.method@ == (match method { Some(m) => m, None => default_method() })
                &&& q.url@ == (match path { Some(u) => u, None => default_url() })
                &&& q.proto@ == spec_proto(version)
                &&& q.host@ == slots[0].1
                &&& headers_view(q.headers@) == lowered(slots)
                &&& q.content_length as nat == content_length_of(lowered(slots)).unwrap()
            })
        }),
{
    let max_fields = header_count - 1;
    let parsed = match parse_head(head, max_fields) {
        Ok(p) => p,
        Err(e) => return Err(Error::IO(e)),
    };
    let (method, path, version, slots) = parsed;
    let ghost sv = slots@.map_values(|f: (String, Vec<u8>)| (f.0@, f.1@));
    assert(httparse_head(head@, max_fields as nat).unwrap().3 == sv);
    proof {
        reveal_strlit("GET");
        reveal_strlit("/");
        reveal_strlit("content-length");
    }
    let key = crate::text::ascii_literal_bytes("content-length");
    let mut headers: Vec<(Vec<u8>, Vec<u8>)> = Vec::new();
    let mut length: usize = 0;
    let mut i: usize = 0;
    while i < slots.len()
        invariant
            i <= slots@.len(),
            sv == slots@.map_values(|f: (String, Vec<u8>)| (f.0@, f.1@)),
            max_fields == header_count - 1,
            httparse_head(head@, max_fields as nat) is Some,
            httparse_head(head@, max_fields as nat).unwrap().3 == sv,
            key@ == content_length_key(),
            headers_view(headers@) == lowered(sv.subrange(0, i as int)),
            content_length_of(lowered(sv.subrange(0, i as int))) == Some(length as nat),
        decreases slots@.len() - i,
    {
        let f = &slots[i];
        let name = to_lower_bytes(f.0.as_str().as_bytes());
        let value = vstd::slice::slice_to_vec(f.1.as_slice());
        let ghost pre = lowered(sv.subrange(0, i as int));
        let ghost next = lowered(sv.subrange(0, i + 1));
        assert(sv.subrange(0, i + 1) =~= sv.subrange(0, i as int).push(sv[i as int]));
        assert(next =~= pre.push((name@, value@)));
        assert(next.drop_last() =~= pre);
        if bytes_equal(name.as_slice(), key) {
            match parse_length(value.as_slice()) {
                Some(v) => {
                    length = v;
                },
                None => {
                    proof {
                        lemma_content_length_stays_none(lowered(sv), (i + 1) as int);
                        assert(lowered(sv).subrange(0, i + 1) =~= next);
                        assert(lowered(sv).subrange(0, sv.len() as int) =~= lowered(sv));
                        assert(content_length_of(lowered(sv)) is None);
                    }
                    return Err(Error::generic("Invalid Content-Length"));
                },
            }
        }
        headers.push((name, value));
        assert(headers_view(headers@) =~= next);
        i = i + 1;
    }
    assert(sv.subrange(0, i as int) =~= sv);
    assert(content_length_of(lowered(sv)) == Some(length as nat));
    let method = match method {
        Some(m) => m,
        None => String::from_str("GET"),
    };
    let url = match path {
        Some(u) => u,
        None => String::from_str("/"),
    };
    let proto = match version {
        Some(v) => proto_text(v),
        None => proto_text(0),
    };
    let host = vstd::slice::slice_to_vec(slots[0].1.as_slice());
    Ok(SyncRequest { method, url, proto, host, headers, content_length: length })
}

/// Once a `content-length` value fails to read, the length stays unknown
/// whatever fields follow.
proof fn lemma_content_length_stays_none(fields: Seq<(Seq<u8>, Seq<u8>)>, k: int)
    requires
        0 <= k <= fields.len(),
        content_length_of(fields.subrange(0, k)) is None,
    ensures
        content_length_of(fields) is None,
    decreases fields.len() - k,
{
    if k < fields.len() {
        assert(fields.subrange(0, k + 1).drop_last() =~= fields.subrange(0, k));
        lemma_content_length_stays_none(fields, k + 1);
    } else {
        assert(fields.subrange(0, k) =~= fields);
    }
}

/// What is left of a body of known length.
pub struct BoundedBody {
    length: usize,
    read: usize,
}

impl BoundedBody {
    pub closed spec fn spec_length(&self) -> nat {
        self.length as nat
    }

    pub closed spec fn spec_read(&self) -> nat {
        self.read as nat
    }

    pub open spec fn wf(&self) -> bool {
        self.spec_read() <= self.spec_length()
    }

    /// A body of `length` bytes, none read yet.
    pub fn new(length: usize) -> (r: BoundedBody)
        ensures
            r.wf(),
            r.spec_length() == length,
            r.spec_read() == 0,
    {
        BoundedBody { length, read: 0 }
    }

    /// How many bytes a read into a buffer of `buf_len` bytes may take: no
    /// more than the buffer holds or the body has left.
    pub fn room(&self, buf_len: usize) -> (r: usize)
        requires
            self.wf(),
        ensures
            r == (if buf_len < self.spec_length() - self.spec_read() {
                buf_len as int
            } else {
                self.spec_length() - self.spec_read()
            }),
    {
        let left = self.length - self.read;
        if buf_len < left { buf_len } else { left }
    }

    /// `n` more bytes were read.
    pub fn advance(&mut self, n: usize)
        requires
            old(self).wf(),
            n <= old(self).spec_length() - old(self).spec_read(),
        ensures
            final(self).wf(),
            final(self).spec_length() == old(self).spec_length(),
            final(self).spec_read() == old(self).spec_read() + n,
    {
        self.read = self.read + n;
    }
}

} // verus!
