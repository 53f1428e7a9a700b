//! Decisions the servers make around a handler: how the body is sent, what a
//! failed handler is answered, what a request is logged as, and which TLS
//! files are used.
use vstd::prelude::*;
use crate::error::Error;
use crate::headers::{HeaderMap, first_value, field_key};
use crate::plan::{PlanBody, ResponsePlan, PlanView, BodyView, fields_view, push_field};
use crate::request::{Request, method_name};

verus! {

/// How the first server sends a handler's body.
#[derive(Clone, Copy, Debug, PartialEq, Eq, Structural)]
pub enum BodyMode {
    /// Stream what the handler writes, as an event stream or chunked
    /// transfer asks.
    Stream,
    /// The handler still writes: send chunked, adding
    /// `Content-Transfer-Encoding: chunked` and `X-Content-Type-Options: nosniff`.
    Chunked,
    /// Send what was written as one body.
    Full,
}

pub open spec fn ascii_of(s: Seq<char>) -> Seq<u8> {
    s.map_values(|c: char| c as u8)
}

/// A stream when the handler set `Content-Type: text/event-stream` or
/// `Content-Transfer-Encoding: chunked`; else chunked while the handler
/// can still write; else the whole body.
pub open spec fn spec_body_mode(fields: Seq<(Seq<u8>, Seq<u8>)>, still_writing: bool) -> BodyMode {
    if first_value(fields, field_key("Content-Type")) == Some(ascii_of("text/event-stream"@))
        || first_value(fields, field_key("Content-Transfer-Encoding")) == Some(ascii_of("chunked"@)) {
        BodyMode::Stream
    } else if still_writing {
        BodyMode::Chunked
    } else {
        BodyMode::Full
    }
}

/// A handler that set `Content-Type: text/event-stream` or
/// `Content-Transfer-Encoding: chunked` (the first field of the name, exactly)
/// is streamed whether or not it still writes; otherwise a handler that still
/// writes is sent chunked and one that has finished is sent whole.
pub proof fn law_streams_win(fields: Seq<(Seq<u8>, Seq<u8>)>)
    ensures
        ({
            let streamed = first_value(fields, field_key("Content-Type")) == Some("text/event-stream"@.map_values(|c: char| c as u8))
                || first_value(fields, field_key("Content-Transfer-Encoding")) == Some("chunked"@.map_values(|c: char| c as u8));
            &&& streamed ==> spec_body_mode(fields, true) == BodyMode::Stream && spec_body_mode(fields, false) == BodyMode::Stream
            &&& !streamed ==> spec_body_mode(fields, true) == BodyMode::Chunked && spec_body_mode(fields, false) == BodyMode::Full
        }),
{
}

fn field_is(headers: &HeaderMap, name: &str, value: &str) -> (r: bool)
    requires
        value.is_ascii(),
    ensures
        r == (first_value(headers@, field_key(name)) == Some(ascii_of(value@))),
{
    match headers.get(name) {
        Some(v) => crate::text::bytes_equal(v, crate::text::ascii_literal_bytes(value)),
        None => false,
    }
}

/// How to send a body, given the fields the handler set and whether it can
/// still write.
pub fn body_mode(headers: &HeaderMap, still_writing: bool) -> (r: BodyMode)
    ensures
        r == spec_body_mode(headers@, still_writing),
{
    proof {
        reveal_strlit("text/event-stream");
        reveal_strlit("chunked");
    }
    if field_is(headers, "Content-Type", "text/event-stream") || field_is(headers, "Content-Transfer-Encoding", "chunked") {
        BodyMode::Stream
    } else if still_writing {
        BodyMode::Chunked
    } else {
        BodyMode::Full
    }
}

/// The fields a body mode adds to the head: a chunked body is sent with
/// `Content-Transfer-Encoding: chunked` and `X-Content-Type-Options:
/// nosniff`; the other modes add none.
pub open spec fn spec_mode_fields(mode: BodyMode) -> Seq<(Seq<char>, Seq<char>)> {
    if mode == BodyMode::Chunked {
        seq![("Content-Transfer-Encoding"@, "chunked"@), ("X-Content-Type-Options"@, "nosniff"@)]
    } else {
        Seq::empty()
    }
}

/// The fields that `mode` adds to the head.
pub fn mode_fields(mode: BodyMode) -> (r: Vec<(String, String)>)
    ensures
        fields_view(r@) == spec_mode_fields(mode),
{
    let mut fields: Vec<(String, String)> = Vec::new();
    if mode == BodyMode::Chunked {
        push_field(&mut fields, "Content-Transfer-Encoding", "chunked");
        push_field(&mut fields, "X-Content-Type-Options", "nosniff");
    }
    assert(fields_view(fields@) =~= spec_mode_fields(mode));
    fields
}

/// The answer to a request whose handler failed: 500 with the error's text.
pub fn error_plan(text: &str) -> (r: ResponsePlan)
    ensures
        r@ == (PlanView { status: 500, headers: Seq::empty(), body: BodyView::Bytes(vstd::utf8::encode_utf8(text@)) }),
{
    let body = vstd::slice::slice_to_vec(text.as_bytes());
    let r = ResponsePlan { status: 500, headers: Vec::new(), body: PlanBody::Bytes(body) };
    assert(r@.headers =~= Seq::<(Seq<char>, Seq<char>)>::empty());
    r
}

/// Options of the request logger.
pub struct LoggerOptions {}

/// The line a request is logged as: `[METHOD] path?query`.
pub open spec fn spec_log_line<B>(req: Request<B>) -> Seq<char> {
    "["@ + method_name(req.spec_method()) + "] "@ + match req.spec_uri().spec_path_and_query() {
        Some(pq) => pq,
        None => ""@,
    }
}

/// The line a request is logged as.
pub fn log_line<B>(req: &Request<B>) -> (r: String)
    ensures
        r@ == spec_log_line(*req),
{
    let open = String::from_str("[");
    let with_method = open.concat(req.method().as_str());
    let with_sep = with_method.concat("] ");
    match req.uri().path_and_query() {
        Some(pq) => with_sep.concat(pq.as_str()),
        None => with_sep.concat(""),
    }
}

/// Where the second server finds its certificate and key.
pub struct Http2ServerOptions {
    pub cert_path: Option<String>,
    pub key_path: Option<String>,
}

impl Default for Http2ServerOptions {
    fn default() -> (r: Self)
        ensures
            r.cert_path is None,
            r.key_path is None,
    {
        Http2ServerOptions { cert_path: None, key_path: None }
    }
}

/// The certificate and key paths, each of which is required.
pub fn tls_paths(options: &Http2ServerOptions) -> (r: Result<(String, String), Error>)
    ensures
        options.cert_path is None ==> (r matches Err(Error::Generic(m)) && m@ == "TLS certificate path is required for HTTP/2 server"@),
        options.cert_path is Some && options.key_path is None ==> (r matches Err(Error::Generic(m)) && m@ == "TLS key path is required for HTTP/2 server"@),
        options.cert_path is Some && options.key_path is Some ==> (r matches Ok((c, k)) && c@ == options.cert_path.unwrap()@ && k@ == options.key_path.unwrap()@),
{
    let cert = match &options.cert_path {
        Some(c) => c.clone(),
        None => return Err(Error::generic("TLS certificate path is required for HTTP/2 server")),
    };
    let key = match &options.key_path {
        Some(k) => k.clone(),
        None => return Err(Error::generic("TLS key path is required for HTTP/2 server")),
    };
    Ok((cert, key))
}

/// What a PEM section holds.
#[derive(Clone, Copy, Debug, PartialEq, Eq, Structural)]
pub enum PemKind {
    /// An X.509 certificate.
    Certificate,
    Pkcs1Key,
    Pkcs8Key,
    Sec1Key,
    /// Something else: a public key, a revocation list or a signing request.
    Other,
    /// A section that could not be parsed.
    Unparsable,
}

pub open spec fn is_private_key(k: PemKind) -> bool {
    k == PemKind::Pkcs1Key || k == PemKind::Pkcs8Key || k == PemKind::Sec1Key
}

/// The first section that is a PKCS#1, PKCS#8 or SEC1 private key; the
/// others are passed over.
pub fn first_private_key(kinds: &[PemKind]) -> (r: Result<usize, Error>)
    ensures
        r matches Ok(i) ==> i < kinds@.len() && is_private_key(kinds@[i as int])
            && forall|j: int| 0 <= j < i ==> !is_private_key(#[trigger] kinds@[j]),
        r is Err ==> (forall|j: int| 0 <= j < kinds@.len() ==> !is_private_key(#[trigger] kinds@[j]))
            && (r matches Err(Error::Generic(m)) && m@ == "No valid private key (PKCS1, PKCS8, or SEC1) found in file"@),
{
    let mut i: usize = 0;
    while i < kinds.len()
        invariant
            i <= kinds@.len(),
            forall|j: int| 0 <= j < i ==> !is_private_key(#[trigger] kinds@[j]),
        decreases kinds@.len() - i,
    {
        let k = kinds[i];
        if k == PemKind::Pkcs1Key || k == PemKind::Pkcs8Key || k == PemKind::Sec1Key {
            return Ok(i);
        }
        i = i + 1;
    }
    Err(Error::generic("No valid private key (PKCS1, PKCS8, or SEC1) found in file"))
}

/// What `rustls_pemfile::read_one` reads from the start of `input`: the
/// next section of a kind it knows, with its DER bytes for certificates and
/// private keys (none at the end of the input), and the input left after
/// it.
pub uninterp spec fn pem_next(input: Seq<u8>) -> (Option<(PemKind, Seq<u8>)>, Seq<u8>);

pub open spec fn pem_item_view(r: Option<(PemKind, Vec<u8>)>) -> Option<(PemKind, Seq<u8>)> {
    match r {
        Some((k, d)) => Some((k, d@)),
        None => None,
    }
}

/// Calls `rustls_pemfile::read_one` on the bytes in `rest`, which it
/// advances past what it read. Certificates and keys keep their DER bytes;
/// other sections, and a section that fails to parse, keep none. The result
/// is named. At the end of the input nothing is left; any section read
/// consumes at least its first line, so something was read.
#[verifier::external_body]
fn pem_read_one(rest: &mut &[u8]) -> (r: Option<(PemKind, Vec<u8>)>)
    ensures
        (pem_item_view(r), final(rest)@) == pem_next(old(rest)@),
        r is None ==> final(rest)@.len() == 0,
        r is Some ==> final(rest)@.len() < old(rest)@.len(),
{
    match rustls_pemfile::read_one(rest) {
        Ok(None) => None,
        Ok(Some(rustls_pemfile::Item::X509Certificate(c))) => Some((PemKind::Certificate, c.to_vec())),
        Ok(Some(rustls_pemfile::Item::Pkcs1Key(k))) => Some((PemKind::Pkcs1Key, k.secret_pkcs1_der().to_vec())),
        Ok(Some(rustls_pemfile::Item::Pkcs8Key(k))) => Some((PemKind::Pkcs8Key, k.secret_pkcs8_der().to_vec())),
        Ok(Some(rustls_pemfile::Item::Sec1Key(k))) => Some((PemKind::Sec1Key, k.secret_sec1_der().to_vec())),
        Ok(Some(_)) => Some((PemKind::Other, Vec::new())),
        Err(_) => Some((PemKind::Unparsable, Vec::new())),
    }
}

/// The sections of a PEM file, in order, as `read_one` reads them one
/// after another until the end.
pub open spec fn pem_items(input: Seq<u8>) -> Seq<(PemKind, Seq<u8>)>
    decreases input.len(),
{
    match pem_next(input).0 {
        None => Seq::empty(),
        Some(item) => if pem_next(input).1.len() < input.len() {
            seq![item] + pem_items(pem_next(input).1)
        } else {
            seq![item]
        },
    }
}

pub open spec fn pem_items_view(v: Seq<(PemKind, Vec<u8>)>) -> Seq<(PemKind, Seq<u8>)> {
    v.map_values(|i: (PemKind, Vec<u8>)| (i.0, i.1@))
}

/// Every section of a PEM file, in order.
pub fn read_pem_items(pem: &[u8]) -> (r: Vec<(PemKind, Vec<u8>)>)
    ensures
        pem_items_view(r@) == pem_items(pem@),
{
    let mut rest: &[u8] = pem;
    let mut items: Vec<(PemKind, Vec<u8>)> = Vec::new();
    loop
        invariant_except_break
            pem_items_view(items@) + pem_items(rest@) == pem_items(pem@),
        ensures
            pem_items_view(items@) == pem_items(pem@),
        decreases rest@.len(),
    {
        let ghost before = rest@;
        let ghost seen = pem_items_view(items@);
        match pem_read_one(&mut rest) {
            None => {
                assert(pem_items(before) =~= Seq::<(PemKind, Seq<u8>)>::empty());
                assert(seen + pem_items(before) =~= seen);
                break;
            },
            Some(item) => {
                let ghost iv = (item.0, item.1@);
                assert(pem_items(before) == seq![iv] + pem_items(rest@));
                items.push(item);
                assert(pem_items_view(items@) =~= seen.push(iv));
                assert(seen + pem_items(before) =~= pem_items_view(items@) + pem_items(rest@));
            },
        }
    }
    items
}

/// The DER bytes of the certificates among `items`, in order.
pub open spec fn cert_ders(items: Seq<(PemKind, Seq<u8>)>) -> Seq<Seq<u8>>
    decreases items.len(),
{
    if items.len() == 0 {
        Seq::empty()
    } else if items.last().0 == PemKind::Certificate {
        cert_ders(items.drop_last()).push(items.last().1)
    } else {
        cert_ders(items.drop_last())
    }
}

pub open spec fn has_unparsable(items: Seq<(PemKind, Seq<u8>)>) -> bool {
    exists|i: int| 0 <= i < items.len() && (#[trigger] items[i]).0 == PemKind::Unparsable
}

/// The certificates of a PEM file, in order: it fails when a section does
/// not parse.
pub fn certs_from_pem(cert_pem: &[u8]) -> (r: Result<Vec<Vec<u8>>, Error>)
    ensures
        r is Ok <==> !has_unparsable(pem_items(cert_pem@)),
        r matches Ok(certs) ==> certs@.map_values(|c: Vec<u8>| c@) == cert_ders(pem_items(cert_pem@)),
        r is Err ==> (r matches Err(Error::Generic(m)) && m@ == "failed to load certs"@),
{
    let items = read_pem_items(cert_pem);
    let ghost iv = pem_items(cert_pem@);
    let mut certs: Vec<Vec<u8>> = Vec::new();
    let mut i: usize = 0;
    while i < items.len()
        invariant
            i <= items@.len(),
            pem_items_view(items@) == iv,
            iv == pem_items(cert_pem@),
            !has_unparsable(iv.subrange(0, i as int)),
            certs@.map_values(|c: Vec<u8>| c@) == cert_ders(iv.subrange(0, i as int)),
        decreases items@.len() - i,
    {
        let ghost pre = iv.subrange(0, i as int);
        let ghost next = iv.subrange(0, i + 1);
        assert(next.drop_last() =~= pre);
        assert(next.last() == (items@[i as int].0, items@[i as int].1@));
        let k = items[i].0;
        if k == PemKind::Unparsable {
            assert(iv[i as int].0 == PemKind::Unparsable);
            return Err(Error::generic("failed to load certs"));
        }
        if k == PemKind::Certificate {
            let ghost before = certs@;
            certs.push(vstd::slice::slice_to_vec(items[i].1.as_slice()));
            assert(certs@.map_values(|c: Vec<u8>| c@) =~= before.map_values(|c: Vec<u8>| c@).push(items@[i as int].1@));
        }
        i = i + 1;
        assert(!has_unparsable(next)) by {
            if has_unparsable(next) {
                let j = choose|j: int| 0 <= j < next.len() && (#[trigger] next[j]).0 == PemKind::Unparsable;
                if j < pre.len() {
                    assert(pre[j] == next[j]);
                }
            }
        }
    }
    assert(iv.subrange(0, i as int) =~= iv);
    Ok(certs)
}

/// The first private key of a PEM file, with its kind and DER bytes.
pub fn key_from_pem(key_pem: &[u8]) -> (r: Result<(PemKind, Vec<u8>), Error>)
    ensures
        r is Ok <==> exists|i: int| 0 <= i < pem_items(key_pem@).len() && is_private_key(#[trigger] pem_items(key_pem@)[i].0),
        r matches Ok((k, der)) ==> exists|i: int| 0 <= i < pem_items(key_pem@).len()
            && #[trigger] pem_items(key_pem@)[i] == (k, der@)
            && is_private_key(k)
            && forall|j: int| 0 <= j < i ==> !is_private_key(#[trigger] pem_items(key_pem@)[j].0),
        r is Err ==> (r matches Err(Error::Generic(m)) && m@ == "No valid private key (PKCS1, PKCS8, or SEC1) found in file"@),
{
    let items = read_pem_items(key_pem);
    let ghost iv = pem_items(key_pem@);
    let mut i: usize = 0;
    while i < items.len()
        invariant
            i <= items@.len(),
            pem_items_view(items@) == iv,
            iv == pem_items(key_pem@),
            forall|j: int| 0 <= j < i ==> !is_private_key(#[trigger] iv[j].0),
        decreases items@.len() - i,
    {
        let k = items[i].0;
        assert(iv[i as int] == (k, items@[i as int].1@));
        if k == PemKind::Pkcs1Key || k == PemKind::Pkcs8Key || k == PemKind::Sec1Key {
            let der = vstd::slice::slice_to_vec(items[i].1.as_slice());
            assert(iv[i as int] == (k, der@));
            assert(is_private_key(iv[i as int].0));
            return Ok((k, der));
        }
        i = i + 1;
    }
    Err(Error::generic("No valid private key (PKCS1, PKCS8, or SEC1) found in file"))
}

} // verus!
