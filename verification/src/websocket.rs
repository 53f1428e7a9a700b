//! The websocket handshake: the accept key, the switching-protocols answer,
//! and reading text messages.
use vstd::prelude::*;
use vstd::string::StringSliceAdditionalSpecFns;
use crate::error::Error;
use crate::headers::{text_value, field_key};
use crate::plan::{PlanBody, ResponsePlan, PlanView, BodyView, push_field};
use crate::request::Request;

use crate::response::{Response, StateView};

verus! {

/// The websocket endpoint.
pub struct WebSocket {}

/// The SHA-1 digest of `data`.
pub uninterp spec fn sha1_of(data: Seq<u8>) -> Seq<u8>;

/// Calls `<sha1::Sha1 as Digest>::digest(data)`. The digest is named; it is
/// 20 bytes long.
#[verifier::external_body]
fn sha1_digest(data: &[u8]) -> (r: Vec<u8>)
    ensures
        r@ == sha1_of(data@),
        r@.len() == 20,
{
    <sha1::Sha1 as sha1::Digest>::digest(data).to_vec()
}

/// The character of the standard base64 alphabet for a six-bit value.
pub open spec fn base64_char(v: int) -> char {
    if v < 26 {
        (65 + v) as char
    } else if v < 52 {
        (97 + v - 26) as char
    } else if v < 62 {
        (48 + v - 52) as char
    } else if v == 62 {
        '+'
    } else {
        '/'
    }
}

/// The standard padded base64 text of `data`: each group of three bytes
/// gives four characters of six bits each; a last group of one or two bytes
/// is filled with zero bits and padded with `=` to four characters.
pub open spec fn base64_of(data: Seq<u8>) -> Seq<char>
    decreases data.len(),
{
    if data.len() == 0 {
        seq![]
    } else if data.len() == 1 {
        let a = data[0] as int;
        seq![base64_char(a / 4), base64_char((a % 4) * 16), '=', '=']
    } else if data.len() == 2 {
        let a = data[0] as int;
        let b = data[1] as int;
        seq![base64_char(a / 4), base64_char((a % 4) * 16 + b / 16), base64_char((b % 16) * 4), '=']
    } else {
        let a = data[0] as int;
        let b = data[1] as int;
        let c = data[2] as int;
        seq![base64_char(a / 4), base64_char((a % 4) * 16 + b / 16), base64_char((b % 16) * 4 + c / 64), base64_char(c % 64)]
            + base64_of(data.subrange(3, data.len() as int))
    }
}

proof fn lemma_base64_len(data: Seq<u8>)
    ensures
        base64_of(data).len() == 4 * ((data.len() + 2) / 3),
    decreases data.len(),
{
    if data.len() >= 3 {
        lemma_base64_len(data.subrange(3, data.len() as int));
    }
}

/// Calls `base64::engine::general_purpose::STANDARD.encode(data)`: the
/// standard padded base64 text of the bytes. The encoder fails when that
/// text's length does not fit in a `usize`.
#[verifier::external_body]
fn base64_encode(data: &[u8]) -> (r: String)
    requires
        4 * ((data@.len() + 2) / 3) <= usize::MAX,
    ensures
        r@ == base64_of(data@),
{
    base64::Engine::encode(&base64::engine::general_purpose::STANDARD, data)
}

/// The GUID appended to the client's key.
pub open spec fn handshake_guid() -> Seq<char> {
    "258EAFA5-E914-47DA-95CA-C5AB0DC85B11"@
}

/// The `Sec-WebSocket-Accept` value for a client key: base64 of the SHA-1
/// digest of the key followed by the handshake GUID.
pub open spec fn spec_accept_key(client_key: Seq<u8>) -> Seq<char> {
    base64_of(sha1_of(client_key + handshake_guid().map_values(|c: char| c as u8)))
}

/// The accept value answering `client_key`.
pub fn derive_accept_key(client_key: &[u8]) -> (r: String)
    ensures
        r@ == spec_accept_key(client_key@),
        r@.len() == 28,
{
    let guid = "258EAFA5-E914-47DA-95CA-C5AB0DC85B11";
    proof {
        reveal_strlit("258EAFA5-E914-47DA-95CA-C5AB0DC85B11");
    }
    let mut data = vstd::slice::slice_to_vec(client_key);
    let g = crate::text::ascii_literal_bytes(guid);
    let mut i: usize = 0;
    let ghost start = data@;
    while i < g.len()
        invariant
            i <= g@.len(),
            data@ == start + g@.subrange(0, i as int),
        decreases g@.len() - i,
    {
        data.push(g[i]);
        i = i + 1;
        assert(data@ =~= start + g@.subrange(0, i as int));
    }
    assert(g@.subrange(0, i as int) =~= g@);
    let digest = sha1_digest(data.as_slice());
    proof {
        lemma_base64_len(digest@);
    }
    base64_encode(digest.as_slice())
}

/// The answer that switches to the websocket protocol: 101 with `Upgrade`,
/// `Connection` and `Sec-WebSocket-Accept`.
pub open spec fn spec_upgrade_plan(client_key: Seq<u8>) -> PlanView {
    PlanView {
        status: 101,
        headers: seq![
            ("Upgrade"@, "websocket"@),
            ("Connection"@, "upgrade"@),
            ("Sec-WebSocket-Accept"@, spec_accept_key(client_key)),
        ],
        body: BodyView::Empty,
    }
}

/// The answer to an upgrade request. The request must carry a
/// `Sec-WebSocket-Key` that reads as text.
pub fn upgrade_plan<B>(req: &Request<B>) -> (r: ResponsePlan)
    requires
        text_value(req.spec_headers()@, field_key("Sec-WebSocket-Key")) is Some,
    ensures
        r@ == spec_upgrade_plan(text_value(req.spec_headers()@, field_key("Sec-WebSocket-Key")).unwrap()),
{
    let key = req.headers().get_text("Sec-WebSocket-Key").unwrap();
    let accept = derive_accept_key(key);
    let mut headers: Vec<(String, String)> = Vec::new();
    push_field(&mut headers, "Upgrade", "websocket");
    push_field(&mut headers, "Connection", "upgrade");
    push_field(&mut headers, "Sec-WebSocket-Accept", accept.as_str());
    let r = ResponsePlan { status: 101, headers, body: PlanBody::Empty };
    assert(r@.headers =~= spec_upgrade_plan(key@).headers);
    r
}

/// Takes `res` over for a websocket: a response whose head was written
/// cannot be upgraded, and a connection that offers no upgrade cannot be
/// upgraded either; the first is checked first. Either way the response is
/// left taken.
pub fn start_upgrade<P, W>(res: &mut Response<P, W>, upgradable: bool) -> (r: Result<P, Error>)
    ensures
        final(res).spec_state() is None,
        !(old(res).spec_state() matches Some(StateView::Builder { .. })) ==> (r matches Err(Error::Generic(m)) && m@ == "Cannot upgrade"@),
        (old(res).spec_state() matches Some(StateView::Builder { .. })) && !upgradable ==> (r matches Err(Error::Generic(m)) && m@ == "Not upgradable"@),
        old(res).spec_state() matches Some(StateView::Builder { parts, .. }) ==> (upgradable ==> r == Ok::<P, Error>(parts)),
{
    let parts = res.begin_upgrade()?;
    if !upgradable {
        return Err(Error::generic("Not upgradable"));
    }
    Ok(parts)
}

/// What the connection delivered when a message was awaited.
pub enum Received {
    /// A text message.
    Text(String),
    /// A message of another kind.
    Other,
    /// Reading failed.
    Failed,
    /// The connection is closed.
    Closed,
}

/// A text message as text; any other message or failure as an error.
pub fn next_text(received: Received) -> (r: Option<Result<String, Error>>)
    ensures
        received is Closed <==> r is None,
        received matches Received::Text(t) ==> (r matches Some(Ok(s)) && s@ == t@),
        (received is Other || received is Failed) ==> (r matches Some(Err(Error::Generic(m))) && m@ == "Expected websocket message as text"@),
{
    match received {
        Received::Text(t) => Some(Ok(t)),
        Received::Closed => None,
        _ => Some(Err(Error::generic("Expected websocket message as text"))),
    }
}

} // verus!
