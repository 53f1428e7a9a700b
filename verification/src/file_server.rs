//! Serving files from a directory: which file a request names, which
//! encoding to send, the entity tag, and the answer to a conditional request.
use vstd::prelude::*;
use vstd::string::StringSliceAdditionalSpecFns;
use crate::headers::{HeaderMap, first_value, text_value, field_key};
use crate::paths::{has_extension, spec_determine_file, spec_join, determine_file, join_path, climbs, has_parent_segment};
use crate::plan::{ContentEncoding, PlanBody, ResponsePlan, PlanView, BodyView, encoding_name, push_field};
use crate::request::Request;
use crate::text::{occurs_in, contains_bytes};
use crate::hex::{hex_of, hex_string};

verus! {

/// How a file's entity tag is made.
#[derive(Clone, Copy, Debug, PartialEq, Eq, Structural)]
pub enum ETagStrategy {
    /// A non-cryptographic hash of the contents; slower.
    Hash,
    /// The modification time and length; faster.
    LastModified,
    /// No entity tag.
    Disabled,
}

impl Default for ETagStrategy {
    fn default() -> (r: Self)
        ensures
            r == ETagStrategy::LastModified,
    {
        ETagStrategy::LastModified
    }
}

/// Where a file's entity tag comes from.
#[derive(Clone, Copy, Debug, PartialEq, Eq, Structural)]
pub enum EtagSource {
    /// The file's contents, hashed as they are read.
    Contents,
    /// The file's modification time and length.
    Metadata,
    /// No tag.
    Nothing,
}

pub open spec fn spec_etag_source(strategy: ETagStrategy) -> EtagSource {
    match strategy {
        ETagStrategy::Hash => EtagSource::Contents,
        ETagStrategy::LastModified => EtagSource::Metadata,
        ETagStrategy::Disabled => EtagSource::Nothing,
    }
}

/// What a file's entity tag is made from under `strategy`.
pub fn etag_source(strategy: ETagStrategy) -> (r: EtagSource)
    ensures
        r == spec_etag_source(strategy),
{
    match strategy {
        ETagStrategy::Hash => EtagSource::Contents,
        ETagStrategy::LastModified => EtagSource::Metadata,
        ETagStrategy::Disabled => EtagSource::Nothing,
    }
}

/// How to serve a directory.
pub struct FileServerOptions {
    /// The directory files are served from.
    pub dir: String,
    /// Send compressed bodies to clients that accept them.
    pub compress: bool,
    /// How entity tags are made.
    pub etag: ETagStrategy,
}

/// The MIME type that `mime_guess` gives the path `path`.
pub uninterp spec fn mime_for_path(path: Seq<char>) -> Seq<char>;

/// Calls `mime_guess::from_path(path).first_or_octet_stream()`. The result
/// is named; a path without an extension gets `application/octet-stream`,
/// since the guess goes by `Path::extension` alone.
#[verifier::external_body]
pub(crate) fn guess_mime(path: &str) -> (r: String)
    ensures
        r@ == mime_for_path(path@),
        !has_extension(path@) ==> r@ == "application/octet-stream"@,
{
    mime_guess::from_path(path).first_or_octet_stream().to_string()
}

/// The file a request path names under `dir`.
pub open spec fn spec_file_path(dir: Seq<char>, request_path: Seq<char>) -> Seq<char> {
    spec_join(dir, spec_determine_file(request_path))
}

/// The file that a request for `request_path` is answered from; none when
/// the file it names has a `..` segment and could lie outside `dir`, which
/// is answered as not found.
pub fn file_path(dir: &str, request_path: &str) -> (r: Option<String>)
    ensures
        r is None <==> climbs(spec_determine_file(request_path@)),
        r matches Some(p) ==> p@ == spec_file_path(dir@, request_path@),
{
    let rel = determine_file(request_path);
    if has_parent_segment(rel.as_str()) {
        return None;
    }
    Some(join_path(dir, rel.as_str()))
}

/// The entity tag made from the modification time and length: both in hex,
/// followed by the name of the encoding.
pub open spec fn spec_metadata_etag(modified_nanos: u128, len: u64, encoding: Seq<char>) -> Seq<char> {
    hex_of(modified_nanos as nat) + hex_of(len as nat) + encoding
}

/// The entity tag of a file modified `modified_nanos` after the epoch and
/// `len` bytes long, sent with `encoding`.
pub fn etag_from_metadata(modified_nanos: u128, len: u64, encoding: &str) -> (r: String)
    ensures
        r@ == spec_metadata_etag(modified_nanos, len, encoding@),
{
    let a = hex_string(modified_nanos);
    let b = hex_string(len as u128);
    let r = a.concat(b.as_str());
    r.concat(encoding)
}

/// The encoding a response is sent with: none unless compression is on and
/// the request's `Accept-Encoding` reads as text; then zstd, brotli or gzip,
/// the first that it mentions in that order of preference.
pub open spec fn spec_choose_encoding(compress: bool, fields: Seq<(Seq<u8>, Seq<u8>)>, accept_key: Seq<u8>) -> ContentEncoding {
    if !compress {
        ContentEncoding::Identity
    } else {
        match text_value(fields, accept_key) {
            None => ContentEncoding::Identity,
            Some(v) => if occurs_in(v, "zstd"@.map_values(|c: char| c as u8)) {
                ContentEncoding::Zstd
            } else if occurs_in(v, "br"@.map_values(|c: char| c as u8)) {
                ContentEncoding::Brotli
            } else if occurs_in(v, "gz"@.map_values(|c: char| c as u8)) {
                ContentEncoding::Gzip
            } else {
                ContentEncoding::Identity
            },
        }
    }
}

/// The bytes of an ASCII literal.
fn ascii_bytes(s: &str) -> (r: &[u8])
    requires
        s.is_ascii(),
    ensures
        r@ == s@.map_values(|c: char| c as u8),
{
    proof {
        vstd::string::is_ascii_spec_bytes(s);
    }
    let r = s.as_bytes();
    assert(r@ =~= s@.map_values(|c: char| c as u8));
    r
}

/// The encoding to send a file with.
pub fn choose_encoding(compress: bool, headers: &HeaderMap) -> (r: ContentEncoding)
    ensures
        r == spec_choose_encoding(compress, headers@, field_key("Accept-Encoding")),
{
    if !compress {
        return ContentEncoding::Identity;
    }
    match headers.get_text("Accept-Encoding") {
        None => ContentEncoding::Identity,
        Some(v) => {
            proof {
                reveal_strlit("zstd");
                reveal_strlit("br");
                reveal_strlit("gz");
            }
            if contains_bytes(v, ascii_bytes("zstd")) {
                ContentEncoding::Zstd
            } else if contains_bytes(v, ascii_bytes("br")) {
                ContentEncoding::Brotli
            } else if contains_bytes(v, ascii_bytes("gz")) {
                ContentEncoding::Gzip
            } else {
                ContentEncoding::Identity
            }
        },
    }
}

/// A request is answered in full unless its `If-None-Match` is exactly the
/// entity tag.
pub open spec fn spec_has_modified(fields: Seq<(Seq<u8>, Seq<u8>)>, etag: Seq<u8>) -> bool {
    first_value(fields, field_key("If-None-Match")) != Some(etag)
}

/// Whether the client's copy is out of date: false exactly when the
/// request's `If-None-Match` equals `etag`.
pub fn has_modified<B>(req: &Request<B>, etag: &str) -> (r: bool)
    ensures
        r == spec_has_modified(req.spec_headers()@, etag.spec_bytes()),
{
    match req.headers().get("If-None-Match") {
        Some(v) => !crate::text::bytes_equal(v, etag.as_bytes()),
        None => true,
    }
}

/// The answer to a request for a file that could not be opened.
pub fn not_found_plan() -> (r: ResponsePlan)
    ensures
        r@ == (PlanView { status: 404, headers: Seq::empty(), body: BodyView::Empty }),
{
    let r = ResponsePlan { status: 404, headers: Vec::new(), body: PlanBody::Empty };
    assert(r@.headers =~= Seq::<(Seq<char>, Seq<char>)>::empty());
    r
}

/// The fields set before the entity tag is looked at.
pub open spec fn base_fields(mime: Seq<char>, encoding: ContentEncoding) -> Seq<(Seq<char>, Seq<char>)> {
    if encoding == ContentEncoding::Identity {
        seq![("Content-Type"@, mime)]
    } else {
        seq![("Content-Type"@, mime), ("Content-Encoding"@, encoding_name(encoding))]
    }
}

/// The answer for an opened file: `Content-Type` (the type guessed from
/// the file's path), then `Content-Encoding`
/// when compressed; with an entity tag that the request already holds,
/// 304 and no body; otherwise the `ETag` field, 200 and the file.
pub open spec fn spec_file_plan(
    fields: Seq<(Seq<u8>, Seq<u8>)>,
    mime: Seq<char>,
    encoding: ContentEncoding,
    etag: Option<Seq<char>>,
    etag_bytes: Seq<u8>,
) -> PlanView {
    match etag {
        Some(e) => if !spec_has_modified(fields, etag_bytes) {
            PlanView { status: 304, headers: base_fields(mime, encoding), body: BodyView::Empty }
        } else {
            PlanView { status: 200, headers: base_fields(mime, encoding).push(("ETag"@, e)), body: BodyView::Stream(encoding) }
        },
        None => PlanView { status: 200, headers: base_fields(mime, encoding), body: BodyView::Stream(encoding) },
    }
}

/// The answer for the opened file at `full_path`, sent with `encoding`,
/// whose entity tag is `etag`.
pub fn plan_file_response<B>(req: &Request<B>, full_path: &str, encoding: ContentEncoding, etag: Option<String>) -> (r: ResponsePlan)
    ensures
        r@ == spec_file_plan(
            req.spec_headers()@,
            mime_for_path(full_path@),
            encoding,
            match etag { Some(e) => Some(e@), None => None },
            match etag { Some(e) => vstd::utf8::encode_utf8(e@), None => Seq::empty() },
        ),
{
    let mime_type = guess_mime(full_path);
    let mime = mime_type.as_str();
    let mut headers: Vec<(String, String)> = Vec::new();
    push_field(&mut headers, "Content-Type", mime);
    if encoding != ContentEncoding::Identity {
        push_field(&mut headers, "Content-Encoding", encoding.name());
    }
    assert(crate::plan::fields_view(headers@) =~= base_fields(mime_type@, encoding));
    match etag {
        Some(e) => {
            if !has_modified(req, e.as_str()) {
                let r = ResponsePlan { status: 304, headers, body: PlanBody::Empty };
                r
            } else {
                push_field(&mut headers, "ETag", e.as_str());
                ResponsePlan { status: 200, headers, body: PlanBody::Stream(encoding) }
            }
        },
        None => ResponsePlan { status: 200, headers, body: PlanBody::Stream(encoding) },
    }
}

/// Without an entity tag a file is always sent whole with 200 and no `ETag`
/// field; with one, it is answered 304 with no body exactly when the
/// request's `If-None-Match` is that tag, and otherwise sent with 200 and
/// the tag as its last field.
pub proof fn law_conditional_answer(
    fields: Seq<(Seq<u8>, Seq<u8>)>,
    mime: Seq<char>,
    encoding: ContentEncoding,
    tag: Seq<char>,
    tag_bytes: Seq<u8>,
)
    ensures
        spec_file_plan(fields, mime, encoding, None, Seq::empty()) == (PlanView {
            status: 200,
            headers: base_fields(mime, encoding),
            body: BodyView::Stream(encoding),
        }),
        first_value(fields, field_key("If-None-Match")) == Some(tag_bytes) ==> spec_file_plan(fields, mime, encoding, Some(tag), tag_bytes) == (PlanView {
            status: 304,
            headers: base_fields(mime, encoding),
            body: BodyView::Empty,
        }),
        first_value(fields, field_key("If-None-Match")) != Some(tag_bytes) ==> spec_file_plan(fields, mime, encoding, Some(tag), tag_bytes) == (PlanView {
            status: 200,
            headers: base_fields(mime, encoding).push(("ETag"@, tag)),
            body: BodyView::Stream(encoding),
        }),
{
}

/// Every encoding other than none has a name of its own: the names of two
/// different encodings differ, and only sending without encoding has an
/// empty name.
pub proof fn law_encoding_names_distinct(a: ContentEncoding, b: ContentEncoding)
    ensures
        a != ContentEncoding::Identity ==> encoding_name(a).len() > 0,
        a == ContentEncoding::Identity ==> encoding_name(a).len() == 0,
        a != b ==> encoding_name(a) != encoding_name(b),
{
    reveal_strlit("zstd");
    reveal_strlit("br");
    reveal_strlit("gzip");
    reveal_strlit("");
    if a != b && encoding_name(a) == encoding_name(b) {
        assert(encoding_name(a).len() == encoding_name(b).len());
        if encoding_name(a).len() > 0 {
            assert(encoding_name(a)[0] == encoding_name(b)[0]);
        }
    }
}

/// A file's answer always starts with its `Content-Type`; a body sent with
/// an encoding is announced by a `Content-Encoding` field with that
/// encoding's name right after it, and a body sent without one has no such
/// field; a 200 answer streams the file in that encoding.
pub proof fn law_encoding_announced(
    fields: Seq<(Seq<u8>, Seq<u8>)>,
    mime: Seq<char>,
    encoding: ContentEncoding,
    etag: Option<Seq<char>>,
    etag_bytes: Seq<u8>,
)
    ensures
        ({
            let p = spec_file_plan(fields, mime, encoding, etag, etag_bytes);
            &&& p.headers.len() >= 1
            &&& p.headers[0] == ("Content-Type"@, mime)
            &&& encoding != ContentEncoding::Identity ==> p.headers.len() >= 2
                && p.headers[1] == ("Content-Encoding"@, encoding_name(encoding))
            &&& encoding == ContentEncoding::Identity ==> forall|i: int| 0 <= i < p.headers.len()
                ==> (#[trigger] p.headers[i]).0 != "Content-Encoding"@
            &&& p.status == 200 ==> p.body == BodyView::Stream(encoding)
            &&& p.status == 304 || p.status == 200
        }),
{
    reveal_strlit("Content-Type");
    reveal_strlit("Content-Encoding");
    reveal_strlit("ETag");
    let p = spec_file_plan(fields, mime, encoding, etag, etag_bytes);
    if encoding == ContentEncoding::Identity {
        assert forall|i: int| 0 <= i < p.headers.len() implies (#[trigger] p.headers[i]).0 != "Content-Encoding"@ by {
            assert(p.headers[i].0 == "Content-Type"@ || p.headers[i].0 == "ETag"@);
            assert("Content-Encoding"@[8] != "Content-Type"@[8]);
            assert("Content-Encoding"@[0] != "ETag"@[0]);
        }
    }
}

} // verus!
