//! Serving files embedded in the program: collecting them from a directory
//! tree, precomputing their hashes and compressed forms, and answering a
//! request from that cache.
use vstd::prelude::*;
use crate::headers::{HeaderMap, text_value, field_key, first_value};
use crate::paths::{PathKey, path_key, path_components, spec_determine_file, determine_file};
use crate::plan::{PlanBody, ResponsePlan, PlanView, BodyView, push_field};
use crate::request::Request;
use crate::text::{occurs_in, contains_bytes};
use crate::content_hash::{hash, spec_hash};
use crate::file_server::{guess_mime, mime_for_path, has_modified, spec_has_modified};

verus! {

/// A file embedded in the program: its path relative to the embedded root,
/// and its contents.
pub struct EmbeddedFile {
    pub path: String,
    pub contents: Vec<u8>,
}

/// A directory embedded in the program.
pub struct EmbeddedDir {
    pub files: Vec<EmbeddedFile>,
    pub dirs: Vec<EmbeddedDir>,
}

pub open spec fn files_view(fs: Seq<EmbeddedFile>) -> Seq<(Seq<char>, Seq<u8>)> {
    fs.map_values(|f: EmbeddedFile| (f.path@, f.contents@))
}

/// The files of a directory tree: a directory's own files, then those of
/// each subdirectory in turn.
pub open spec fn dir_files(d: EmbeddedDir) -> Seq<(Seq<char>, Seq<u8>)>
    decreases d, 0nat,
{
    files_view(d.files@) + dirs_files(d.dirs@)
}

/// The files of a list of directory trees, one tree after another.
pub open spec fn dirs_files(ds: Seq<EmbeddedDir>) -> Seq<(Seq<char>, Seq<u8>)>
    decreases ds, 1nat,
{
    if ds.len() == 0 {
        Seq::empty()
    } else {
        dirs_files(ds.drop_last()) + dir_files(ds.last())
    }
}

/// Options for serving an embedded directory.
pub struct FileServerIncludeDirOptions {
    /// The embedded directory to serve.
    pub dir: EmbeddedDir,
    /// Precompute and send compressed bodies.
    pub compress: bool,
}

pub open spec fn pairs_view(l: Seq<(String, Vec<u8>)>) -> Seq<(Seq<char>, Seq<u8>)> {
    l.map_values(|p: (String, Vec<u8>)| (p.0@, p.1@))
}

fn collect_files_recursive(dir: &EmbeddedDir, list: &mut Vec<(String, Vec<u8>)>)
    ensures
        pairs_view(final(list)@) == pairs_view(old(list)@) + dir_files(*dir),
    decreases dir,
{
    let ghost start = pairs_view(list@);
    let mut i: usize = 0;
    while i < dir.files.len()
        invariant
            i <= dir.files@.len(),
            pairs_view(list@) == start + files_view(dir.files@.subrange(0, i as int)),
        decreases dir.files@.len() - i,
    {
        let f = &dir.files[i];
        let ghost prev = list@;
        let p = f.path.clone();
        let c = vstd::slice::slice_to_vec(f.contents.as_slice());
        list.push((p, c));
        assert(pairs_view(list@) =~= pairs_view(prev).push((f.path@, f.contents@)));
        i = i + 1;
        assert(files_view(dir.files@.subrange(0, i as int)) =~= files_view(dir.files@.subrange(0, i - 1)).push((f.path@, f.contents@)));
        assert(pairs_view(list@) =~= start + files_view(dir.files@.subrange(0, i as int)));
    }
    assert(dir.files@.subrange(0, i as int) =~= dir.files@);
    let ghost mid = pairs_view(list@);
    let mut k: usize = 0;
    assert(dir.dirs@.subrange(0, 0) =~= Seq::<EmbeddedDir>::empty());
    while k < dir.dirs.len()
        invariant
            k <= dir.dirs@.len(),
            mid == start + files_view(dir.files@),
            pairs_view(list@) == mid + dirs_files(dir.dirs@.subrange(0, k as int)),
        decreases dir.dirs@.len() - k,
    {
        let sub = &dir.dirs[k];
        proof {
            assert(decreases_to!(*dir => dir.dirs));
            assert(decreases_to!(dir.dirs => dir.dirs@));
            assert(decreases_to!(dir.dirs@ => dir.dirs@[k as int]));
        }
        collect_files_recursive(sub, list);
        k = k + 1;
        assert(dir.dirs@.subrange(0, k as int).drop_last() =~= dir.dirs@.subrange(0, k - 1));
        assert(pairs_view(list@) =~= mid + dirs_files(dir.dirs@.subrange(0, k as int)));
    }
    assert(dir.dirs@.subrange(0, k as int) =~= dir.dirs@);
    assert(pairs_view(list@) =~= start + dir_files(*dir));
}

/// All files of an embedded directory tree, with their contents.
pub fn get_all_files(dir: &EmbeddedDir) -> (r: Vec<(String, Vec<u8>)>)
    ensures
        pairs_view(r@) == dir_files(*dir),
{
    let mut files: Vec<(String, Vec<u8>)> = Vec::new();
    assert(pairs_view(files@) =~= Seq::<(Seq<char>, Seq<u8>)>::empty());
    collect_files_recursive(dir, &mut files);
    assert(pairs_view(files@) =~= dir_files(*dir));
    files
}

/// The gzip stream that `flate2` writes for `data` at the default level.
pub uninterp spec fn gzip_of(data: Seq<u8>) -> Seq<u8>;

/// Compresses `data` with `flate2::write::GzEncoder` at
/// `Compression::default()`. Writing into a vector cannot fail. The result is
/// named.
#[verifier::external_body]
fn gzip(data: &[u8]) -> (r: Vec<u8>)
    ensures
        r@ == gzip_of(data@),
{
    let mut encoder = flate2::write::GzEncoder::new(Vec::new(), flate2::Compression::default());
    std::io::Write::write_all(&mut encoder, data).expect("Failed to write to Gzip encoder");
    encoder.finish().expect("Failed to finish Gzip encoding")
}

/// The brotli stream that `brotli` writes for `data` with a 4096-byte
/// buffer, quality 11 and window 22.
pub uninterp spec fn brotli_of(data: Seq<u8>) -> Seq<u8>;

/// Compresses `data` with `brotli::CompressorWriter::new(Vec::new(), 4096,
/// 11, 22)`; `into_inner` finishes the stream. The result is named.
#[verifier::external_body]
fn brotli(data: &[u8]) -> (r: Vec<u8>)
    ensures
        r@ == brotli_of(data@),
{
    let mut writer = brotli::CompressorWriter::new(Vec::new(), 4096, 11, 22);
    std::io::Write::write_all(&mut writer, data).unwrap();
    writer.into_inner()
}

/// What is kept of an embedded file.
pub struct CacheEntry {
    pub mime_type: String,
    pub contents: Vec<u8>,
    pub contents_br: Vec<u8>,
    pub contents_gzip: Vec<u8>,
    pub hash: String,
    pub hash_br: String,
    pub hash_gzip: String,
}

/// The entry made for a file at `path` with `contents`: the compressed forms
/// and their hashes are empty unless compression is on.
pub open spec fn spec_entry(e: CacheEntry, path: Seq<char>, contents: Seq<u8>, compress: bool) -> bool {
    &&& e.mime_type@ == mime_for_path(path)
    &&& e.contents@ == contents
    &&& e.hash@ == spec_hash(contents)
    &&& e.contents_br@ == (if compress { brotli_of(contents) } else { Seq::empty() })
    &&& e.hash_br@ == (if compress { spec_hash(brotli_of(contents)) } else { Seq::empty() })
    &&& e.contents_gzip@ == (if compress { gzip_of(contents) } else { Seq::empty() })
    &&& e.hash_gzip@ == (if compress { spec_hash(gzip_of(contents)) } else { Seq::empty() })
}

/// The entry for a file at `path` with `contents`.
pub fn make_entry(path: &str, contents: Vec<u8>, compress: bool) -> (r: CacheEntry)
    ensures
        spec_entry(r, path@, contents@, compress),
{
    let contents_hash = hash(contents.as_slice());
    let contents_br = if compress { brotli(contents.as_slice()) } else { Vec::new() };
    let contents_br_hash = if compress { hash(contents_br.as_slice()) } else { String::new() };
    let contents_gzip = if compress { gzip(contents.as_slice()) } else { Vec::new() };
    let contents_gzip_hash = if compress { hash(contents_gzip.as_slice()) } else { String::new() };
    let mime_type = guess_mime(path);
    CacheEntry {
        mime_type,
        contents,
        contents_br,
        contents_gzip,
        hash: contents_hash,
        hash_br: contents_br_hash,
        hash_gzip: contents_gzip_hash,
    }
}

/// The entry stored last under `key`: a later entry for the same path
/// replaces an earlier one.
pub open spec fn cache_lookup(entries: Seq<((bool, bool, Seq<Seq<char>>), CacheEntry)>, key: (bool, bool, Seq<Seq<char>>)) -> Option<CacheEntry>
    decreases entries.len(),
{
    if entries.len() == 0 {
        None
    } else if entries.last().0 == key {
        Some(entries.last().1)
    } else {
        cache_lookup(entries.drop_last(), key)
    }
}

/// What was stored last under a path is what a lookup of that path finds;
/// lookups of other paths are unchanged.
pub proof fn law_get_after_insert(
    entries: Seq<((bool, bool, Seq<Seq<char>>), CacheEntry)>,
    key: (bool, bool, Seq<Seq<char>>),
    entry: CacheEntry,
    other: (bool, bool, Seq<Seq<char>>),
)
    ensures
        cache_lookup(entries.push((key, entry)), key) == Some(entry),
        other != key ==> cache_lookup(entries.push((key, entry)), other) == cache_lookup(entries, other),
{
    assert(entries.push((key, entry)).drop_last() =~= entries);
}

/// Precomputed entries, found by path as `std::path::Path` compares paths.
pub struct FileCache {
    entries: Vec<(PathKey, CacheEntry)>,
}

impl FileCache {
    pub closed spec fn view(&self) -> Seq<((bool, bool, Seq<Seq<char>>), CacheEntry)> {
        self.entries@.map_values(|e: (PathKey, CacheEntry)| (e.0.view(), e.1))
    }

    /// An empty cache.
    pub fn new() -> (r: FileCache)
        ensures
            r.view() == Seq::<((bool, bool, Seq<Seq<char>>), CacheEntry)>::empty(),
    {
        let r = FileCache { entries: Vec::new() };
        assert(r.view() =~= Seq::<((bool, bool, Seq<Seq<char>>), CacheEntry)>::empty());
        r
    }

    /// Stores `entry` under `path`, replacing what was stored for that path.
    pub fn insert(&mut self, path: &str, entry: CacheEntry)
        ensures
            final(self).view() == old(self).view().push((path_components(path@), entry)),
    {
        let key = path_key(path);
        self.entries.push((key, entry));
        assert(self.view() =~= old(self).view().push((path_components(path@), entry)));
    }

    /// The entry stored for `path`.
    pub fn get(&self, path: &str) -> (r: Option<&CacheEntry>)
        ensures
            r is Some ==> cache_lookup(self.view(), path_components(path@)) == Some(*r.unwrap()),
            r is None ==> cache_lookup(self.view(), path_components(path@)) is None,
    {
        let key = path_key(path);
        let ghost v = self.view();
        let mut i: usize = self.entries.len();
        assert(v.subrange(0, i as int) =~= v);
        while i > 0
            invariant
                i <= self.entries@.len(),
                v == self.view(),
                key.view() == path_components(path@),
                cache_lookup(v, key.view()) == cache_lookup(v.subrange(0, i as int), key.view()),
            decreases i,
        {
            let e = &self.entries[i - 1];
            let ghost pre = v.subrange(0, i as int);
            assert(pre.last() == (e.0.view(), e.1));
            if e.0.same(&key) {
                return Some(&e.1);
            }
            assert(pre.drop_last() =~= v.subrange(0, i - 1));
            i = i - 1;
        }
        None
    }
}

/// Each file of the tree is stored in turn, under its path.
pub open spec fn cache_of(files: Seq<(Seq<char>, Seq<u8>)>, cache: Seq<((bool, bool, Seq<Seq<char>>), CacheEntry)>, compress: bool) -> bool {
    &&& cache.len() == files.len()
    &&& forall|i: int| 0 <= i < files.len() ==> {
        &&& (#[trigger] cache[i]).0 == path_components(files[i].0)
        &&& spec_entry(cache[i].1, files[i].0, files[i].1, compress)
    }
}

proof fn lemma_lookup_finds_a_later_entry(
    entries: Seq<((bool, bool, Seq<Seq<char>>), CacheEntry)>,
    key: (bool, bool, Seq<Seq<char>>),
    i: int,
) -> (j: int)
    requires
        0 <= i < entries.len(),
        entries[i].0 == key,
    ensures
        i <= j < entries.len(),
        entries[j].0 == key,
        cache_lookup(entries, key) == Some(entries[j].1),
    decreases entries.len(),
{
    if entries.last().0 == key {
        (entries.len() - 1) as int
    } else {
        let rest = entries.drop_last();
        assert(rest[i] == entries[i]);
        let j = lemma_lookup_finds_a_later_entry(rest, key, i);
        assert(rest[j] == entries[j]);
        j
    }
}

/// Every embedded file is found under its path: a lookup of it gives the
/// entry of the last file stored under the same path, made from that file.
pub proof fn law_every_file_is_cached(
    files: Seq<(Seq<char>, Seq<u8>)>,
    cache: Seq<((bool, bool, Seq<Seq<char>>), CacheEntry)>,
    compress: bool,
    i: int,
)
    requires
        cache_of(files, cache, compress),
        0 <= i < files.len(),
    ensures
        exists|j: int| #![trigger files[j]]
            i <= j < files.len()
            && path_components(files[j].0) == path_components(files[i].0)
            && cache_lookup(cache, path_components(files[i].0)) == Some(cache[j].1)
            && spec_entry(cache[j].1, files[j].0, files[j].1, compress),
{
    let key = path_components(files[i].0);
    assert(cache[i].0 == key);
    let j = lemma_lookup_finds_a_later_entry(cache, key, i);
    assert(cache[j].0 == path_components(files[j].0));
    assert(spec_entry(cache[j].1, files[j].0, files[j].1, compress));
}

/// Precomputes the entries of every embedded file.
pub fn build_cache(options: &FileServerIncludeDirOptions) -> (r: FileCache)
    ensures
        cache_of(dir_files(options.dir), r.view(), options.compress),
{
    let files = get_all_files(&options.dir);
    let ghost fv = pairs_view(files@);
    let mut cache = FileCache::new();
    let mut i: usize = 0;
    while i < files.len()
        invariant
            i <= files@.len(),
            fv == pairs_view(files@),
            fv == dir_files(options.dir),
            cache_of(fv.subrange(0, i as int), cache.view(), options.compress),
        decreases files@.len() - i,
    {
        let f = &files[i];
        let entry = make_entry(f.0.as_str(), vstd::slice::slice_to_vec(f.1.as_slice()), options.compress);
        cache.insert(f.0.as_str(), entry);
        i = i + 1;
        assert(cache_of(fv.subrange(0, i as int), cache.view(), options.compress)) by {
            let sub = fv.subrange(0, i as int);
            assert forall|j: int| 0 <= j < sub.len() implies {
                &&& (#[trigger] cache.view()[j]).0 == path_components(sub[j].0)
                &&& spec_entry(cache.view()[j].1, sub[j].0, sub[j].1, options.compress)
            } by {
                if j < i - 1 {
                    assert(sub[j] == fv.subrange(0, i - 1)[j]);
                }
            }
        }
    }
    assert(fv.subrange(0, i as int) =~= fv);
    cache
}

/// The value of a field named `name`, if it reads as text.
pub fn get_header<'a, B>(req: &'a Request<B>, name: &str) -> (r: Option<&'a [u8]>)
    ensures
        r is Some ==> text_value(req.spec_headers()@, field_key(name)) == Some(r.unwrap()@),
        r is None ==> text_value(req.spec_headers()@, field_key(name)) is None,
{
    req.headers().get_text(name)
}

pub open spec fn ascii_seq(s: Seq<char>) -> Seq<u8> {
    s.map_values(|c: char| c as u8)
}

/// The answer from a cached entry: `Content-Type`; with compression on and
/// an `Accept-Encoding` that reads as text and mentions `br` (else `gz`),
/// the compressed form with its `Content-Encoding`; whether the client's
/// copy is current is always judged by the hash of the uncompressed
/// contents, while the `ETag` sent is that of the form sent.
pub open spec fn spec_embedded_plan(fields: Seq<(Seq<u8>, Seq<u8>)>, compress: bool, e: CacheEntry) -> PlanView {
    let ct = seq![("Content-Type"@, e.mime_type@)];
    let current = !spec_has_modified(fields, vstd::utf8::encode_utf8(e.hash@));
    let accept = if compress { text_value(fields, field_key("Accept-Encoding")) } else { None };
    if accept is Some && occurs_in(accept.unwrap(), ascii_seq("br"@)) {
        let h = ct.push(("Content-Encoding"@, "br"@));
        if current {
            PlanView { status: 304, headers: h, body: BodyView::Empty }
        } else {
            PlanView { status: 200, headers: h.push(("ETag"@, e.hash_br@)), body: BodyView::Bytes(e.contents_br@) }
        }
    } else if accept is Some && occurs_in(accept.unwrap(), ascii_seq("gz"@)) {
        let h = ct.push(("Content-Encoding"@, "gzip"@));
        if current {
            PlanView { status: 304, headers: h, body: BodyView::Empty }
        } else {
            PlanView { status: 200, headers: h.push(("ETag"@, e.hash_gzip@)), body: BodyView::Bytes(e.contents_gzip@) }
        }
    } else if current {
        PlanView { status: 304, headers: ct, body: BodyView::Empty }
    } else {
        PlanView { status: 200, headers: ct.push(("ETag"@, e.hash@)), body: BodyView::Bytes(e.contents@) }
    }
}

/// A client whose `If-None-Match` is the plain contents' hash holds a
/// current copy: whatever encoding `Accept-Encoding` selects and whether
/// compression is on, the answer is 304 with no body and no `ETag`.
pub proof fn law_current_copy_is_not_resent(fields: Seq<(Seq<u8>, Seq<u8>)>, compress: bool, e: CacheEntry)
    requires
        first_value(fields, field_key("If-None-Match")) == Some(vstd::utf8::encode_utf8(e.hash@)),
    ensures
        spec_embedded_plan(fields, compress, e).status == 304,
        spec_embedded_plan(fields, compress, e).body == BodyView::Empty,
        forall|i: int| 0 <= i < spec_embedded_plan(fields, compress, e).headers.len()
            ==> (#[trigger] spec_embedded_plan(fields, compress, e).headers[i]).0 != "ETag"@,
{
    reveal_strlit("ETag");
    reveal_strlit("Content-Type");
    reveal_strlit("Content-Encoding");
    let h = spec_embedded_plan(fields, compress, e).headers;
    assert forall|i: int| 0 <= i < h.len() implies (#[trigger] h[i]).0 != "ETag"@ by {
        assert(h[i].0 == "Content-Type"@ || h[i].0 == "Content-Encoding"@);
        assert("ETag"@[0] != "Content-Type"@[0]);
        assert("ETag"@[0] != "Content-Encoding"@[0]);
    }
}

/// With compression on, the form sent is announced: a request whose
/// `Accept-Encoding` mentions `br` gets `Content-Encoding: br` right after
/// `Content-Type` and, when the body is sent, the brotli contents with their
/// hash as tag; one that mentions `gz` but not `br` gets the same with gzip.
pub proof fn law_embedded_encoding_announced(fields: Seq<(Seq<u8>, Seq<u8>)>, e: CacheEntry)
    ensures
        ({
            let p = spec_embedded_plan(fields, true, e);
            let accept = text_value(fields, field_key("Accept-Encoding"));
            &&& (accept is Some && occurs_in(accept.unwrap(), ascii_seq("br"@))) ==> {
                &&& p.headers.len() >= 2
                &&& p.headers[0] == ("Content-Type"@, e.mime_type@)
                &&& p.headers[1] == ("Content-Encoding"@, "br"@)
                &&& (p.status == 200 ==> p.body == BodyView::Bytes(e.contents_br@) && p.headers.last() == ("ETag"@, e.hash_br@))
            }
            &&& (accept is Some && !occurs_in(accept.unwrap(), ascii_seq("br"@)) && occurs_in(accept.unwrap(), ascii_seq("gz"@))) ==> {
                &&& p.headers.len() >= 2
                &&& p.headers[0] == ("Content-Type"@, e.mime_type@)
                &&& p.headers[1] == ("Content-Encoding"@, "gzip"@)
                &&& (p.status == 200 ==> p.body == BodyView::Bytes(e.contents_gzip@) && p.headers.last() == ("ETag"@, e.hash_gzip@))
            }
        }),
{
}

/// With compression off, an embedded file is never sent compressed: the
/// answer has no `Content-Encoding`, and unless the client's copy is current
/// it is 200 with the stored contents and their hash as tag.
pub proof fn law_uncompressed_when_compression_off(fields: Seq<(Seq<u8>, Seq<u8>)>, e: CacheEntry)
    ensures
        spec_embedded_plan(fields, false, e) == (if !spec_has_modified(fields, vstd::utf8::encode_utf8(e.hash@)) {
            PlanView { status: 304, headers: seq![("Content-Type"@, e.mime_type@)], body: BodyView::Empty }
        } else {
            PlanView {
                status: 200,
                headers: seq![("Content-Type"@, e.mime_type@), ("ETag"@, e.hash@)],
                body: BodyView::Bytes(e.contents@),
            }
        }),
{
    assert(seq![("Content-Type"@, e.mime_type@)].push(("ETag"@, e.hash@)) =~= seq![("Content-Type"@, e.mime_type@), ("ETag"@, e.hash@)]);
}

/// The answer to a request for an embedded file: 404 with no fields when no
/// file is stored under the path the request names.
pub open spec fn spec_embedded_response(
    fields: Seq<(Seq<u8>, Seq<u8>)>,
    request_path: Seq<char>,
    compress: bool,
    cache: Seq<((bool, bool, Seq<Seq<char>>), CacheEntry)>,
) -> PlanView {
    match cache_lookup(cache, path_components(spec_determine_file(request_path))) {
        None => PlanView { status: 404, headers: Seq::empty(), body: BodyView::Empty },
        Some(e) => spec_embedded_plan(fields, compress, e),
    }
}

fn plan_from_entry<B>(req: &Request<B>, compress: bool, e: &CacheEntry) -> (r: ResponsePlan)
    ensures
        r@ == spec_embedded_plan(req.spec_headers()@, compress, *e),
{
    let mut headers: Vec<(String, String)> = Vec::new();
    push_field(&mut headers, "Content-Type", e.mime_type.as_str());
    let ghost ct = seq![("Content-Type"@, e.mime_type@)];
    assert(crate::plan::fields_view(headers@) =~= ct);
    let current = !has_modified(req, e.hash.as_str());
    proof {
        reveal_strlit("br");
        reveal_strlit("gz");
    }
    let accept = if compress { get_header(req, "Accept-Encoding") } else { None };
    let (br, gz) = match accept {
        Some(v) => {
            let br = contains_bytes(v, crate::text::ascii_literal_bytes("br"));
            let gz = contains_bytes(v, crate::text::ascii_literal_bytes("gz"));
            (br, gz)
        },
        None => (false, false),
    };
    if br {
        push_field(&mut headers, "Content-Encoding", "br");
        assert(crate::plan::fields_view(headers@) =~= ct.push(("Content-Encoding"@, "br"@)));
        if current {
            return ResponsePlan { status: 304, headers, body: PlanBody::Empty };
        }
        push_field(&mut headers, "ETag", e.hash_br.as_str());
        return ResponsePlan { status: 200, headers, body: PlanBody::Bytes(vstd::slice::slice_to_vec(e.contents_br.as_slice())) };
    }
    if gz {
        push_field(&mut headers, "Content-Encoding", "gzip");
        assert(crate::plan::fields_view(headers@) =~= ct.push(("Content-Encoding"@, "gzip"@)));
        if current {
            return ResponsePlan { status: 304, headers, body: PlanBody::Empty };
        }
        push_field(&mut headers, "ETag", e.hash_gzip.as_str());
        return ResponsePlan { status: 200, headers, body: PlanBody::Bytes(vstd::slice::slice_to_vec(e.contents_gzip.as_slice())) };
    }
    if current {
        return ResponsePlan { status: 304, headers, body: PlanBody::Empty };
    }
    push_field(&mut headers, "ETag", e.hash.as_str());
    ResponsePlan { status: 200, headers, body: PlanBody::Bytes(vstd::slice::slice_to_vec(e.contents.as_slice())) }
}

/// The answer to `req` from the embedded files in `cache`.
pub fn plan_embedded_response<B>(req: &Request<B>, compress: bool, cache: &FileCache) -> (r: ResponsePlan)
    ensures
        r@ == spec_embedded_response(req.spec_headers()@, req.spec_uri().spec_path(), compress, cache.view()),
{
    let url_path = determine_file(req.uri().path());
    match cache.get(url_path.as_str()) {
        None => {
            let r = ResponsePlan { status: 404, headers: Vec::new(), body: PlanBody::Empty };
            assert(r@.headers =~= Seq::<(Seq<char>, Seq<char>)>::empty());
            r
        },
        Some(e) => plan_from_entry(req, compress, e),
    }
}

} // verus!
