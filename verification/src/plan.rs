//! What a handler decided to answer: a status, header fields in the order
//! they are set, and where the body comes from.
use vstd::prelude::*;

verus! {

/// How a streamed body is encoded.
#[derive(Clone, Copy, Debug, PartialEq, Eq, Structural)]
pub enum ContentEncoding {
    Zstd,
    Brotli,
    Gzip,
    Identity,
}

/// The `Content-Encoding` value of an encoding; empty for none.
pub open spec fn encoding_name(e: ContentEncoding) -> Seq<char> {
    match e {
        ContentEncoding::Zstd => "zstd"@,
        ContentEncoding::Brotli => "br"@,
        ContentEncoding::Gzip => "gzip"@,
        ContentEncoding::Identity => ""@,
    }
}

impl ContentEncoding {
    /// The `Content-Encoding` value; empty for none.
    pub fn name(&self) -> (r: &'static str)
        ensures
            r@ == encoding_name(*self),
    {
        match self {
            ContentEncoding::Zstd => "zstd",
            ContentEncoding::Brotli => "br",
            ContentEncoding::Gzip => "gzip",
            ContentEncoding::Identity => "",
        }
    }
}

/// Where the body of a planned response comes from.
pub enum PlanBody {
    /// No body.
    Empty,
    /// The opened file, encoded as given.
    Stream(ContentEncoding),
    /// These bytes.
    Bytes(Vec<u8>),
}

pub enum BodyView {
    Empty,
    Stream(ContentEncoding),
    Bytes(Seq<u8>),
}

/// A planned response.
pub struct ResponsePlan {
    pub status: u16,
    pub headers: Vec<(String, String)>,
    pub body: PlanBody,
}

pub struct PlanView {
    pub status: u16,
    pub headers: Seq<(Seq<char>, Seq<char>)>,
    pub body: BodyView,
}

pub open spec fn fields_view(h: Seq<(String, String)>) -> Seq<(Seq<char>, Seq<char>)> {
    h.map_values(|f: (String, String)| (f.0@, f.1@))
}

impl ResponsePlan {
    pub open spec fn view(self) -> PlanView {
        PlanView {
            status: self.status,
            headers: fields_view(self.headers@),
            body: match self.body {
                PlanBody::Empty => BodyView::Empty,
                PlanBody::Stream(e) => BodyView::Stream(e),
                PlanBody::Bytes(b) => BodyView::Bytes(b@),
            },
        }
    }
}

/// Adds the field `name: value` to `fields`.
pub fn push_field(fields: &mut Vec<(String, String)>, name: &str, value: &str)
    ensures
        fields_view(final(fields)@) == fields_view(old(fields)@).push((name@, value@)),
{
    fields.push((String::from_str(name), String::from_str(value)));
    assert(fields_view(fields@) =~= fields_view(old(fields)@).push((name@, value@)));
}

} // verus!
