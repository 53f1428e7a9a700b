//! An owned body buffer.
use vstd::prelude::*;

verus! {

/// Body bytes, owned.
pub struct Bytes(Vec<u8>);

impl Bytes {
    pub closed spec fn view(&self) -> Seq<u8> {
        self.0@
    }

    /// The bytes of a slice, copied.
    pub fn from_slice(value: &[u8]) -> (r: Bytes)
        ensures
            r.view() == value@,
    {
        Bytes(vstd::slice::slice_to_vec(value))
    }

    /// The UTF-8 bytes of a string.
    pub fn from_text(value: &str) -> (r: Bytes)
        ensures
            r.view() == vstd::utf8::encode_utf8(value@),
    {
        Bytes(vstd::slice::slice_to_vec(value.as_bytes()))
    }

    /// The UTF-8 bytes of a string.
    pub fn from_string(value: String) -> (r: Bytes)
        ensures
            r.view() == vstd::utf8::encode_utf8(value@),
    {
        Bytes(vstd::slice::slice_to_vec(value.as_str().as_bytes()))
    }

    /// The bytes.
    pub fn as_slice(&self) -> (r: &[u8])
        ensures
            r@ == self.view(),
    {
        self.0.as_slice()
    }

    /// The bytes, as a vector.
    pub fn into_vec(self) -> (r: Vec<u8>)
        ensures
            r@ == self.view(),
    {
        self.0
    }
}

impl From<Vec<u8>> for Bytes {
    fn from(value: Vec<u8>) -> (r: Bytes) {
        Bytes(value)
    }
}

impl vstd::std_specs::convert::FromSpecImpl<Vec<u8>> for Bytes {
    open spec fn obeys_from_spec() -> bool {
        true
    }

    closed spec fn from_spec(value: Vec<u8>) -> Bytes {
        Bytes(value)
    }
}

/// Converting a vector keeps its bytes.
pub proof fn law_from_vec_keeps_bytes(value: Vec<u8>)
    ensures
        <Bytes as vstd::std_specs::convert::FromSpec<Vec<u8>>>::from_spec(value).view() == value@,
{
}

} // verus!
