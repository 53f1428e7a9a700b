//! Hashing contents fed in pieces with xxh3, as entity tags are made.
use vstd::prelude::*;
use crate::hex::{hex16_of, hex16_string};

verus! {

#[verifier::external_type_specification]
#[verifier::external_body]
pub struct ExXxh3(xxhash_rust::xxh3::Xxh3);

/// The xxh3 64-bit hash of `data`.
pub uninterp spec fn xxh3_of(data: Seq<u8>) -> u64;

/// The bytes a hasher has been fed, in order.
pub uninterp spec fn hasher_input(h: xxhash_rust::xxh3::Xxh3) -> Seq<u8>;

/// Calls `Xxh3::new()`: a hasher that has been fed nothing.
#[verifier::external_body]
fn hasher_new() -> (r: xxhash_rust::xxh3::Xxh3)
    ensures
        hasher_input(r) == Seq::<u8>::empty(),
{
    xxhash_rust::xxh3::Xxh3::new()
}

/// Calls `Xxh3::update(input)`: the chunk is added to what was fed.
#[verifier::external_body]
fn hasher_update(h: &mut xxhash_rust::xxh3::Xxh3, input: &[u8])
    ensures
        hasher_input(*final(h)) == hasher_input(*old(h)) + input@,
{
    h.update(input)
}

/// Calls `Xxh3::digest()`: the hash of everything fed so far, which does
/// not depend on how it was split into chunks. The hasher is unchanged.
#[verifier::external_body]
fn hasher_digest(h: &xxhash_rust::xxh3::Xxh3) -> (r: u64)
    ensures
        r == xxh3_of(hasher_input(*h)),
{
    h.digest()
}

/// The hash of some contents as an entity tag: 16 hex digits of its xxh3
/// hash.
pub open spec fn spec_hash(data: Seq<u8>) -> Seq<char> {
    hex16_of(xxh3_of(data) as nat)
}

/// A hash of contents that arrive in chunks.
pub struct ContentHasher {
    state: xxhash_rust::xxh3::Xxh3,
}

impl ContentHasher {
    /// What has been fed so far.
    pub closed spec fn view(&self) -> Seq<u8> {
        hasher_input(self.state)
    }

    /// A hasher fed nothing yet.
    pub fn new() -> (r: ContentHasher)
        ensures
            r.view() == Seq::<u8>::empty(),
    {
        ContentHasher { state: hasher_new() }
    }

    /// Feeds the next chunk.
    pub fn update(&mut self, chunk: &[u8])
        ensures
            final(self).view() == old(self).view() + chunk@,
    {
        hasher_update(&mut self.state, chunk);
    }

    /// The entity tag of everything fed: 16 hex digits of its hash.
    pub fn finish(&self) -> (r: String)
        ensures
            r@ == spec_hash(self.view()),
    {
        hex16_string(hasher_digest(&self.state))
    }
}

/// The hash of `data`, as 16 hex digits.
pub fn hash(data: &[u8]) -> (r: String)
    ensures
        r@ == spec_hash(data@),
{
    let mut h = ContentHasher::new();
    h.update(data);
    assert(Seq::<u8>::empty() + data@ =~= data@);
    h.finish()
}

} // verus!
