//! An ordered multimap of header fields, looked up without regard to ASCII case.
use vstd::prelude::*;
use vstd::string::StringSliceAdditionalSpecFns;
use crate::text::{all_visible_ascii, all_visible_ascii_exec, bytes_equal, lower_bytes, to_lower_bytes};

verus! {

/// The value of the first field in `fields` whose name is `name`.
pub open spec fn first_value(fields: Seq<(Seq<u8>, Seq<u8>)>, name: Seq<u8>) -> Option<Seq<u8>>
    decreases fields.len(),
{
    if fields.len() == 0 {
        None
    } else if fields[0].0 == name {
        Some(fields[0].1)
    } else {
        first_value(fields.drop_first(), name)
    }
}

/// The name under which a field given as `name` is stored and found.
pub open spec fn field_key(name: &str) -> Seq<u8> {
    lower_bytes(name.spec_bytes())
}

/// The value that a lookup of `name` finds, provided that it reads as text
/// (visible ASCII and tabs), as `HeaderValue::to_str` requires.
pub open spec fn text_value(fields: Seq<(Seq<u8>, Seq<u8>)>, name: Seq<u8>) -> Option<Seq<u8>> {
    match first_value(fields, name) {
        Some(v) => if all_visible_ascii(v) { Some(v) } else { None },
        None => None,
    }
}

proof fn lemma_first_value_skip(fields: Seq<(Seq<u8>, Seq<u8>)>, name: Seq<u8>, i: int)
    requires
        0 <= i < fields.len(),
        fields[i].0 != name,
    ensures
        first_value(fields.skip(i), name) == first_value(fields.skip(i + 1), name),
{
    assert(fields.skip(i).drop_first() =~= fields.skip(i + 1));
}

/// Appending a field never hides an earlier one: a lookup of its name finds
/// the appended value only when no field of that name was there before, and
/// lookups of other names are unchanged.
pub proof fn law_append_keeps_first(fields: Seq<(Seq<u8>, Seq<u8>)>, name: Seq<u8>, value: Seq<u8>, other: Seq<u8>)
    ensures
        first_value(fields.push((name, value)), name) == (match first_value(fields, name) {
            Some(v) => Some(v),
            None => Some(value),
        }),
        other != name ==> first_value(fields.push((name, value)), other) == first_value(fields, other),
    decreases fields.len(),
{
    let pushed = fields.push((name, value));
    if fields.len() > 0 {
        assert(pushed.drop_first() =~= fields.drop_first().push((name, value)));
        assert(pushed[0] == fields[0]);
        law_append_keeps_first(fields.drop_first(), name, value, other);
    } else {
        assert(pushed.drop_first() =~= Seq::<(Seq<u8>, Seq<u8>)>::empty());
        assert(pushed[0] == (name, value));
        assert(first_value(pushed.drop_first(), other) is None);
    }
}

/// Header fields in the order in which they were added. Names are kept
/// ASCII-lower-cased, so lookups ignore ASCII case.
pub struct HeaderMap {
    fields: Vec<(Vec<u8>, Vec<u8>)>,
}

impl View for HeaderMap {
    type V = Seq<(Seq<u8>, Seq<u8>)>;

    closed spec fn view(&self) -> Seq<(Seq<u8>, Seq<u8>)> {
        self.fields@.map_values(|f: (Vec<u8>, Vec<u8>)| (f.0@, f.1@))
    }
}

impl HeaderMap {
    /// An empty map.
    pub fn new() -> (r: HeaderMap)
        ensures
            r@ == Seq::<(Seq<u8>, Seq<u8>)>::empty(),
    {
        let r = HeaderMap { fields: Vec::new() };
        assert(r@ =~= Seq::<(Seq<u8>, Seq<u8>)>::empty());
        r
    }

    /// Adds a field after the existing ones; earlier fields of the same
    /// name are kept.
    pub fn append(&mut self, name: &str, value: &[u8])
        ensures
            final(self)@ == old(self)@.push((field_key(name), value@)),
    {
        let key = to_lower_bytes(name.as_bytes());
        let v = vstd::slice::slice_to_vec(value);
        self.fields.push((key, v));
        assert(self@ =~= old(self)@.push((field_key(name), value@)));
    }

    /// The number of fields.
    pub fn len(&self) -> (r: usize)
        ensures
            r == self@.len(),
    {
        self.fields.len()
    }

    /// The value of the first field named `name`, ignoring ASCII case.
    pub fn get(&self, name: &str) -> (r: Option<&[u8]>)
        ensures
            r is Some ==> first_value(self@, field_key(name)) == Some(r.unwrap()@),
            r is None ==> first_value(self@, field_key(name)) is None,
    {
        let key = to_lower_bytes(name.as_bytes());
        let ghost k = field_key(name);
        let n = self.fields.len();
        let mut i: usize = 0;
        assert(self@.skip(0) =~= self@);
        while i < n
            invariant
                n == self@.len(),
                n == self.fields@.len(),
                i <= n,
                key@ == k,
                k == field_key(name),
                first_value(self@, k) == first_value(self@.skip(i as int), k),
            decreases n - i,
        {
            let f = &self.fields[i];
            assert(self@[i as int] == (f.0@, f.1@));
            if bytes_equal(f.0.as_slice(), key.as_slice()) {
                let ghost rest = self@.skip(i as int);
                assert(rest[0] == self@[i as int]);
                assert(rest.len() > 0);
                assert(rest[0].0 == k);
                assert(first_value(rest, k) == Some(rest[0].1));
                let s = f.1.as_slice();
                assert(s@ == f.1@);
                assert(first_value(self@, k) == Some(s@));
                return Some(s);
            }
            proof {
                lemma_first_value_skip(self@, k, i as int);
            }
            i = i + 1;
        }
        assert(self@.skip(n as int).len() == 0);
        None
    }

    /// The value of the first field named `name`, if it reads as text.
    pub fn get_text(&self, name: &str) -> (r: Option<&[u8]>)
        ensures
            r is Some ==> text_value(self@, field_key(name)) == Some(r.unwrap()@),
            r is None ==> text_value(self@, field_key(name)) is None,
    {
        match self.get(name) {
            Some(v) => {
                if all_visible_ascii_exec(v) {
                    Some(v)
                } else {
                    None
                }
            },
            None => None,
        }
    }
}

} // verus!
