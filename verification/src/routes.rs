//! Route tables: patterns mapped to route numbers by `path_tree`, and the
//! parameters a match yields, percent-decoded.
use vstd::prelude::*;

verus! {

#[verifier::external_type_specification]
#[verifier::external_body]
#[verifier::reject_recursive_types(T)]
pub struct ExPathTree<T>(path_tree::PathTree<T>);

/// The insertions made into a route table, in order: pattern and value.
pub uninterp spec fn tree_routes(t: path_tree::PathTree<usize>) -> Seq<(Seq<char>, usize)>;

/// What `PathTree::find` answers for `path` in a table built by these
/// insertions: the value and the named parameters with their raw text.
pub uninterp spec fn tree_match(routes: Seq<(Seq<char>, usize)>, path: Seq<char>) -> Option<(usize, Seq<(Seq<char>, Seq<char>)>)>;

/// Calls `PathTree::new`. An empty table holds no insertions and matches no
/// path: its root node has no value and no children.
#[verifier::external_body]
pub(crate) fn tree_new() -> (r: path_tree::PathTree<usize>)
    ensures
        tree_routes(r) == Seq::<(Seq<char>, usize)>::empty(),
        forall|p: Seq<char>| #[trigger] tree_match(tree_routes(r), p) is None,
{
    path_tree::PathTree::new()
}

/// Calls `PathTree::insert(route, value)`, dropping the id it returns. The
/// insertion is added to the table's history; `find` answers from it.
#[verifier::external_body]
pub(crate) fn tree_insert(t: &mut path_tree::PathTree<usize>, route: &str, value: usize)
    ensures
        tree_routes(*final(t)) == tree_routes(*old(t)).push((route@, value)),
{
    let _ = t.insert(route, value);
}

/// Calls `PathTree::find(path)` and copies the value and the parameters out.
/// A value found is one that was inserted: the table stores only inserted
/// values.
#[verifier::external_body]
pub(crate) fn tree_find(t: &path_tree::PathTree<usize>, path: &str) -> (r: Option<(usize, Vec<(String, String)>)>)
    ensures
        match_view(r) == tree_match(tree_routes(*t), path@),
        r matches Some((v, _)) ==> exists|i: int| 0 <= i < tree_routes(*t).len() && #[trigger] tree_routes(*t)[i].1 == v,
{
    match t.find(path) {
        Some((value, found)) => Some((
            *value,
            found.params().iter().map(|(k, v)| (k.to_string(), v.to_string())).collect(),
        )),
        None => None,
    }
}

pub open spec fn params_view(ps: Seq<(String, String)>) -> Seq<(Seq<char>, Seq<char>)> {
    ps.map_values(|p: (String, String)| (p.0@, p.1@))
}

pub open spec fn match_view(r: Option<(usize, Vec<(String, String)>)>) -> Option<(usize, Seq<(Seq<char>, Seq<char>)>)> {
    match r {
        Some((v, ps)) => Some((v, params_view(ps@))),
        None => None,
    }
}

/// The text of a percent-encoded parameter after decoding, invalid UTF-8
/// replaced.
pub uninterp spec fn decoded_param(raw: Seq<char>) -> Seq<char>;

/// Calls `percent_decode_str(raw).decode_utf8_lossy()`. The result is named;
/// text without `%` is left as it is, since its bytes are kept and are valid
/// UTF-8.
#[verifier::external_body]
pub(crate) fn decode_param(raw: &str) -> (r: String)
    ensures
        r@ == decoded_param(raw@),
        !raw@.contains('%') ==> r@ == raw@,
{
    percent_encoding::percent_decode_str(raw).decode_utf8_lossy().to_string()
}

/// Parameters with their values decoded.
pub open spec fn decoded_params(ps: Seq<(Seq<char>, Seq<char>)>) -> Seq<(Seq<char>, Seq<char>)> {
    ps.map_values(|p: (Seq<char>, Seq<char>)| (p.0, decoded_param(p.1)))
}

/// The parameters of a match, names kept and values decoded.
pub fn decode_params(ps: &Vec<(String, String)>) -> (r: Vec<(String, String)>)
    ensures
        params_view(r@) == decoded_params(params_view(ps@)),
        params_view(r@).len() == params_view(ps@).len(),
        forall|i: int| 0 <= i < params_view(ps@).len() && !(#[trigger] params_view(ps@)[i]).1.contains('%')
            ==> params_view(r@)[i].1 == params_view(ps@)[i].1,
{
    let mut r: Vec<(String, String)> = Vec::new();
    let mut i: usize = 0;
    while i < ps.len()
        invariant
            i <= ps@.len(),
            params_view(r@) == decoded_params(params_view(ps@.subrange(0, i as int))),
            r@.len() == i,
            forall|j: int| 0 <= j < i && !(#[trigger] ps@[j]).1@.contains('%') ==> r@[j].1@ == ps@[j].1@,
        decreases ps@.len() - i,
    {
        let p = &ps[i];
        let k = p.0.clone();
        let v = decode_param(p.1.as_str());
        let ghost prev = r@;
        r.push((k, v));
        i = i + 1;
        assert(params_view(ps@.subrange(0, i as int)) =~= params_view(ps@.subrange(0, i - 1)).push((p.0@, p.1@)));
        assert(params_view(r@) =~= params_view(prev).push((p.0@, decoded_param(p.1@))));
        assert(params_view(r@) =~= decoded_params(params_view(ps@.subrange(0, i as int))));
    }
    assert(ps@.subrange(0, i as int) =~= ps@);
    assert forall|k: int| 0 <= k < params_view(ps@).len() && !(#[trigger] params_view(ps@)[k]).1.contains('%')
        implies params_view(r@)[k].1 == params_view(ps@)[k].1 by {
        assert(ps@[k].1@ == params_view(ps@)[k].1);
    }
    r
}

} // verus!
