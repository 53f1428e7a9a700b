//! A router without context or middleware, with a fallback handler: routes
//! per method and the decision of which handler answers a request.
use vstd::prelude::*;
use crate::request::Method;
use crate::routes::{tree_routes, tree_match, tree_new, tree_insert, tree_find, decode_params, decoded_params, params_view};

verus! {

/// The number of route tables: one for any method, then GET, POST, PUT,
/// PATCH, DELETE, HEAD and CONNECT.
pub open spec fn table_count() -> nat {
    8
}

/// The table a method's requests are looked up in first; other methods use
/// table 0, the routes for any method.
pub open spec fn mux_table_for(m: Method) -> int {
    match m {
        Method::Get => 1,
        Method::Post => 2,
        Method::Put => 3,
        Method::Patch => 4,
        Method::Delete => 5,
        Method::Head => 6,
        Method::Connect => 7,
        _ => 0,
    }
}

/// Which handler answers a request.
pub enum MuxDispatch {
    /// Handler `index` answers with these decoded parameters.
    Route { index: usize, params: Vec<(String, String)> },
    /// The fallback handler answers.
    Fallback,
    /// Answer 404.
    NotFound,
}

pub enum MuxDispatchView {
    Route { index: usize, params: Seq<(Seq<char>, Seq<char>)> },
    Fallback,
    NotFound,
}

impl MuxDispatch {
    pub open spec fn view(self) -> MuxDispatchView {
        match self {
            MuxDispatch::Route { index, params } => MuxDispatchView::Route { index, params: params_view(params@) },
            MuxDispatch::Fallback => MuxDispatchView::Fallback,
            MuxDispatch::NotFound => MuxDispatchView::NotFound,
        }
    }
}

/// A match in the method's table, else in the table for any method, else
/// the fallback if there is one, else nothing.
pub open spec fn spec_mux_dispatch(
    first: Seq<(Seq<char>, usize)>,
    any: Seq<(Seq<char>, usize)>,
    path: Seq<char>,
    has_fallback: bool,
) -> MuxDispatchView {
    match tree_match(first, path) {
        Some((i, ps)) => MuxDispatchView::Route { index: i, params: decoded_params(ps) },
        None => match tree_match(any, path) {
            Some((i, ps)) => MuxDispatchView::Route { index: i, params: decoded_params(ps) },
            None => if has_fallback { MuxDispatchView::Fallback } else { MuxDispatchView::NotFound },
        },
    }
}

/// Handlers `H` by route.
pub struct Router<H> {
    tables: Vec<path_tree::PathTree<usize>>,
    handlers: Vec<H>,
    fallback: Option<H>,
}

impl<H> Router<H> {
    pub closed spec fn table(&self, t: int) -> Seq<(Seq<char>, usize)> {
        tree_routes(self.tables@[t])
    }

    pub closed spec fn handler_count(&self) -> nat {
        self.handlers@.len()
    }

    pub closed spec fn spec_handler(&self, i: int) -> H {
        self.handlers@[i]
    }

    pub closed spec fn spec_fallback(&self) -> Option<H> {
        self.fallback
    }

    pub closed spec fn wf(&self) -> bool {
        &&& self.tables@.len() == table_count()
        &&& forall|t: int, i: int| 0 <= t < table_count() && 0 <= i < self.table(t).len() ==> (#[trigger] self.table(t)[i]).1 < self.handlers@.len()
    }

    /// A router with no routes and no fallback.
    pub fn new() -> (r: Self)
        ensures
            r.wf(),
            r.handler_count() == 0,
            r.spec_fallback() is None,
            forall|t: int| 0 <= t < table_count() ==> #[trigger] r.table(t) == Seq::<(Seq<char>, usize)>::empty(),
    {
        let mut tables: Vec<path_tree::PathTree<usize>> = Vec::new();
        let mut k: usize = 0;
        while k < 8
            invariant
                k <= 8,
                tables@.len() == k,
                forall|t: int| 0 <= t < k ==> #[trigger] tree_routes(tables@[t]) == Seq::<(Seq<char>, usize)>::empty(),
            decreases 8 - k,
        {
            tables.push(tree_new());
            k = k + 1;
        }
        Router { tables, handlers: Vec::new(), fallback: None }
    }

    /// Sets the handler for requests that no route matches.
    pub fn not_found(&mut self, handler: H)
        requires
            old(self).wf(),
        ensures
            final(self).wf(),
            final(self).spec_fallback() == Some(handler),
            final(self).handler_count() == old(self).handler_count(),
            forall|i: int| 0 <= i < old(self).handler_count() ==> #[trigger] final(self).spec_handler(i) == old(self).spec_handler(i),
            forall|t: int| 0 <= t < table_count() ==> #[trigger] final(self).table(t) == old(self).table(t),
    {
        self.fallback = Some(handler);
        assert forall|u: int, i: int| 0 <= u < table_count() && 0 <= i < self.table(u).len() implies (#[trigger] self.table(u)[i]).1 < self.handlers@.len() by {
            assert(self.table(u) == old(self).table(u));
        }
    }

    fn add(&mut self, t: usize, route: &str, handler: H)
        requires
            old(self).wf(),
            t < table_count(),
        ensures
            final(self).wf(),
            final(self).handler_count() == old(self).handler_count() + 1,
            final(self).spec_handler(old(self).handler_count() as int) == handler,
            forall|i: int| 0 <= i < old(self).handler_count() ==> #[trigger] final(self).spec_handler(i) == old(self).spec_handler(i),
            final(self).table(t as int) == old(self).table(t as int).push((route@, old(self).handler_count() as usize)),
            forall|u: int| 0 <= u < table_count() && u != t ==> #[trigger] final(self).table(u) == old(self).table(u),
            final(self).spec_fallback() == old(self).spec_fallback(),
    {
        let index = self.handlers.len();
        self.handlers.push(handler);
        let mut tree = tree_new();
        std::mem::swap(&mut tree, &mut self.tables[t]);
        tree_insert(&mut tree, route, index);
        std::mem::swap(&mut tree, &mut self.tables[t]);
        assert forall|u: int, i: int| 0 <= u < table_count() && 0 <= i < self.table(u).len() implies (#[trigger] self.table(u)[i]).1 < self.handlers@.len() by {
            if u != t {
                assert(self.table(u) == old(self).table(u));
            } else if i < old(self).table(u).len() {
                assert(self.table(u)[i] == old(self).table(u)[i]);
            }
        }
    }

    /// Adds a handler for GET requests to `route`; a later handler for the
    /// same pattern replaces it.
    pub fn get(&mut self, route: &str, handler: H)
        requires
            old(self).wf(),
        ensures
            final(self).wf(),
            final(self).handler_count() == old(self).handler_count() + 1,
            final(self).spec_handler(old(self).handler_count() as int) == handler,
            forall|i: int| 0 <= i < old(self).handler_count() ==> #[trigger] final(self).spec_handler(i) == old(self).spec_handler(i),
            final(self).table(1) == old(self).table(1).push((route@, old(self).handler_count() as usize)),
            forall|u: int| 0 <= u < table_count() && u != 1 ==> #[trigger] final(self).table(u) == old(self).table(u),
            final(self).spec_fallback() == old(self).spec_fallback(),
    {
        self.add(1, route, handler);
    }

    /// Adds a handler for POST requests to `route`; a later handler for the
    /// same pattern replaces it.
    pub fn post(&mut self, route: &str, handler: H)
        requires
            old(self).wf(),
        ensures
            final(self).wf(),
            final(self).handler_count() == old(self).handler_count() + 1,
            final(self).spec_handler(old(self).handler_count() as int) == handler,
            forall|i: int| 0 <= i < old(self).handler_count() ==> #[trigger] final(self).spec_handler(i) == old(self).spec_handler(i),
            final(self).table(2) == old(self).table(2).push((route@, old(self).handler_count() as usize)),
            forall|u: int| 0 <= u < table_count() && u != 2 ==> #[trigger] final(self).table(u) == old(self).table(u),
            final(self).spec_fallback() == old(self).spec_fallback(),
    {
        self.add(2, route, handler);
    }

    /// Adds a handler for PUT requests to `route`; a later handler for the
    /// same pattern replaces it.
    pub fn put(&mut self, route: &str, handler: H)
        requires
            old(self).wf(),
        ensures
            final(self).wf(),
            final(self).handler_count() == old(self).handler_count() + 1,
            final(self).spec_handler(old(self).handler_count() as int) == handler,
            forall|i: int| 0 <= i < old(self).handler_count() ==> #[trigger] final(self).spec_handler(i) == old(self).spec_handler(i),
            final(self).table(3) == old(self).table(3).push((route@, old(self).handler_count() as usize)),
            forall|u: int| 0 <= u < table_count() && u != 3 ==> #[trigger] final(self).table(u) == old(self).table(u),
            final(self).spec_fallback() == old(self).spec_fallback(),
    {
        self.add(3, route, handler);
    }

    /// Adds a handler for PATCH requests to `route`; a later handler for the
    /// same pattern replaces it.
    pub fn patch(&mut self, route: &str, handler: H)
        requires
            old(self).wf(),
        ensures
            final(self).wf(),
            final(self).handler_count() == old(self).handler_count() + 1,
            final(self).spec_handler(old(self).handler_count() as int) == handler,
            forall|i: int| 0 <= i < old(self).handler_count() ==> #[trigger] final(self).spec_handler(i) == old(self).spec_handler(i),
            final(self).table(4) == old(self).table(4).push((route@, old(self).handler_count() as usize)),
            forall|u: int| 0 <= u < table_count() && u != 4 ==> #[trigger] final(self).table(u) == old(self).table(u),
            final(self).spec_fallback() == old(self).spec_fallback(),
    {
        self.add(4, route, handler);
    }

    /// Adds a handler for DELETE requests to `route`; a later handler for the
    /// same pattern replaces it.
    pub fn delete(&mut self, route: &str, handler: H)
        requires
            old(self).wf(),
        ensures
            final(self).wf(),
            final(self).handler_count() == old(self).handler_count() + 1,
            final(self).spec_handler(old(self).handler_count() as int) == handler,
            forall|i: int| 0 <= i < old(self).handler_count() ==> #[trigger] final(self).spec_handler(i) == old(self).spec_handler(i),
            final(self).table(5) == old(self).table(5).push((route@, old(self).handler_count() as usize)),
            forall|u: int| 0 <= u < table_count() && u != 5 ==> #[trigger] final(self).table(u) == old(self).table(u),
            final(self).spec_fallback() == old(self).spec_fallback(),
    {
        self.add(5, route, handler);
    }

    /// Adds a handler for HEAD requests to `route`; a later handler for the
    /// same pattern replaces it.
    pub fn head(&mut self, route: &str, handler: H)
        requires
            old(self).wf(),
        ensures
            final(self).wf(),
            final(self).handler_count() == old(self).handler_count() + 1,
            final(self).spec_handler(old(self).handler_count() as int) == handler,
            forall|i: int| 0 <= i < old(self).handler_count() ==> #[trigger] final(self).spec_handler(i) == old(self).spec_handler(i),
            final(self).table(6) == old(self).table(6).push((route@, old(self).handler_count() as usize)),
            forall|u: int| 0 <= u < table_count() && u != 6 ==> #[trigger] final(self).table(u) == old(self).table(u),
            final(self).spec_fallback() == old(self).spec_fallback(),
    {
        self.add(6, route, handler);
    }

    /// Adds a handler for CONNECT requests to `route`; a later handler for the
    /// same pattern replaces it.
    pub fn connect(&mut self, route: &str, handler: H)
        requires
            old(self).wf(),
        ensures
            final(self).wf(),
            final(self).handler_count() == old(self).handler_count() + 1,
            final(self).spec_handler(old(self).handler_count() as int) == handler,
            forall|i: int| 0 <= i < old(self).handler_count() ==> #[trigger] final(self).spec_handler(i) == old(self).spec_handler(i),
            final(self).table(7) == old(self).table(7).push((route@, old(self).handler_count() as usize)),
            forall|u: int| 0 <= u < table_count() && u != 7 ==> #[trigger] final(self).table(u) == old(self).table(u),
            final(self).spec_fallback() == old(self).spec_fallback(),
    {
        self.add(7, route, handler);
    }

    /// The handler with number `index`.
    pub fn handler_at(&self, index: usize) -> (r: &H)
        requires
            index < self.handler_count(),
        ensures
            *r == self.spec_handler(index as int),
    {
        &self.handlers[index]
    }

    /// The fallback handler.
    pub fn fallback(&self) -> (r: &Option<H>)
        ensures
            *r == self.spec_fallback(),
    {
        &self.fallback
    }

    fn find_in(&self, t: usize, path: &str) -> (r: Option<(usize, Vec<(String, String)>)>)
        requires
            self.wf(),
            t < table_count(),
        ensures
            crate::routes::match_view(r) == tree_match(self.table(t as int), path@),
            r matches Some((i, _)) ==> i < self.handler_count(),
    {
        let r = tree_find(&self.tables[t], path);
        proof {
            if r is Some {
                let v = r.unwrap().0;
                let i = choose|i: int| 0 <= i < self.table(t as int).len() && #[trigger] self.table(t as int)[i].1 == v;
                assert(self.table(t as int)[i].1 < self.handlers@.len());
            }
        }
        r
    }

    /// Which handler answers a `method` request for `path`.
    pub fn dispatch(&self, method: &Method, path: &str) -> (r: MuxDispatch)
        requires
            self.wf(),
        ensures
            r.view() == spec_mux_dispatch(self.table(mux_table_for(*method)), self.table(0), path@, self.spec_fallback() is Some),
            r matches MuxDispatch::Route { index, .. } ==> index < self.handler_count(),
            r matches MuxDispatch::Route { params, .. } ==> ({
                let m = if tree_match(self.table(mux_table_for(*method)), path@) is Some {
                    tree_match(self.table(mux_table_for(*method)), path@)
                } else {
                    tree_match(self.table(0), path@)
                };
                &&& m is Some
                &&& params_view(params@).len() == m.unwrap().1.len()
                &&& forall|i: int| 0 <= i < m.unwrap().1.len() && !(#[trigger] m.unwrap().1[i]).1.contains('%')
                    ==> params_view(params@)[i].1 == m.unwrap().1[i].1
            }),
    {
        let t: usize = match method {
            Method::Get => 1,
            Method::Post => 2,
            Method::Put => 3,
            Method::Patch => 4,
            Method::Delete => 5,
            Method::Head => 6,
            Method::Connect => 7,
            _ => 0,
        };
        match self.find_in(t, path) {
            Some((index, raw)) => MuxDispatch::Route { index, params: decode_params(&raw) },
            None => match self.find_in(0, path) {
                Some((index, raw)) => MuxDispatch::Route { index, params: decode_params(&raw) },
                None => if self.fallback.is_some() { MuxDispatch::Fallback } else { MuxDispatch::NotFound },
            },
        }
    }
}

/// With no match anywhere, the fallback answers when one is set.
pub proof fn law_fallback_answers_unmatched(
    first: Seq<(Seq<char>, usize)>,
    any: Seq<(Seq<char>, usize)>,
    path: Seq<char>,
)
    requires
        tree_match(first, path) is None,
        tree_match(any, path) is None,
    ensures
        spec_mux_dispatch(first, any, path, true) is Fallback,
        spec_mux_dispatch(first, any, path, false) is NotFound,
{
}

/// Each of GET, POST, PUT, PATCH, DELETE, HEAD and CONNECT is looked up
/// first in its own table, and every other method only in the table for any
/// method.
pub proof fn law_mux_table_of_method(m: Method)
    ensures
        mux_table_for(m) == 1 <==> m is Get,
        mux_table_for(m) == 2 <==> m is Post,
        mux_table_for(m) == 3 <==> m is Put,
        mux_table_for(m) == 4 <==> m is Patch,
        mux_table_for(m) == 5 <==> m is Delete,
        mux_table_for(m) == 6 <==> m is Head,
        mux_table_for(m) == 7 <==> m is Connect,
        !(m is Get || m is Post || m is Put || m is Patch || m is Delete || m is Head || m is Connect) ==> mux_table_for(m) == 0,
{
}

/// Route parameters are percent-decoded whichever table matched.
pub proof fn law_mux_parameters_always_decoded(
    first: Seq<(Seq<char>, usize)>,
    any: Seq<(Seq<char>, usize)>,
    path: Seq<char>,
    has_fallback: bool,
)
    ensures
        tree_match(first, path) is Some ==> spec_mux_dispatch(first, any, path, has_fallback) == (MuxDispatchView::Route {
            index: tree_match(first, path).unwrap().0,
            params: decoded_params(tree_match(first, path).unwrap().1),
        }),
        tree_match(first, path) is None && tree_match(any, path) is Some ==> spec_mux_dispatch(first, any, path, has_fallback) == (MuxDispatchView::Route {
            index: tree_match(any, path).unwrap().0,
            params: decoded_params(tree_match(any, path).unwrap().1),
        }),
{
}

} // verus!
