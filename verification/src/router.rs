//! A router with a shared context: routes per method, middleware for all
//! routes and per route, and the decision of which route answers a request.
//!
//! Handlers `H` and middleware `M` are opaque here: the router keeps them
//! in a table and decides which to run; the server runs them.
use vstd::prelude::*;
use crate::request::Method;
use crate::routes::{
    tree_routes, tree_match, tree_new, tree_insert, tree_find, decode_params, decoded_params,
    params_view,
};

verus! {

/// The route tables a request can be looked up in.
#[derive(Clone, Copy, Debug, PartialEq, Eq, Structural)]
pub enum Table {
    Any,
    Get,
    Post,
    Put,
    Patch,
    Delete,
}

/// The table a method's requests are looked up in first: other methods use
/// the table of routes for any method.
pub open spec fn table_for(m: Method) -> Table {
    match m {
        Method::Get => Table::Get,
        Method::Post => Table::Post,
        Method::Put => Table::Put,
        Method::Patch => Table::Patch,
        Method::Delete => Table::Delete,
        _ => Table::Any,
    }
}

/// A handler with the middleware that runs before it.
pub struct Route<H, M> {
    pub middleware: Vec<M>,
    pub handler: H,
}

/// Which route answers a request.
pub enum Dispatch {
    /// Route `index` answers with these decoded parameters. When
    /// `params_first` holds, the parameters are set on the request before
    /// the route's middleware runs; otherwise after it.
    Route { index: usize, params: Vec<(String, String)>, params_first: bool },
    /// No route matches: answer 404.
    NotFound,
}

pub enum DispatchView {
    Route { index: usize, params: Seq<(Seq<char>, Seq<char>)>, params_first: bool },
    NotFound,
}

impl Dispatch {
    pub open spec fn view(self) -> DispatchView {
        match self {
            Dispatch::Route { index, params, params_first } => DispatchView::Route { index, params: params_view(params@), params_first },
            Dispatch::NotFound => DispatchView::NotFound,
        }
    }
}

/// The route that answers a request for `path` first looked up in `first`:
/// a match there, else a match among the routes for any method with its
/// parameters set first, else none.
pub open spec fn spec_dispatch(
    first: Seq<(Seq<char>, usize)>,
    any: Seq<(Seq<char>, usize)>,
    path: Seq<char>,
) -> DispatchView {
    match tree_match(first, path) {
        Some((i, ps)) => DispatchView::Route { index: i, params: decoded_params(ps), params_first: false },
        None => match tree_match(any, path) {
            Some((i, ps)) => DispatchView::Route { index: i, params: decoded_params(ps), params_first: true },
            None => DispatchView::NotFound,
        },
    }
}

/// Routes added through it run its middleware, in order, before the handler.
pub struct RouteBuilder<M> {
    pub middleware: Vec<M>,
}

/// Routes added through it have no middleware.
pub struct RouteBuilderNc {}

/// The routes of a request router with context `T`.
pub struct Router<T, H, M> {
    middleware: Vec<M>,
    routes: Vec<Route<H, M>>,
    any_routes: path_tree::PathTree<usize>,
    get_routes: path_tree::PathTree<usize>,
    post_routes: path_tree::PathTree<usize>,
    put_routes: path_tree::PathTree<usize>,
    patch_routes: path_tree::PathTree<usize>,
    delete_routes: path_tree::PathTree<usize>,
    context: T,
}

/// Every value in the table names a stored route.
pub open spec fn indices_below(t: Seq<(Seq<char>, usize)>, n: nat) -> bool {
    forall|i: int| 0 <= i < t.len() ==> (#[trigger] t[i]).1 < n
}

impl<T, H, M> Router<T, H, M> {
    /// The insertions made into table `t`.
    pub closed spec fn table(&self, t: Table) -> Seq<(Seq<char>, usize)> {
        match t {
            Table::Any => tree_routes(self.any_routes),
            Table::Get => tree_routes(self.get_routes),
            Table::Post => tree_routes(self.post_routes),
            Table::Put => tree_routes(self.put_routes),
            Table::Patch => tree_routes(self.patch_routes),
            Table::Delete => tree_routes(self.delete_routes),
        }
    }

    pub closed spec fn route_count(&self) -> nat {
        self.routes@.len()
    }

    pub closed spec fn spec_route(&self, i: int) -> Route<H, M> {
        self.routes@[i]
    }

    pub closed spec fn spec_middleware(&self) -> Seq<M> {
        self.middleware@
    }

    pub closed spec fn spec_context(&self) -> T {
        self.context
    }

    /// Every table names only stored routes.
    pub open spec fn wf(&self) -> bool {
        &&& indices_below(self.table(Table::Any), self.route_count())
        &&& indices_below(self.table(Table::Get), self.route_count())
        &&& indices_below(self.table(Table::Post), self.route_count())
        &&& indices_below(self.table(Table::Put), self.route_count())
        &&& indices_below(self.table(Table::Patch), self.route_count())
        &&& indices_below(self.table(Table::Delete), self.route_count())
    }

    /// A router with no routes and no middleware.
    pub fn new(context: T) -> (r: Self)
        ensures
            r.wf(),
            r.spec_context() == context,
            r.route_count() == 0,
            r.spec_middleware() == Seq::<M>::empty(),
            forall|t: Table| #[trigger] r.table(t) == Seq::<(Seq<char>, usize)>::empty(),
    {
        Router {
            middleware: Vec::new(),
            routes: Vec::new(),
            any_routes: tree_new(),
            get_routes: tree_new(),
            post_routes: tree_new(),
            put_routes: tree_new(),
            patch_routes: tree_new(),
            delete_routes: tree_new(),
            context,
        }
    }

    /// Adds middleware that runs before every route, after the middleware
    /// added before it.
    pub fn with_all(&mut self, middleware: M)
        requires
            old(self).wf(),
        ensures
            final(self).wf(),
            final(self).spec_middleware() == old(self).spec_middleware().push(middleware),
            forall|t: Table| #[trigger] final(self).table(t) == old(self).table(t),
            final(self).route_count() == old(self).route_count(),
            forall|i: int| 0 <= i < old(self).route_count() ==> #[trigger] final(self).spec_route(i) == old(self).spec_route(i),
            final(self).spec_context() == old(self).spec_context(),
    {
        self.middleware.push(middleware);
    }

    /// Starts routes that `middleware` runs before.
    pub fn with(&mut self, middleware: M) -> (r: RouteBuilder<M>)
        ensures
            r.middleware@ == seq![middleware],
            *final(self) == *old(self),
    {
        RouteBuilder { middleware: vec![middleware] }
    }

    /// Starts routes whose handlers do not take the context.
    pub fn without_context(&mut self) -> (r: RouteBuilderNc)
        ensures
            *final(self) == *old(self),
    {
        RouteBuilderNc {}
    }

    /// Stores `route` and adds `pattern` for it to each table in `tables`.
    fn add_route(&mut self, tables: &[Table], pattern: &str, route: Route<H, M>)
        requires
            old(self).wf(),
        ensures
            final(self).wf(),
            final(self).route_count() == old(self).route_count() + 1,
            final(self).spec_route(old(self).route_count() as int) == route,
            forall|i: int| 0 <= i < old(self).route_count() ==> #[trigger] final(self).spec_route(i) == old(self).spec_route(i),
            forall|t: Table| #[trigger] final(self).table(t) == if tables@.contains(t) {
                old(self).table(t).push((pattern@, old(self).route_count() as usize))
            } else {
                old(self).table(t)
            },
            final(self).spec_middleware() == old(self).spec_middleware(),
            final(self).spec_context() == old(self).spec_context(),
    {
        let index = self.routes.len();
        self.routes.push(route);
        let ghost n = self.routes@.len();
        let ghost before = *old(self);
        let mut k: usize = 0;
        while k < tables.len()
            invariant
                k <= tables@.len(),
                index == before.route_count(),
                self.routes@ == before.routes@.push(route),
                self.middleware == before.middleware,
                self.context == before.context,
                before.wf(),
                forall|t: Table| #[trigger] self.table(t) == if tables@.subrange(0, k as int).contains(t) {
                    before.table(t).push((pattern@, index))
                } else {
                    before.table(t)
                },
            decreases tables@.len() - k,
        {
            let t = tables[k];
            let ghost prev = *self;
            let present = self.has_table(tables, k, t);
            if !present {
                match t {
                    Table::Any => tree_insert(&mut self.any_routes, pattern, index),
                    Table::Get => tree_insert(&mut self.get_routes, pattern, index),
                    Table::Post => tree_insert(&mut self.post_routes, pattern, index),
                    Table::Put => tree_insert(&mut self.put_routes, pattern, index),
                    Table::Patch => tree_insert(&mut self.patch_routes, pattern, index),
                    Table::Delete => tree_insert(&mut self.delete_routes, pattern, index),
                }
            }
            proof {
                assert forall|u: Table| u != t implies #[trigger] self.table(u) == prev.table(u) by {
                    match u {
                        Table::Any => {},
                        Table::Get => {},
                        Table::Post => {},
                        Table::Put => {},
                        Table::Patch => {},
                        Table::Delete => {},
                    }
                }
                if present {
                    assert(self.table(t) == prev.table(t));
                } else {
                    assert(self.table(t) == prev.table(t).push((pattern@, index)));
                }
            }
            k = k + 1;
            assert forall|u: Table| #[trigger] self.table(u) == if tables@.subrange(0, k as int).contains(u) {
                before.table(u).push((pattern@, index))
            } else {
                before.table(u)
            } by {
                assert(tables@.subrange(0, k as int) =~= tables@.subrange(0, k - 1).push(t));
                if u != t {
                    assert(tables@.subrange(0, k as int).contains(u) == tables@.subrange(0, k - 1).contains(u)) by {
                        if tables@.subrange(0, k as int).contains(u) {
                            let j = choose|j: int| 0 <= j < k && tables@.subrange(0, k as int)[j] == u;
                            assert(tables@.subrange(0, k - 1)[j] == u);
                        }
                    }
                } else {
                    assert(tables@.subrange(0, k as int)[k - 1] == t);
                }
            }
        }
        assert(tables@.subrange(0, k as int) =~= tables@);
        assert(self.wf()) by {
            assert forall|u: Table| indices_below(#[trigger] self.table(u), self.route_count()) by {
                if tables@.contains(u) {
                    assert(indices_below(before.table(u), before.route_count()));
                }
                else {
                    assert(indices_below(before.table(u), before.route_count()));
                }
            }
        }
    }

    /// Whether `t` occurs among the first `k` of `tables`.
    fn has_table(&self, tables: &[Table], k: usize, t: Table) -> (r: bool)
        requires
            k <= tables@.len(),
        ensures
            r == tables@.subrange(0, k as int).contains(t),
    {
        let mut j: usize = 0;
        while j < k
            invariant
                k <= tables@.len(),
                j <= k,
                forall|i: int| 0 <= i < j ==> tables@[i] != t,
            decreases k - j,
        {
            if tables[j] == t {
                assert(tables@.subrange(0, k as int)[j as int] == t);
                return true;
            }
            j = j + 1;
        }
        assert forall|i: int| 0 <= i < k implies tables@.subrange(0, k as int)[i] != t by {
            assert(tables@.subrange(0, k as int)[i] == tables@[i]);
        }
        false
    }

    /// Adds a route for GET requests to `route`, with no middleware of its
    /// own. A later route with the same pattern replaces it.
    pub fn get(&mut self, route: &str, handler: H)
        requires
            old(self).wf(),
        ensures
            final(self).wf(),
            final(self).route_count() == old(self).route_count() + 1,
            final(self).spec_route(old(self).route_count() as int).handler == handler,
            final(self).spec_route(old(self).route_count() as int).middleware@ == Seq::<M>::empty(),
            forall|i: int| 0 <= i < old(self).route_count() ==> #[trigger] final(self).spec_route(i) == old(self).spec_route(i),
            final(self).table(Table::Get) == old(self).table(Table::Get).push((route@, old(self).route_count() as usize)),
            forall|t: Table| t != Table::Get ==> #[trigger] final(self).table(t) == old(self).table(t),
            final(self).spec_middleware() == old(self).spec_middleware(),
            final(self).spec_context() == old(self).spec_context(),
    {
        let tables = [Table::Get];
        proof {
            assert(tables@.contains(Table::Get));
        }
        self.add_route(&tables, route, Route { middleware: Vec::new(), handler });
        assert forall|t: Table| t != Table::Get implies !tables@.contains(t) by {
            if tables@.contains(t) {
                let j = choose|j: int| 0 <= j < tables@.len() && tables@[j] == t;
            }
        }
    }

    /// Adds a route for POST requests to `route`, with no middleware of its
    /// own. A later route with the same pattern replaces it.
    pub fn post(&mut self, route: &str, handler: H)
        requires
            old(self).wf(),
        ensures
            final(self).wf(),
            final(self).route_count() == old(self).route_count() + 1,
            final(self).spec_route(old(self).route_count() as int).handler == handler,
            final(self).spec_route(old(self).route_count() as int).middleware@ == Seq::<M>::empty(),
            forall|i: int| 0 <= i < old(self).route_count() ==> #[trigger] final(self).spec_route(i) == old(self).spec_route(i),
            final(self).table(Table::Post) == old(self).table(Table::Post).push((route@, old(self).route_count() as usize)),
            forall|t: Table| t != Table::Post ==> #[trigger] final(self).table(t) == old(self).table(t),
            final(self).spec_middleware() == old(self).spec_middleware(),
            final(self).spec_context() == old(self).spec_context(),
    {
        let tables = [Table::Post];
        proof {
            assert(tables@.contains(Table::Post));
        }
        self.add_route(&tables, route, Route { middleware: Vec::new(), handler });
        assert forall|t: Table| t != Table::Post implies !tables@.contains(t) by {
            if tables@.contains(t) {
                let j = choose|j: int| 0 <= j < tables@.len() && tables@[j] == t;
            }
        }
    }

    /// Adds a route for PUT requests to `route`, with no middleware of its
    /// own. A later route with the same pattern replaces it.
    pub fn put(&mut self, route: &str, handler: H)
        requires
            old(self).wf(),
        ensures
            final(self).wf(),
            final(self).route_count() == old(self).route_count() + 1,
            final(self).spec_route(old(self).route_count() as int).handler == handler,
            final(self).spec_route(old(self).route_count() as int).middleware@ == Seq::<M>::empty(),
            forall|i: int| 0 <= i < old(self).route_count() ==> #[trigger] final(self).spec_route(i) == old(self).spec_route(i),
            final(self).table(Table::Put) == old(self).table(Table::Put).push((route@, old(self).route_count() as usize)),
            forall|t: Table| t != Table::Put ==> #[trigger] final(self).table(t) == old(self).table(t),
            final(self).spec_middleware() == old(self).spec_middleware(),
            final(self).spec_context() == old(self).spec_context(),
    {
        let tables = [Table::Put];
        proof {
            assert(tables@.contains(Table::Put));
        }
        self.add_route(&tables, route, Route { middleware: Vec::new(), handler });
        assert forall|t: Table| t != Table::Put implies !tables@.contains(t) by {
            if tables@.contains(t) {
                let j = choose|j: int| 0 <= j < tables@.len() && tables@[j] == t;
            }
        }
    }

    /// Adds a route for PATCH requests to `route`, with no middleware of its
    /// own. A later route with the same pattern replaces it.
    pub fn patch(&mut self, route: &str, handler: H)
        requires
            old(self).wf(),
        ensures
            final(self).wf(),
            final(self).route_count() == old(self).route_count() + 1,
            final(self).spec_route(old(self).route_count() as int).handler == handler,
            final(self).spec_route(old(self).route_count() as int).middleware@ == Seq::<M>::empty(),
            forall|i: int| 0 <= i < old(self).route_count() ==> #[trigger] final(self).spec_route(i) == old(self).spec_route(i),
            final(self).table(Table::Patch) == old(self).table(Table::Patch).push((route@, old(self).route_count() as usize)),
            forall|t: Table| t != Table::Patch ==> #[trigger] final(self).table(t) == old(self).table(t),
            final(self).spec_middleware() == old(self).spec_middleware(),
            final(self).spec_context() == old(self).spec_context(),
    {
        let tables = [Table::Patch];
        proof {
            assert(tables@.contains(Table::Patch));
        }
        self.add_route(&tables, route, Route { middleware: Vec::new(), handler });
        assert forall|t: Table| t != Table::Patch implies !tables@.contains(t) by {
            if tables@.contains(t) {
                let j = choose|j: int| 0 <= j < tables@.len() && tables@[j] == t;
            }
        }
    }

    /// Adds a route for DELETE requests to `route`, with no middleware of its
    /// own. A later route with the same pattern replaces it.
    pub fn delete(&mut self, route: &str, handler: H)
        requires
            old(self).wf(),
        ensures
            final(self).wf(),
            final(self).route_count() == old(self).route_count() + 1,
            final(self).spec_route(old(self).route_count() as int).handler == handler,
            final(self).spec_route(old(self).route_count() as int).middleware@ == Seq::<M>::empty(),
            forall|i: int| 0 <= i < old(self).route_count() ==> #[trigger] final(self).spec_route(i) == old(self).spec_route(i),
            final(self).table(Table::Delete) == old(self).table(Table::Delete).push((route@, old(self).route_count() as usize)),
            forall|t: Table| t != Table::Delete ==> #[trigger] final(self).table(t) == old(self).table(t),
            final(self).spec_middleware() == old(self).spec_middleware(),
            final(self).spec_context() == old(self).spec_context(),
    {
        let tables = [Table::Delete];
        proof {
            assert(tables@.contains(Table::Delete));
        }
        self.add_route(&tables, route, Route { middleware: Vec::new(), handler });
        assert forall|t: Table| t != Table::Delete implies !tables@.contains(t) by {
            if tables@.contains(t) {
                let j = choose|j: int| 0 <= j < tables@.len() && tables@[j] == t;
            }
        }
    }

    /// Adds a route for any method requests to `route`, with no middleware of its
    /// own. A later route with the same pattern replaces it.
    pub fn any(&mut self, route: &str, handler: H)
        requires
            old(self).wf(),
        ensures
            final(self).wf(),
            final(self).route_count() == old(self).route_count() + 1,
            final(self).spec_route(old(self).route_count() as int).handler == handler,
            final(self).spec_route(old(self).route_count() as int).middleware@ == Seq::<M>::empty(),
            forall|i: int| 0 <= i < old(self).route_count() ==> #[trigger] final(self).spec_route(i) == old(self).spec_route(i),
            final(self).table(Table::Any) == old(self).table(Table::Any).push((route@, old(self).route_count() as usize)),
            forall|t: Table| t != Table::Any ==> #[trigger] final(self).table(t) == old(self).table(t),
            final(self).spec_middleware() == old(self).spec_middleware(),
            final(self).spec_context() == old(self).spec_context(),
    {
        let tables = [Table::Any];
        proof {
            assert(tables@.contains(Table::Any));
        }
        self.add_route(&tables, route, Route { middleware: Vec::new(), handler });
        assert forall|t: Table| t != Table::Any implies !tables@.contains(t) by {
            if tables@.contains(t) {
                let j = choose|j: int| 0 <= j < tables@.len() && tables@[j] == t;
            }
        }
    }

    /// The stored route `index`.
    pub fn route(&self, index: usize) -> (r: &Route<H, M>)
        requires
            index < self.route_count(),
        ensures
            *r == self.spec_route(index as int),
    {
        &self.routes[index]
    }

    /// The number of stored routes.
    pub fn route_len(&self) -> (r: usize)
        ensures
            r == self.route_count(),
    {
        self.routes.len()
    }

    /// The middleware that runs before every route, in order.
    pub fn middleware(&self) -> (r: &Vec<M>)
        ensures
            r@ == self.spec_middleware(),
    {
        &self.middleware
    }

    /// The context handed to middleware and handlers.
    pub fn context(&self) -> (r: &T)
        ensures
            *r == self.spec_context(),
    {
        &self.context
    }

    fn find_in(&self, t: Table, path: &str) -> (r: Option<(usize, Vec<(String, String)>)>)
        requires
            self.wf(),
        ensures
            crate::routes::match_view(r) == tree_match(self.table(t), path@),
            r matches Some((i, _)) ==> i < self.route_count(),
    {
        let r = match t {
            Table::Any => tree_find(&self.any_routes, path),
            Table::Get => tree_find(&self.get_routes, path),
            Table::Post => tree_find(&self.post_routes, path),
            Table::Put => tree_find(&self.put_routes, path),
            Table::Patch => tree_find(&self.patch_routes, path),
            Table::Delete => tree_find(&self.delete_routes, path),
        };
        proof {
            if r is Some {
                let v = r.unwrap().0;
                let i = choose|i: int| 0 <= i < self.table(t).len() && #[trigger] self.table(t)[i].1 == v;
                assert(indices_below(self.table(t), self.route_count()));
            }
        }
        r
    }

    /// Which route answers a `method` request for `path`: the method's own
    /// table, else the routes for any method, else none.
    pub fn dispatch(&self, method: &Method, path: &str) -> (r: Dispatch)
        requires
            self.wf(),
        ensures
            r.view() == spec_dispatch(self.table(table_for(*method)), self.table(Table::Any), path@),
            r matches Dispatch::Route { index, .. } ==> index < self.route_count(),
            r matches Dispatch::Route { params, params_first, .. } ==> ({
                let m = if params_first {
                    tree_match(self.table(Table::Any), path@)
                } else {
                    tree_match(self.table(table_for(*method)), path@)
                };
                &&& m is Some
                &&& params_view(params@).len() == m.unwrap().1.len()
                &&& forall|i: int| 0 <= i < m.unwrap().1.len() && !(#[trigger] m.unwrap().1[i]).1.contains('%')
                    ==> params_view(params@)[i].1 == m.unwrap().1[i].1
            }),
    {
        let t = match method {
            Method::Get => Table::Get,
            Method::Post => Table::Post,
            Method::Put => Table::Put,
            Method::Patch => Table::Patch,
            Method::Delete => Table::Delete,
            _ => Table::Any,
        };
        match self.find_in(t, path) {
            Some((index, raw)) => Dispatch::Route { index, params: decode_params(&raw), params_first: false },
            None => match self.find_in(Table::Any, path) {
                Some((index, raw)) => Dispatch::Route { index, params: decode_params(&raw), params_first: true },
                None => Dispatch::NotFound,
            },
        }
    }
}

impl<M> RouteBuilder<M> {
    /// Adds `middleware` after the builder's own.
    pub fn with(self, middleware: M) -> (r: Self)
        ensures
            r.middleware@ == self.middleware@.push(middleware),
    {
        let mut b = self;
        b.middleware.push(middleware);
        b
    }

    /// Adds a route for GET requests to `route` to `router`; the builder's
    /// middleware runs before `handler`.
    pub fn get<T, H>(self, router: &mut Router<T, H, M>, route: &str, handler: H)
        requires
            old(router).wf(),
        ensures
            final(router).wf(),
            final(router).route_count() == old(router).route_count() + 1,
            final(router).spec_route(old(router).route_count() as int).handler == handler,
            final(router).spec_route(old(router).route_count() as int).middleware@ == self.middleware@,
            forall|i: int| 0 <= i < old(router).route_count() ==> #[trigger] final(router).spec_route(i) == old(router).spec_route(i),
            final(router).table(Table::Get) == old(router).table(Table::Get).push((route@, old(router).route_count() as usize)),
            forall|t: Table| t != Table::Get ==> #[trigger] final(router).table(t) == old(router).table(t),
            final(router).spec_middleware() == old(router).spec_middleware(),
            final(router).spec_context() == old(router).spec_context(),
    {
        let tables = [Table::Get];
        proof {
            assert(tables@.contains(Table::Get));
        }
        router.add_route(&tables, route, Route { middleware: self.middleware, handler });
        assert forall|t: Table| t != Table::Get implies !tables@.contains(t) by {
            if tables@.contains(t) {
                let j = choose|j: int| 0 <= j < tables@.len() && tables@[j] == t;
            }
        }
    }

    /// Adds a route for POST requests to `route` to `router`; the builder's
    /// middleware runs before `handler`.
    pub fn post<T, H>(self, router: &mut Router<T, H, M>, route: &str, handler: H)
        requires
            old(router).wf(),
        ensures
            final(router).wf(),
            final(router).route_count() == old(router).route_count() + 1,
            final(router).spec_route(old(router).route_count() as int).handler == handler,
            final(router).spec_route(old(router).route_count() as int).middleware@ == self.middleware@,
            forall|i: int| 0 <= i < old(router).route_count() ==> #[trigger] final(router).spec_route(i) == old(router).spec_route(i),
            final(router).table(Table::Post) == old(router).table(Table::Post).push((route@, old(router).route_count() as usize)),
            forall|t: Table| t != Table::Post ==> #[trigger] final(router).table(t) == old(router).table(t),
            final(router).spec_middleware() == old(router).spec_middleware(),
            final(router).spec_context() == old(router).spec_context(),
    {
        let tables = [Table::Post];
        proof {
            assert(tables@.contains(Table::Post));
        }
        router.add_route(&tables, route, Route { middleware: self.middleware, handler });
        assert forall|t: Table| t != Table::Post implies !tables@.contains(t) by {
            if tables@.contains(t) {
                let j = choose|j: int| 0 <= j < tables@.len() && tables@[j] == t;
            }
        }
    }

    /// Adds a route for PUT requests to `route` to `router`; the builder's
    /// middleware runs before `handler`.
    pub fn put<T, H>(self, router: &mut Router<T, H, M>, route: &str, handler: H)
        requires
            old(router).wf(),
        ensures
            final(router).wf(),
            final(router).route_count() == old(router).route_count() + 1,
            final(router).spec_route(old(router).route_count() as int).handler == handler,
            final(router).spec_route(old(router).route_count() as int).middleware@ == self.middleware@,
            forall|i: int| 0 <= i < old(router).route_count() ==> #[trigger] final(router).spec_route(i) == old(router).spec_route(i),
            final(router).table(Table::Put) == old(router).table(Table::Put).push((route@, old(router).route_count() as usize)),
            forall|t: Table| t != Table::Put ==> #[trigger] final(router).table(t) == old(router).table(t),
            final(router).spec_middleware() == old(router).spec_middleware(),
            final(router).spec_context() == old(router).spec_context(),
    {
        let tables = [Table::Put];
        proof {
            assert(tables@.contains(Table::Put));
        }
        router.add_route(&tables, route, Route { middleware: self.middleware, handler });
        assert forall|t: Table| t != Table::Put implies !tables@.contains(t) by {
            if tables@.contains(t) {
                let j = choose|j: int| 0 <= j < tables@.len() && tables@[j] == t;
            }
        }
    }

    /// Adds a route for PATCH requests to `route` to `router`; the builder's
    /// middleware runs before `handler`.
    pub fn patch<T, H>(self, router: &mut Router<T, H, M>, route: &str, handler: H)
        requires
            old(router).wf(),
        ensures
            final(router).wf(),
            final(router).route_count() == old(router).route_count() + 1,
            final(router).spec_route(old(router).route_count() as int).handler == handler,
            final(router).spec_route(old(router).route_count() as int).middleware@ == self.middleware@,
            forall|i: int| 0 <= i < old(router).route_count() ==> #[trigger] final(router).spec_route(i) == old(router).spec_route(i),
            final(router).table(Table::Patch) == old(router).table(Table::Patch).push((route@, old(router).route_count() as usize)),
            forall|t: Table| t != Table::Patch ==> #[trigger] final(router).table(t) == old(router).table(t),
            final(router).spec_middleware() == old(router).spec_middleware(),
            final(router).spec_context() == old(router).spec_context(),
    {
        let tables = [Table::Patch];
        proof {
            assert(tables@.contains(Table::Patch));
        }
        router.add_route(&tables, route, Route { middleware: self.middleware, handler });
        assert forall|t: Table| t != Table::Patch implies !tables@.contains(t) by {
            if tables@.contains(t) {
                let j = choose|j: int| 0 <= j < tables@.len() && tables@[j] == t;
            }
        }
    }

    /// Adds a route for DELETE requests to `route` to `router`; the builder's
    /// middleware runs before `handler`.
    pub fn delete<T, H>(self, router: &mut Router<T, H, M>, route: &str, handler: H)
        requires
            old(router).wf(),
        ensures
            final(router).wf(),
            final(router).route_count() == old(router).route_count() + 1,
            final(router).spec_route(old(router).route_count() as int).handler == handler,
            final(router).spec_route(old(router).route_count() as int).middleware@ == self.middleware@,
            forall|i: int| 0 <= i < old(router).route_count() ==> #[trigger] final(router).spec_route(i) == old(router).spec_route(i),
            final(router).table(Table::Delete) == old(router).table(Table::Delete).push((route@, old(router).route_count() as usize)),
            forall|t: Table| t != Table::Delete ==> #[trigger] final(router).table(t) == old(router).table(t),
            final(router).spec_middleware() == old(router).spec_middleware(),
            final(router).spec_context() == old(router).spec_context(),
    {
        let tables = [Table::Delete];
        proof {
            assert(tables@.contains(Table::Delete));
        }
        router.add_route(&tables, route, Route { middleware: self.middleware, handler });
        assert forall|t: Table| t != Table::Delete implies !tables@.contains(t) by {
            if tables@.contains(t) {
                let j = choose|j: int| 0 <= j < tables@.len() && tables@[j] == t;
            }
        }
    }

    /// Adds a route for every method to `route` to `router`: it goes into the
    /// table of each listed method and into that of any method. The
    /// builder's middleware is not used: the route has none.
    pub fn any<T, H>(self, router: &mut Router<T, H, M>, route: &str, handler: H)
        requires
            old(router).wf(),
        ensures
            final(router).wf(),
            final(router).route_count() == old(router).route_count() + 1,
            final(router).spec_route(old(router).route_count() as int).handler == handler,
            final(router).spec_route(old(router).route_count() as int).middleware@ == Seq::<M>::empty(),
            forall|i: int| 0 <= i < old(router).route_count() ==> #[trigger] final(router).spec_route(i) == old(router).spec_route(i),
            forall|t: Table| #[trigger] final(router).table(t) == old(router).table(t).push((route@, old(router).route_count() as usize)),
            final(router).spec_middleware() == old(router).spec_middleware(),
            final(router).spec_context() == old(router).spec_context(),
    {
        let tables = [Table::Get, Table::Post, Table::Put, Table::Patch, Table::Delete, Table::Any];
        router.add_route(&tables, route, Route { middleware: Vec::new(), handler });
        assert forall|t: Table| tables@.contains(t) by {
            match t {
                Table::Get => { assert(tables@[0] == t); },
                Table::Post => { assert(tables@[1] == t); },
                Table::Put => { assert(tables@[2] == t); },
                Table::Patch => { assert(tables@[3] == t); },
                Table::Delete => { assert(tables@[4] == t); },
                Table::Any => { assert(tables@[5] == t); },
            }
        }
    }
}

impl RouteBuilderNc {

    /// Adds a route for GET requests to `route` to `router`, with no
    /// middleware; the handler does not take the context.
    pub fn get<T, H, M>(self, router: &mut Router<T, H, M>, route: &str, handler: H)
        requires
            old(router).wf(),
        ensures
            final(router).wf(),
            final(router).route_count() == old(router).route_count() + 1,
            final(router).spec_route(old(router).route_count() as int).handler == handler,
            final(router).spec_route(old(router).route_count() as int).middleware@ == Seq::<M>::empty(),
            forall|i: int| 0 <= i < old(router).route_count() ==> #[trigger] final(router).spec_route(i) == old(router).spec_route(i),
            final(router).table(Table::Get) == old(router).table(Table::Get).push((route@, old(router).route_count() as usize)),
            forall|t: Table| t != Table::Get ==> #[trigger] final(router).table(t) == old(router).table(t),
            final(router).spec_middleware() == old(router).spec_middleware(),
            final(router).spec_context() == old(router).spec_context(),
    {
        router.get(route, handler);
    }

    /// Adds a route for POST requests to `route` to `router`, with no
    /// middleware; the handler does not take the context.
    pub fn post<T, H, M>(self, router: &mut Router<T, H, M>, route: &str, handler: H)
        requires
            old(router).wf(),
        ensures
            final(router).wf(),
            final(router).route_count() == old(router).route_count() + 1,
            final(router).spec_route(old(router).route_count() as int).handler == handler,
            final(router).spec_route(old(router).route_count() as int).middleware@ == Seq::<M>::empty(),
            forall|i: int| 0 <= i < old(router).route_count() ==> #[trigger] final(router).spec_route(i) == old(router).spec_route(i),
            final(router).table(Table::Post) == old(router).table(Table::Post).push((route@, old(router).route_count() as usize)),
            forall|t: Table| t != Table::Post ==> #[trigger] final(router).table(t) == old(router).table(t),
            final(router).spec_middleware() == old(router).spec_middleware(),
            final(router).spec_context() == old(router).spec_context(),
    {
        router.post(route, handler);
    }

    /// Adds a route for PUT requests to `route` to `router`, with no
    /// middleware; the handler does not take the context.
    pub fn put<T, H, M>(self, router: &mut Router<T, H, M>, route: &str, handler: H)
        requires
            old(router).wf(),
        ensures
            final(router).wf(),
            final(router).route_count() == old(router).route_count() + 1,
            final(router).spec_route(old(router).route_count() as int).handler == handler,
            final(router).spec_route(old(router).route_count() as int).middleware@ == Seq::<M>::empty(),
            forall|i: int| 0 <= i < old(router).route_count() ==> #[trigger] final(router).spec_route(i) == old(router).spec_route(i),
            final(router).table(Table::Put) == old(router).table(Table::Put).push((route@, old(router).route_count() as usize)),
            forall|t: Table| t != Table::Put ==> #[trigger] final(router).table(t) == old(router).table(t),
            final(router).spec_middleware() == old(router).spec_middleware(),
            final(router).spec_context() == old(router).spec_context(),
    {
        router.put(route, handler);
    }

    /// Adds a route for PATCH requests to `route` to `router`, with no
    /// middleware; the handler does not take the context.
    pub fn patch<T, H, M>(self, router: &mut Router<T, H, M>, route: &str, handler: H)
        requires
            old(router).wf(),
        ensures
            final(router).wf(),
            final(router).route_count() == old(router).route_count() + 1,
            final(router).spec_route(old(router).route_count() as int).handler == handler,
            final(router).spec_route(old(router).route_count() as int).middleware@ == Seq::<M>::empty(),
            forall|i: int| 0 <= i < old(router).route_count() ==> #[trigger] final(router).spec_route(i) == old(router).spec_route(i),
            final(router).table(Table::Patch) == old(router).table(Table::Patch).push((route@, old(router).route_count() as usize)),
            forall|t: Table| t != Table::Patch ==> #[trigger] final(router).table(t) == old(router).table(t),
            final(router).spec_middleware() == old(router).spec_middleware(),
            final(router).spec_context() == old(router).spec_context(),
    {
        router.patch(route, handler);
    }

    /// Adds a route for DELETE requests to `route` to `router`, with no
    /// middleware; the handler does not take the context.
    pub fn delete<T, H, M>(self, router: &mut Router<T, H, M>, route: &str, handler: H)
        requires
            old(router).wf(),
        ensures
            final(router).wf(),
            final(router).route_count() == old(router).route_count() + 1,
            final(router).spec_route(old(router).route_count() as int).handler == handler,
            final(router).spec_route(old(router).route_count() as int).middleware@ == Seq::<M>::empty(),
            forall|i: int| 0 <= i < old(router).route_count() ==> #[trigger] final(router).spec_route(i) == old(router).spec_route(i),
            final(router).table(Table::Delete) == old(router).table(Table::Delete).push((route@, old(router).route_count() as usize)),
            forall|t: Table| t != Table::Delete ==> #[trigger] final(router).table(t) == old(router).table(t),
            final(router).spec_middleware() == old(router).spec_middleware(),
            final(router).spec_context() == old(router).spec_context(),
    {
        router.delete(route, handler);
    }

    /// Adds a route for any method requests to `route` to `router`, with no
    /// middleware; the handler does not take the context.
    pub fn any<T, H, M>(self, router: &mut Router<T, H, M>, route: &str, handler: H)
        requires
            old(router).wf(),
        ensures
            final(router).wf(),
            final(router).route_count() == old(router).route_count() + 1,
            final(router).spec_route(old(router).route_count() as int).handler == handler,
            final(router).spec_route(old(router).route_count() as int).middleware@ == Seq::<M>::empty(),
            forall|i: int| 0 <= i < old(router).route_count() ==> #[trigger] final(router).spec_route(i) == old(router).spec_route(i),
            final(router).table(Table::Any) == old(router).table(Table::Any).push((route@, old(router).route_count() as usize)),
            forall|t: Table| t != Table::Any ==> #[trigger] final(router).table(t) == old(router).table(t),
            final(router).spec_middleware() == old(router).spec_middleware(),
            final(router).spec_context() == old(router).spec_context(),
    {
        router.any(route, handler);
    }
}

/// A handler that takes no context, standing where the router expects one
/// that does.
pub struct WithoutContext<F> {
    pub handler: F,
}

/// Adapts a handler that takes no context to the router's form.
pub fn without_context<F>(handler: F) -> (r: WithoutContext<F>)
    ensures
        r.handler == handler,
{
    WithoutContext { handler }
}

impl<F> WithoutContext<F> {
    /// What the wrapped handler is given for a call with context `ctx`: the
    /// request and the response, unchanged; the context is dropped.
    pub fn arguments<Q, S, C>(&self, req: Q, res: S, ctx: C) -> (r: (Q, S))
        ensures
            r == (req, res),
    {
        (req, res)
    }
}

impl<H, M> Router<(), H, M> {
    /// A router whose context is `()`.
    pub fn new_without_context() -> (r: Self)
        ensures
            r.wf(),
            r.route_count() == 0,
            r.spec_middleware() == Seq::<M>::empty(),
            forall|t: Table| #[trigger] r.table(t) == Seq::<(Seq<char>, usize)>::empty(),
    {
        Self::new(())
    }
}

/// One thing to do while answering a request.
#[derive(Clone, Copy, Debug, PartialEq, Eq, Structural)]
pub enum Step {
    /// Run the router's middleware with this number; stop if it ends the request.
    Global(usize),
    /// Set the matched parameters on the request.
    SetParams,
    /// Run the route's middleware with this number; stop if it ends the request.
    RouteMiddleware(usize),
    /// Run the route's handler.
    Handler,
    /// Answer that nothing was found.
    NotFound,
}

/// Steps `Global(0)` .. `Global(n - 1)`.
pub open spec fn global_steps(n: nat) -> Seq<Step> {
    Seq::new(n, |i: int| Step::Global(i as usize))
}

/// Steps `RouteMiddleware(0)` .. `RouteMiddleware(n - 1)`.
pub open spec fn route_steps(n: nat) -> Seq<Step> {
    Seq::new(n, |i: int| Step::RouteMiddleware(i as usize))
}

/// The steps that answer a request, in order: the router's middleware; then,
/// for a route, its middleware and handler with the parameters set where
/// the dispatch says; for no route, the not-found answer. Any middleware
/// may end the request, and then no later step runs.
pub open spec fn spec_steps(global: nat, d: DispatchView, route_middleware: nat) -> Seq<Step> {
    match d {
        DispatchView::Route { params_first, .. } => if params_first {
            global_steps(global) + seq![Step::SetParams] + route_steps(route_middleware) + seq![Step::Handler]
        } else {
            global_steps(global) + route_steps(route_middleware) + seq![Step::SetParams, Step::Handler]
        },
        DispatchView::NotFound => global_steps(global) + seq![Step::NotFound],
    }
}

fn push_numbered(v: &mut Vec<Step>, n: usize, global: bool)
    ensures
        final(v)@ == old(v)@ + (if global { global_steps(n as nat) } else { route_steps(n as nat) }),
{
    let ghost start = v@;
    let mut i: usize = 0;
    while i < n
        invariant
            i <= n,
            v@ == start + (if global { global_steps(i as nat) } else { route_steps(i as nat) }),
        decreases n - i,
    {
        if global {
            v.push(Step::Global(i));
        } else {
            v.push(Step::RouteMiddleware(i));
        }
        i = i + 1;
        assert(v@ =~= start + (if global { global_steps(i as nat) } else { route_steps(i as nat) }));
    }
}

impl<T, H, M> Router<T, H, M> {
    /// The steps that answer a request that `d` dispatched.
    pub fn steps(&self, d: &Dispatch) -> (r: Vec<Step>)
        requires
            d matches Dispatch::Route { index, .. } ==> index < self.route_count(),
        ensures
            r@ == spec_steps(
                self.spec_middleware().len(),
                d.view(),
                match d { Dispatch::Route { index, .. } => self.spec_route(*index as int).middleware@.len(), Dispatch::NotFound => 0 },
            ),
    {
        let mut v: Vec<Step> = Vec::new();
        push_numbered(&mut v, self.middleware.len(), true);
        match d {
            Dispatch::Route { index, params: _, params_first } => {
                let m = self.routes[*index].middleware.len();
                if *params_first {
                    v.push(Step::SetParams);
                    push_numbered(&mut v, m, false);
                    v.push(Step::Handler);
                } else {
                    push_numbered(&mut v, m, false);
                    v.push(Step::SetParams);
                    v.push(Step::Handler);
                }
            },
            Dispatch::NotFound => {
                v.push(Step::NotFound);
            },
        }
        assert(v@ =~= spec_steps(
            self.spec_middleware().len(),
            d.view(),
            match d { Dispatch::Route { index, .. } => self.spec_route(*index as int).middleware@.len(), Dispatch::NotFound => 0 },
        ));
        v
    }
}

/// What a step reported when it was performed.
#[derive(Clone, Copy, Debug, PartialEq, Eq, Structural)]
pub enum StepResult {
    /// Go on with the next step.
    Continue,
    /// The middleware ended the request; it is answered `Ok`.
    Stop,
    /// The step failed; the request is answered with its error.
    Fail,
}

/// How a run of steps ended.
#[derive(Clone, Copy, Debug, PartialEq, Eq, Structural)]
pub enum RunEnd {
    /// Every step was performed.
    Finished,
    /// A middleware ended the request.
    Stopped,
    /// A step failed.
    Failed,
}

/// A run of steps: the steps, how many have been handed out, and how the
/// run ended, if it has.
pub struct RunView {
    pub steps: Seq<Step>,
    pub next: nat,
    pub end: Option<RunEnd>,
}

/// Asking for the next step: none once the run has ended; none, and the run
/// finished, when every step has been handed out; otherwise the next one.
pub open spec fn spec_next_step(v: RunView) -> (RunView, Option<Step>) {
    if v.end is Some {
        (v, None)
    } else if v.next >= v.steps.len() {
        (RunView { steps: v.steps, next: v.next, end: Some(RunEnd::Finished) }, None)
    } else {
        (RunView { steps: v.steps, next: v.next + 1, end: None }, Some(v.steps[v.next as int]))
    }
}

/// Reporting what a step did: a stop or a failure ends the run; nothing
/// changes a run that has ended.
pub open spec fn spec_report(v: RunView, r: StepResult) -> RunView {
    if v.end is Some {
        v
    } else {
        match r {
            StepResult::Continue => v,
            StepResult::Stop => RunView { steps: v.steps, next: v.next, end: Some(RunEnd::Stopped) },
            StepResult::Fail => RunView { steps: v.steps, next: v.next, end: Some(RunEnd::Failed) },
        }
    }
}

/// Performs the steps that answer a request, one at a time, until one of
/// them ends the request.
pub struct StepRun {
    steps: Vec<Step>,
    next: usize,
    end: Option<RunEnd>,
}

impl StepRun {
    pub closed spec fn view(&self) -> RunView {
        RunView { steps: self.steps@, next: self.next as nat, end: self.end }
    }

    /// A run of `steps` that has handed out none.
    pub fn new(steps: Vec<Step>) -> (r: StepRun)
        ensures
            r.view() == (RunView { steps: steps@, next: 0, end: None }),
    {
        StepRun { steps, next: 0, end: None }
    }

    /// The next step to perform, if the run goes on.
    pub fn next_step(&mut self) -> (r: Option<Step>)
        requires
            old(self).view().next <= old(self).view().steps.len(),
        ensures
            (final(self).view(), r) == spec_next_step(old(self).view()),
            final(self).view().next <= final(self).view().steps.len(),
    {
        if self.end.is_some() {
            None
        } else if self.next >= self.steps.len() {
            self.end = Some(RunEnd::Finished);
            None
        } else {
            let s = self.steps[self.next];
            self.next = self.next + 1;
            Some(s)
        }
    }

    /// Records what the last step handed out did.
    pub fn report(&mut self, result: StepResult)
        ensures
            final(self).view() == spec_report(old(self).view(), result),
    {
        if self.end.is_none() {
            match result {
                StepResult::Continue => {},
                StepResult::Stop => { self.end = Some(RunEnd::Stopped); },
                StepResult::Fail => { self.end = Some(RunEnd::Failed); },
            }
        }
    }

    /// How the run ended, if it has.
    pub fn end(&self) -> (r: Option<RunEnd>)
        ensures
            r == self.view().end,
    {
        self.end
    }
}

/// A middleware that ends the request or fails stops the run: no later
/// step is handed out, and the run keeps the way it ended.
pub proof fn law_stop_ends_run(v: RunView, r: StepResult)
    requires
        v.end is None,
        r != StepResult::Continue,
    ensures
        spec_next_step(spec_report(v, r)).1 is None,
        spec_next_step(spec_report(v, r)).0 == spec_report(v, r),
        spec_report(v, r).end == Some(if r == StepResult::Stop { RunEnd::Stopped } else { RunEnd::Failed }),
{
}

/// While every step continues, the steps are handed out in order, each
/// once, and the run then finishes.
pub proof fn law_steps_in_order(v: RunView)
    requires
        v.end is None,
        v.next < v.steps.len(),
    ensures
        spec_next_step(spec_report(v, StepResult::Continue)).1 == Some(v.steps[v.next as int]),
        spec_next_step(spec_report(v, StepResult::Continue)).0.next == v.next + 1,
        spec_next_step(RunView { steps: v.steps, next: v.steps.len(), end: None }).0.end == Some(RunEnd::Finished),
{
}

/// The router's middleware runs first, in the order it was added, and the
/// handler runs last; a route's own middleware runs between them.
pub proof fn law_middleware_order(global: nat, d: DispatchView, route_middleware: nat)
    requires
        d is Route,
    ensures
        spec_steps(global, d, route_middleware).subrange(0, global as int) == global_steps(global),
        spec_steps(global, d, route_middleware).last() == Step::Handler,
        spec_steps(global, d, route_middleware).len() == global + route_middleware + 2,
{
    let s = spec_steps(global, d, route_middleware);
    assert(s.subrange(0, global as int) =~= global_steps(global));
}

/// A request that no table matches runs the router's middleware and then
/// gets the not-found answer, and no handler runs.
pub proof fn law_unmatched_is_not_found(
    first: Seq<(Seq<char>, usize)>,
    any: Seq<(Seq<char>, usize)>,
    path: Seq<char>,
    global: nat,
)
    requires
        tree_match(first, path) is None,
        tree_match(any, path) is None,
    ensures
        spec_dispatch(first, any, path) is NotFound,
        spec_steps(global, spec_dispatch(first, any, path), 0) == global_steps(global).push(Step::NotFound),
        !spec_steps(global, spec_dispatch(first, any, path), 0).contains(Step::Handler),
{
    let s = spec_steps(global, spec_dispatch(first, any, path), 0);
    assert(s =~= global_steps(global).push(Step::NotFound));
    if s.contains(Step::Handler) {
        let j = choose|j: int| 0 <= j < s.len() && s[j] == Step::Handler;
        if j < global {
            assert(s[j] == Step::Global(j as usize));
        }
    }
}

/// A route in the method's own table answers before any route for any
/// method; parameters are decoded the same way either way.
pub proof fn law_method_table_first(
    first: Seq<(Seq<char>, usize)>,
    any: Seq<(Seq<char>, usize)>,
    path: Seq<char>,
)
    requires
        tree_match(first, path) is Some,
    ensures
        spec_dispatch(first, any, path) == (DispatchView::Route {
            index: tree_match(first, path).unwrap().0,
            params: decoded_params(tree_match(first, path).unwrap().1),
            params_first: false,
        }),
{
}

/// Route parameters are percent-decoded whichever table matched: a match in
/// the method's own table gives its decoded parameters, set after the route's
/// middleware; a match found only among the routes for any method gives its
/// decoded parameters too, set before it.
pub proof fn law_parameters_always_decoded(
    first: Seq<(Seq<char>, usize)>,
    any: Seq<(Seq<char>, usize)>,
    path: Seq<char>,
)
    ensures
        tree_match(first, path) is Some ==> spec_dispatch(first, any, path) == (DispatchView::Route {
            index: tree_match(first, path).unwrap().0,
            params: decoded_params(tree_match(first, path).unwrap().1),
            params_first: false,
        }),
        tree_match(first, path) is None && tree_match(any, path) is Some ==> spec_dispatch(first, any, path) == (DispatchView::Route {
            index: tree_match(any, path).unwrap().0,
            params: decoded_params(tree_match(any, path).unwrap().1),
            params_first: true,
        }),
        tree_match(first, path) is None && tree_match(any, path) is None ==> spec_dispatch(first, any, path) is NotFound,
{
}

/// Each of GET, POST, PUT, PATCH and DELETE is looked up first in its own
/// table, and no other method is: every other method is looked up only among
/// the routes for any method. So a route added only for one of the five is
/// never dispatched for another method.
pub proof fn law_table_of_method(m: Method)
    ensures
        table_for(m) == Table::Get <==> m is Get,
        table_for(m) == Table::Post <==> m is Post,
        table_for(m) == Table::Put <==> m is Put,
        table_for(m) == Table::Patch <==> m is Patch,
        table_for(m) == Table::Delete <==> m is Delete,
        !(m is Get || m is Post || m is Put || m is Patch || m is Delete) ==> table_for(m) == Table::Any,
{
}

} // verus!
