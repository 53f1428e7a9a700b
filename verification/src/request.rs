//! The request model: method, version, target, header fields, route
//! parameters and a body reader of the caller's choosing.
use vstd::prelude::*;
use crate::headers::HeaderMap;

verus! {

/// Request methods.
pub enum Method {
    Options,
    Get,
    Post,
    Put,
    Delete,
    Head,
    Trace,
    Connect,
    Patch,
    /// Any other method, by its name.
    Extension(String),
}

/// The name of a method, as it is written in a request.
pub open spec fn method_name(m: Method) -> Seq<char> {
    match m {
        Method::Options => "OPTIONS"@,
        Method::Get => "GET"@,
        Method::Post => "POST"@,
        Method::Put => "PUT"@,
        Method::Delete => "DELETE"@,
        Method::Head => "HEAD"@,
        Method::Trace => "TRACE"@,
        Method::Connect => "CONNECT"@,
        Method::Patch => "PATCH"@,
        Method::Extension(s) => s@,
    }
}

impl Method {
    /// The name of the method.
    pub fn as_str(&self) -> (r: &str)
        ensures
            r@ == method_name(*self),
    {
        match self {
            Method::Options => "OPTIONS",
            Method::Get => "GET",
            Method::Post => "POST",
            Method::Put => "PUT",
            Method::Delete => "DELETE",
            Method::Head => "HEAD",
            Method::Trace => "TRACE",
            Method::Connect => "CONNECT",
            Method::Patch => "PATCH",
            Method::Extension(s) => s.as_str(),
        }
    }
}

/// Protocol versions.
#[derive(Clone, Copy, Debug, PartialEq, Eq, Structural)]
pub enum Version {
    Http09,
    Http10,
    Http11,
    Http2,
    Http3,
}

/// A request target: its path and optional query.
pub struct Uri {
    path: String,
    query: Option<String>,
}

impl Uri {
    pub closed spec fn spec_path(&self) -> Seq<char> {
        self.path@
    }

    pub closed spec fn spec_query(&self) -> Option<Seq<char>> {
        match self.query {
            Some(q) => Some(q@),
            None => None,
        }
    }

    /// A target with the given path and query.
    pub fn new(path: String, query: Option<String>) -> (r: Uri)
        ensures
            r.spec_path() == path@,
            r.spec_query() == (match query {
                Some(q) => Some(q@),
                None => None::<Seq<char>>,
            }),
    {
        Uri { path, query }
    }

    /// The path and query of a target: none for a target with neither
    /// (such as the authority of a CONNECT request).
    pub open spec fn spec_path_and_query(&self) -> Option<Seq<char>> {
        match self.spec_query() {
            Some(q) => Some(self.spec_path() + "?"@ + q),
            None => if self.spec_path().len() == 0 { None } else { Some(self.spec_path()) },
        }
    }

    /// The path and query, joined by `?`.
    pub fn path_and_query(&self) -> (r: Option<String>)
        ensures
            r is Some <==> self.spec_path_and_query() is Some,
            r is Some ==> r.unwrap()@ == self.spec_path_and_query().unwrap(),
    {
        match &self.query {
            Some(q) => {
                let p = self.path.clone();
                let pq = p.concat("?");
                Some(pq.concat(q.as_str()))
            },
            None => {
                if self.path.as_str().unicode_len() == 0 {
                    None
                } else {
                    Some(self.path.clone())
                }
            },
        }
    }

    /// The path of the target.
    pub fn path(&self) -> (r: &str)
        ensures
            r@ == self.spec_path(),
    {
        self.path.as_str()
    }

    /// The query of the target, if any.
    pub fn query(&self) -> (r: Option<&str>)
        ensures
            r is Some <==> self.spec_query() is Some,
            r is Some ==> r.unwrap()@ == self.spec_query().unwrap(),
    {
        match &self.query {
            Some(q) => Some(q.as_str()),
            None => None,
        }
    }
}

/// The value of the last parameter named `name`: a later parameter of the
/// same name replaces an earlier one.
pub open spec fn last_param(params: Seq<(Seq<char>, Seq<char>)>, name: Seq<char>) -> Option<Seq<char>>
    decreases params.len(),
{
    if params.len() == 0 {
        None
    } else if params.last().0 == name {
        Some(params.last().1)
    } else {
        last_param(params.drop_last(), name)
    }
}

/// An incoming request. `B` reads the body.
pub struct Request<B> {
    body: B,
    headers: HeaderMap,
    method: Method,
    version: Version,
    uri: Uri,
    params: Vec<(String, String)>,
}

impl<B> Request<B> {
    pub closed spec fn spec_body(&self) -> B {
        self.body
    }

    pub closed spec fn spec_headers(&self) -> HeaderMap {
        self.headers
    }

    pub closed spec fn spec_method(&self) -> Method {
        self.method
    }

    pub closed spec fn spec_version(&self) -> Version {
        self.version
    }

    pub closed spec fn spec_uri(&self) -> Uri {
        self.uri
    }

    pub closed spec fn spec_params(&self) -> Seq<(Seq<char>, Seq<char>)> {
        self.params@.map_values(|p: (String, String)| (p.0@, p.1@))
    }

    /// A request from its parts, with no route parameters yet.
    pub fn new(body: B, headers: HeaderMap, method: Method, version: Version, uri: Uri) -> (r: Self)
        ensures
            r.spec_body() == body,
            r.spec_headers() == headers,
            r.spec_method() == method,
            r.spec_version() == version,
            r.spec_uri() == uri,
            r.spec_params() == Seq::<(Seq<char>, Seq<char>)>::empty(),
    {
        let r = Request { body, headers, method, version, uri, params: Vec::new() };
        assert(r.spec_params() =~= Seq::<(Seq<char>, Seq<char>)>::empty());
        r
    }

    /// The body reader.
    pub fn body(&mut self) -> (r: &mut B)
        ensures
            *r == old(self).spec_body(),
            final(self).spec_body() == *final(r),
            final(self).spec_headers() == old(self).spec_headers(),
            final(self).spec_method() == old(self).spec_method(),
            final(self).spec_version() == old(self).spec_version(),
            final(self).spec_uri() == old(self).spec_uri(),
            final(self).spec_params() == old(self).spec_params(),
    {
        &mut self.body
    }

    /// The header fields.
    pub fn headers(&self) -> (r: &HeaderMap)
        ensures
            *r == self.spec_headers(),
    {
        &self.headers
    }

    /// The method.
    pub fn method(&self) -> (r: &Method)
        ensures
            *r == self.spec_method(),
    {
        &self.method
    }

    /// The protocol version.
    pub fn version(&self) -> (r: &Version)
        ensures
            *r == self.spec_version(),
    {
        &self.version
    }

    /// The request target.
    pub fn uri(&self) -> (r: &Uri)
        ensures
            *r == self.spec_uri(),
    {
        &self.uri
    }

    /// The route parameters, in the order in which the route named them.
    pub fn params(&self) -> (r: &Vec<(String, String)>)
        ensures
            r@.map_values(|p: (String, String)| (p.0@, p.1@)) == self.spec_params(),
    {
        &self.params
    }

    /// Replaces the route parameters.
    pub fn set_params(&mut self, params: Vec<(String, String)>)
        ensures
            final(self).spec_params() == params@.map_values(|p: (String, String)| (p.0@, p.1@)),
            final(self).spec_body() == old(self).spec_body(),
            final(self).spec_headers() == old(self).spec_headers(),
            final(self).spec_method() == old(self).spec_method(),
            final(self).spec_version() == old(self).spec_version(),
            final(self).spec_uri() == old(self).spec_uri(),
    {
        self.params = params;
    }

    /// The value of the route parameter `name`; where the route names it
    /// more than once, the last one.
    pub fn param(&self, name: &str) -> (r: Option<&String>)
        ensures
            r is Some ==> last_param(self.spec_params(), name@) == Some(r.unwrap()@),
            r is None ==> last_param(self.spec_params(), name@) is None,
    {
        let ghost ps = self.spec_params();
        let mut i: usize = self.params.len();
        assert(ps.subrange(0, i as int) =~= ps);
        while i > 0
            invariant
                i <= self.params@.len(),
                ps == self.spec_params(),
                last_param(ps, name@) == last_param(ps.subrange(0, i as int), name@),
            decreases i,
        {
            let p = &self.params[i - 1];
            let ghost pre = ps.subrange(0, i as int);
            assert(pre.last() == (p.0@, p.1@));
            if crate::text::str_equal(p.0.as_str(), name) {
                return Some(&p.1);
            }
            assert(pre.drop_last() =~= ps.subrange(0, i - 1));
            i = i - 1;
        }
        None
    }
}

} // verus!
