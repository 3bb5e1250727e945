//! The server engine: configuration, registration, and the decision made
//! for one connection.
//!
//! The engine owns the route table, the optional document root and the
//! directory-listing toggle.  Given the text read from a connection it
//! decides what happens: a malformed request line is dropped silently, an
//! exactly matching route hands its handler the parsed request, and
//! anything else falls through to the static-file resolver — or to
//! nothing at all when no document root is set.  The handler type is a
//! parameter; the runtime around the engine invokes the handlers, reads
//! and writes sockets, and probes the filesystem.

use vstd::prelude::*;
use vstd::string::StringExecFns;

use crate::request::Request;
use crate::request::parse_request;
use crate::request::req_method;
use crate::request::req_path;
use crate::request::req_post_map;
use crate::request::req_query_map;
use crate::request::req_url;
use crate::request::req_wellformed;
use crate::request::strip_nuls;
use crate::routes::RouteTable;
use crate::static_files::resolve_path;
use crate::static_files::resolved_path;
use crate::static_files::strip_slashes;
use crate::static_files::strip_slashes_str;

verus! {

/// What one connection's text leads to.
pub enum Plan<'a, H> {
    /// The request line has fewer than two tokens: the connection is
    /// dropped silently, with no response at all.
    Malformed,
    /// A registered route matches the path and method exactly: the
    /// handler is to be invoked on the parsed request.
    Handle(&'a H, Request),
    /// No route matches and a document root is set: the resolved
    /// filesystem path is to be probed and served.
    ServeStatic { fs_path: String, virtual_path: String },
    /// No route matches and no document root is set: nothing is served.
    NoRoot,
}

/// The server: registered endpoints, the document root for the
/// static-file fallback, and the directory-listing toggle.
pub struct Server<H> {
    document_root: Option<String>,
    index_of: bool,
    routes: RouteTable<H>,
}

impl<H> Default for Server<H> {
    /// A server with no routes, no document root, and listing disabled.
    fn default() -> (r: Server<H>)
        ensures
            r.wf(),
            r.routes_view() == Map::<(Seq<char>, Seq<char>), H>::empty(),
            r.root_view() is None,
            !r.indexing(),
    {
        Server { document_root: None, index_of: false, routes: RouteTable::new() }
    }
}

impl<H> Server<H> {
    /// The route table keeps its keys unique.
    pub closed spec fn wf(&self) -> bool {
        self.routes.wf()
    }

    /// The registered endpoints as a mapping from (path, method) to handler.
    pub closed spec fn routes_view(&self) -> Map<(Seq<char>, Seq<char>), H> {
        self.routes@
    }

    /// The configured document root, when one was accepted.
    pub closed spec fn root_view(&self) -> Option<Seq<char>> {
        match self.document_root {
            Some(root) => Some(root@),
            None => None,
        }
    }

    /// Whether directory listing is enabled.
    pub closed spec fn indexing(&self) -> bool {
        self.index_of
    }

    /// Returns a fresh server instance.
    pub fn new() -> (r: Server<H>)
        ensures
            r.wf(),
            r.routes_view() == Map::<(Seq<char>, Seq<char>), H>::empty(),
            r.root_view() is None,
            !r.indexing(),
    {
        Default::default()
    }

    /// Sets the document root when the caller found that the path exists
    /// on the filesystem; a path that does not exist is rejected and the
    /// configuration is left as it was.
    pub fn set_document_root(&mut self, document_root: &str, exists: bool) -> (r: bool)
        requires
            old(self).wf(),
        ensures
            final(self).wf(),
            r == exists,
            final(self).routes_view() == old(self).routes_view(),
            final(self).indexing() == old(self).indexing(),
            exists ==> final(self).root_view() == Some(document_root@),
            !exists ==> final(self).root_view() == old(self).root_view(),
    {
        if exists {
            self.document_root = Some(document_root.to_owned());
            true
        } else {
            false
        }
    }

    /// Returns the configured document root, or `None` when none is set.
    pub fn get_document_root(&self) -> (r: Option<String>)
        ensures
            match r {
                Some(root) => self.root_view() == Some(root@),
                None => self.root_view() is None,
            },
    {
        match &self.document_root {
            Some(root) => Some(root.clone()),
            None => None,
        }
    }

    /// Sets whether a directory request shows a listing of its entries.
    pub fn use_index_of(&mut self, index_of: bool)
        requires
            old(self).wf(),
        ensures
            final(self).wf(),
            final(self).indexing() == index_of,
            final(self).routes_view() == old(self).routes_view(),
            final(self).root_view() == old(self).root_view(),
    {
        self.index_of = index_of;
    }

    /// Returns whether a directory request shows a listing of its entries.
    pub fn index_of_enabled(&self) -> (r: bool)
        ensures
            r == self.indexing(),
    {
        self.index_of
    }

    /// Registers a handler for a GET request to exactly `route`.
    pub fn get(&mut self, route: &str, f: H)
        requires
            old(self).wf(),
        ensures
            final(self).wf(),
            final(self).routes_view() == old(self).routes_view().insert((route@, "GET"@), f),
            final(self).root_view() == old(self).root_view(),
            final(self).indexing() == old(self).indexing(),
    {
        self.routes.register(route.to_owned(), String::from_str("GET"), f);
    }

    /// Registers a handler for a POST request to exactly `route`.
    pub fn post(&mut self, route: &str, f: H)
        requires
            old(self).wf(),
        ensures
            final(self).wf(),
            final(self).routes_view() == old(self).routes_view().insert((route@, "POST"@), f),
            final(self).root_view() == old(self).root_view(),
            final(self).indexing() == old(self).indexing(),
    {
        self.routes.register(route.to_owned(), String::from_str("POST"), f);
    }

    /// Decides what one connection's text leads to: parse, dispatch by
    /// exact match, and otherwise fall through to the static-file
    /// resolver when a document root is set.
    pub fn route_request<'a>(&'a self, text: &str) -> (r: Plan<'a, H>)
        requires
            self.wf(),
        ensures
            ({
                let t = strip_nuls(text@);
                let key = (req_path(t), req_method(t));
                &&& (r is Malformed <==> !req_wellformed(t))
                &&& (req_wellformed(t) && self.routes_view().contains_key(key) ==> r is Handle)
                &&& (r is NoRoot <==> req_wellformed(t) && !self.routes_view().contains_key(key)
                    && self.root_view() is None)
                &&& (match r {
                    Plan::Handle(h, req) => self.routes_view().contains_key(key)
                        && *h == self.routes_view()[key] && req.wf()
                        && req.query() == req_query_map(t)
                        && req.post() == req_post_map(t),
                    Plan::ServeStatic { fs_path, virtual_path } => req_wellformed(t)
                        && !self.routes_view().contains_key(key)
                        && (match self.root_view() {
                            Some(root) => fs_path@ == resolved_path(root, req_url(t)),
                            None => false,
                        })
                        && virtual_path@ == strip_slashes(req_url(t)),
                    _ => true,
                })
            }),
    {
        match parse_request(text) {
            None => Plan::Malformed,
            Some(p) => {
                match self.routes.dispatch(p.path.as_str(), p.method.as_str()) {
                    Some(h) => Plan::Handle(h, p.request),
                    None => {
                        match &self.document_root {
                            Some(root) => {
                                let fs_path = resolve_path(root.as_str(), p.url.as_str());
                                let stripped = strip_slashes_str(p.url.as_str());
                                Plan::ServeStatic { fs_path, virtual_path: stripped.to_owned() }
                            },
                            None => Plan::NoRoot,
                        }
                    },
                }
            },
        }
    }
}

} // verus!
