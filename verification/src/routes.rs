//! The routes of the HTTP listener and what stands before each.

use vstd::prelude::*;

verus! {

/// The handlers of the HTTP listener.
#[derive(Debug, Clone, Copy, PartialEq, Eq, Structural)]
pub enum Handler {
    Livez,
    Health,
    Version,
    Metrics,
    Cypher,
    Flush,
}

/// One route.
#[derive(Debug, Clone, Copy)]
pub struct Route {
    pub path: &'static str,
    pub handler: Handler,
    /// The path names a namespace.
    pub prefixed: bool,
}

impl Handler {
    /// Whether the route is called with `POST`; otherwise with `GET`.
    pub open spec fn posts(self) -> bool {
        self is Cypher || self is Flush
    }

    /// Whether a caller must show a token.
    pub open spec fn private(self) -> bool {
        self is Cypher || self is Flush
    }

    /// Whether memory is reserved before the body is read.
    pub open spec fn reserved(self) -> bool {
        self is Cypher
    }

    /// Whether the request timeout holds.
    pub open spec fn timed(self) -> bool {
        !(self is Flush)
    }

    /// Whether the route is called with `POST`.
    pub fn is_post(self) -> (r: bool)
        ensures
            r == self.posts(),
    {
        match self {
            Handler::Cypher | Handler::Flush => true,
            _ => false,
        }
    }

    /// Whether a caller must show a token. Probes and scrapers carry none.
    pub fn is_private(self) -> (r: bool)
        ensures
            r == self.private(),
    {
        match self {
            Handler::Cypher | Handler::Flush => true,
            _ => false,
        }
    }

    /// Whether memory is reserved before the body is read. A flush passes under
    /// memory pressure, since it relieves it.
    pub fn is_reserved(self) -> (r: bool)
        ensures
            r == self.reserved(),
    {
        match self {
            Handler::Cypher => true,
            _ => false,
        }
    }

    /// Whether the request timeout holds. A flush may rightly outlive it.
    pub fn is_timed(self) -> (r: bool)
        ensures
            r == self.timed(),
    {
        match self {
            Handler::Flush => false,
            _ => true,
        }
    }
}

/// The routes of a server with one namespace.
pub open spec fn single_routes() -> Seq<Route> {
    seq![
        Route { path: "/v0/livez", handler: Handler::Livez, prefixed: false },
        Route { path: "/v0/health", handler: Handler::Health, prefixed: false },
        Route { path: "/v0/version", handler: Handler::Version, prefixed: false },
        Route { path: "/v0/metrics", handler: Handler::Metrics, prefixed: false },
        Route { path: "/v0/cypher", handler: Handler::Cypher, prefixed: false },
        Route { path: "/v0/admin/flush", handler: Handler::Flush, prefixed: false },
    ]
}

/// The routes of a server with many namespaces: those of one with a namespace in
/// front, besides those that take it from a header or the default. Version and
/// metrics are of the process.
pub open spec fn multi_routes() -> Seq<Route> {
    single_routes() + seq![
        Route { path: "/:namespace/v0/livez", handler: Handler::Livez, prefixed: true },
        Route { path: "/:namespace/v0/health", handler: Handler::Health, prefixed: true },
        Route { path: "/:namespace/v0/cypher", handler: Handler::Cypher, prefixed: true },
        Route { path: "/:namespace/v0/admin/flush", handler: Handler::Flush, prefixed: true },
    ]
}

/// The routes of a server.
pub fn routes(multi_tenant: bool) -> (r: Vec<Route>)
    ensures
        r@ == if multi_tenant {
            multi_routes()
        } else {
            single_routes()
        },
{
    let mut out: Vec<Route> = vec![
        Route { path: "/v0/livez", handler: Handler::Livez, prefixed: false },
        Route { path: "/v0/health", handler: Handler::Health, prefixed: false },
        Route { path: "/v0/version", handler: Handler::Version, prefixed: false },
        Route { path: "/v0/metrics", handler: Handler::Metrics, prefixed: false },
        Route { path: "/v0/cypher", handler: Handler::Cypher, prefixed: false },
        Route { path: "/v0/admin/flush", handler: Handler::Flush, prefixed: false },
    ];
    assert(out@ =~= single_routes());
    if multi_tenant {
        out.push(Route { path: "/:namespace/v0/livez", handler: Handler::Livez, prefixed: true });
        out.push(Route { path: "/:namespace/v0/health", handler: Handler::Health, prefixed: true });
        out.push(Route { path: "/:namespace/v0/cypher", handler: Handler::Cypher, prefixed: true });
        out.push(
            Route {
                path: "/:namespace/v0/admin/flush",
                handler: Handler::Flush,
                prefixed: true,
            },
        );
        assert(out@ =~= multi_routes());
    }
    out
}

/// Every handler of a server with one namespace has its one path, and on a server
/// with many every one of them but the version and the metrics, which are of the
/// process, is also reached under the name of a namespace in front of that path.
pub proof fn law_routes_lead_to_handlers(i: int)
    ensures
        single_routes().len() == 6,
        multi_routes().len() == 10,
        0 <= i < 6 ==> multi_routes()[i] == single_routes()[i],
        0 <= i < 6 ==> !single_routes()[i].prefixed && single_routes()[i].path@ == match
            single_routes()[i].handler {
            Handler::Livez => "/v0/livez"@,
            Handler::Health => "/v0/health"@,
            Handler::Version => "/v0/version"@,
            Handler::Metrics => "/v0/metrics"@,
            Handler::Cypher => "/v0/cypher"@,
            Handler::Flush => "/v0/admin/flush"@,
        },
        forall|a: int, b: int|
            0 <= a < 6 && 0 <= b < 6 && (#[trigger] single_routes()[a]).handler == (
            #[trigger] single_routes()[b]).handler ==> a == b,
        6 <= i < 10 ==> {
            let r = multi_routes()[i];
            &&& r.prefixed
            &&& !(r.handler is Version) && !(r.handler is Metrics)
            &&& exists|j: int|
                0 <= j < 6 && (#[trigger] single_routes()[j]).handler == r.handler && r.path@
                    == "/:namespace"@ + single_routes()[j].path@
        },
{
    reveal_strlit("/:namespace");
    reveal_strlit("/v0/livez");
    reveal_strlit("/v0/health");
    reveal_strlit("/v0/cypher");
    reveal_strlit("/v0/admin/flush");
    reveal_strlit("/:namespace/v0/livez");
    reveal_strlit("/:namespace/v0/health");
    reveal_strlit("/:namespace/v0/cypher");
    reveal_strlit("/:namespace/v0/admin/flush");
    assert("/:namespace/v0/livez"@ =~= "/:namespace"@ + "/v0/livez"@);
    assert("/:namespace/v0/health"@ =~= "/:namespace"@ + "/v0/health"@);
    assert("/:namespace/v0/cypher"@ =~= "/:namespace"@ + "/v0/cypher"@);
    assert("/:namespace/v0/admin/flush"@ =~= "/:namespace"@ + "/v0/admin/flush"@);
    assert(single_routes()[0].handler is Livez && single_routes()[1].handler is Health);
    assert(single_routes()[4].handler is Cypher && single_routes()[5].handler is Flush);
    if 6 <= i < 10 {
        assert(multi_routes()[6].handler is Livez && multi_routes()[7].handler is Health);
        assert(multi_routes()[8].handler is Cypher && multi_routes()[9].handler is Flush);
    }
}

/// Probes and scrapers need no token and are read with `GET`; queries and flushes
/// need one and are posted.
pub proof fn law_what_is_private(h: Handler)
    ensures
        h.private() <==> h == Handler::Cypher || h == Handler::Flush,
        h.posts() <==> h == Handler::Cypher || h == Handler::Flush,
        h.reserved() <==> h == Handler::Cypher,
        h.timed() <==> h != Handler::Flush,
{
}

/// Whatever creates a working set is private and has memory reserved for it
/// first, and whatever is private and not so reserved is the flush.
pub proof fn law_private_work_is_admitted(h: Handler)
    ensures
        h.reserved() ==> h.private() && h.timed(),
        h.private() && !h.reserved() ==> h is Flush,
        h.posts() <==> h.private(),
{
}

} // verus!
