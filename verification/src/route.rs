//! Routes and catchers: what is mounted on an instance.
//!
//! A route answers requests of one method at one URI; a catcher answers
//! failures of one status code below one base. Both name their handler by an
//! identifier: dispatching requests is not this library's work.

use crate::uri::{joined, Origin, OriginView};
use vstd::prelude::*;

verus! {

/// A request method.
#[derive(Clone, Copy, Debug, PartialEq, Eq, Structural)]
pub enum Method {
    Get,
    Put,
    Post,
    Delete,
    Options,
    Head,
    Trace,
    Connect,
    Patch,
}

/// A validator that a route brings along. After ignition each one is asked
/// whether the instance must not be launched.
pub struct Sentry {
    pub name: String,
    pub identity: u64,
}

/// What a sentry is.
pub struct SentryView {
    pub name: Seq<char>,
    pub identity: u64,
}

impl View for Sentry {
    type V = SentryView;

    open spec fn view(&self) -> SentryView {
        SentryView { name: self.name@, identity: self.identity }
    }
}

impl Clone for Sentry {
    fn clone(&self) -> (r: Sentry)
        ensures
            r@ == self@,
    {
        Sentry { name: self.name.clone(), identity: self.identity }
    }
}

/// The views of a sequence of sentries.
pub open spec fn sentry_views(s: Seq<Sentry>) -> Seq<SentryView> {
    s.map_values(|x: Sentry| x@)
}

/// A copy of `sentries`.
fn clone_sentries(sentries: &Vec<Sentry>) -> (r: Vec<Sentry>)
    ensures
        sentry_views(r@) == sentry_views(sentries@),
{
    let mut out: Vec<Sentry> = Vec::new();
    let mut i: usize = 0;
    while i < sentries.len()
        invariant
            i <= sentries.len(),
            out@.len() == i,
            forall|k: int| 0 <= k < i ==> (#[trigger] out@[k])@ == sentries@[k]@,
        decreases sentries.len() - i,
    {
        out.push(sentries[i].clone());
        i = i + 1;
    }
    assert(sentry_views(out@) =~= sentry_views(sentries@));
    out
}

/// What a route is.
pub struct RouteView {
    pub method: Method,
    pub name: Seq<char>,
    pub handler: u64,
    pub rank: nat,
    pub base: OriginView,
    pub path: OriginView,
    pub uri: OriginView,
    pub sentinels: Seq<SentryView>,
}

impl RouteView {
    /// The route as it is once mounted at `base` as the `rank`-th route: the
    /// base loses its query, and the effective URI is the base joined with
    /// the route's own URI.
    pub open spec fn rebased(self, base: OriginView, rank: nat) -> RouteView {
        RouteView {
            rank,
            base: base.without_query(),
            uri: joined(base.without_query(), self.path),
            ..self
        }
    }

    /// The effective URI is the base joined with the route's own URI, and
    /// the base has no query.
    pub open spec fn consistent(self) -> bool {
        &&& self.base.query is None
        &&& self.uri == joined(self.base, self.path)
    }

    /// Two routes collide when they answer the same method at the same
    /// effective path.
    pub open spec fn collides_with(self, other: RouteView) -> bool {
        self.method == other.method && self.uri.path == other.uri.path
    }
}

/// A route.
///
/// Its effective URI is always the join of its base and its own URI.
pub struct Route {
    method: Method,
    name: String,
    handler: u64,
    rank: usize,
    base: Origin,
    path: Origin,
    uri: Origin,
    sentinels: Vec<Sentry>,
}

impl View for Route {
    type V = RouteView;

    closed spec fn view(&self) -> RouteView {
        RouteView {
            method: self.method,
            name: self.name@,
            handler: self.handler,
            rank: self.rank as nat,
            base: self.base@,
            path: self.path@,
            uri: self.uri@,
            sentinels: sentry_views(self.sentinels@),
        }
    }
}

impl Clone for Route {
    fn clone(&self) -> (r: Route)
        ensures
            r@ == self@,
    {
        proof {
            use_type_invariant(self);
        }
        Route {
            method: self.method,
            name: self.name.clone(),
            handler: self.handler,
            rank: self.rank,
            base: self.base.clone(),
            path: self.path.clone(),
            uri: self.uri.clone(),
            sentinels: clone_sentries(&self.sentinels),
        }
    }
}

impl Route {
    /// The invariant of the type.
    #[verifier::type_invariant]
    pub open spec fn well_formed(&self) -> bool {
        self@.consistent()
    }

    /// A route for `method` at `path`, answered by `handler`. It is not
    /// mounted yet: its base is `/`, its rank 0, and it has no name and no
    /// sentinel.
    pub fn new(method: Method, path: Origin, handler: u64) -> (r: Route)
        ensures
            r@ == (RouteView {
                method,
                name: Seq::<char>::empty(),
                handler,
                rank: 0,
                base: OriginView { path: seq!['/'], query: None },
                path: path@,
                uri: joined(OriginView { path: seq!['/'], query: None }, path@),
                sentinels: Seq::<SentryView>::empty(),
            }),
    {
        let base = Origin::root();
        let uri = base.join(&path);
        let sentinels: Vec<Sentry> = Vec::new();
        assert(sentry_views(sentinels@) == Seq::<SentryView>::empty());
        Route { method, name: String::new(), handler, rank: 0, base, path, uri, sentinels }
    }

    /// The same route under the name `name`.
    pub fn named(self, name: String) -> (r: Route)
        ensures
            r@ == (RouteView { name: name@, ..self@ }),
    {
        proof {
            use_type_invariant(&self);
        }
        Route { name, ..self }
    }

    /// The same route with `sentry` added behind its sentinels.
    pub fn guarded(self, sentry: Sentry) -> (r: Route)
        ensures
            r@ == (RouteView { sentinels: self@.sentinels.push(sentry@), ..self@ }),
    {
        proof {
            use_type_invariant(&self);
        }
        let Route { method, name, handler, rank, base, path, uri, sentinels } = self;
        let mut sentinels = sentinels;
        let ghost before = sentinels@;
        sentinels.push(sentry);
        assert(sentry_views(sentinels@) == sentry_views(before).push(sentry@));
        Route { method, name, handler, rank, base, path, uri, sentinels }
    }

    /// The route mounted at `base` as the `rank`-th route. The query of
    /// `base` is ignored.
    pub fn rebase(self, base: &Origin, rank: usize) -> (r: Route)
        ensures
            r@ == self@.rebased(base@, rank as nat),
    {
        proof {
            use_type_invariant(&self);
        }
        let base = base.clone().clear_query();
        let uri = base.join(&self.path);
        Route { rank, base, uri, ..self }
    }

    /// The method.
    pub fn method(&self) -> (r: Method)
        ensures
            r == self@.method,
    {
        self.method
    }

    /// The name; empty if the route was given none.
    pub fn name(&self) -> (r: &str)
        ensures
            r@ == self@.name,
    {
        self.name.as_str()
    }

    /// The identifier of the handler.
    pub fn handler(&self) -> (r: u64)
        ensures
            r == self@.handler,
    {
        self.handler
    }

    /// The rank: the place of the route among the routes of the instance
    /// that it was mounted on.
    pub fn rank(&self) -> (r: usize)
        ensures
            r == self@.rank,
    {
        self.rank
    }

    /// The base at which the route is mounted.
    pub fn base(&self) -> (r: &Origin)
        ensures
            r@ == self@.base,
    {
        &self.base
    }

    /// The route's own URI, as it was before mounting.
    pub fn path(&self) -> (r: &Origin)
        ensures
            r@ == self@.path,
    {
        &self.path
    }

    /// The effective URI: the one that requests are matched against.
    pub fn uri(&self) -> (r: &Origin)
        ensures
            r@ == self@.uri,
            r@ == joined(self@.base, self@.path),
    {
        proof {
            use_type_invariant(self);
        }
        &self.uri
    }

    /// The sentinels.
    pub fn sentinels(&self) -> (r: &Vec<Sentry>)
        ensures
            sentry_views(r@) == self@.sentinels,
    {
        &self.sentinels
    }

    /// Whether the two routes collide.
    pub fn collides_with(&self, other: &Route) -> (r: bool)
        ensures
            r == self@.collides_with(other@),
    {
        self.method == other.method && self.uri.same_path(&other.uri)
    }
}

/// What a catcher is.
pub struct CatcherView {
    pub name: Seq<char>,
    pub code: Option<u16>,
    pub handler: u64,
    pub rank: nat,
    pub base: OriginView,
}

impl CatcherView {
    /// The catcher as it is once registered below `base` as the `rank`-th
    /// catcher. The base loses its query; nothing is joined.
    pub open spec fn rebased(self, base: OriginView, rank: nat) -> CatcherView {
        CatcherView { rank, base: base.without_query(), ..self }
    }

    /// Two catchers collide when they answer the same status code below the
    /// same base.
    pub open spec fn collides_with(self, other: CatcherView) -> bool {
        self.code == other.code && self.base.path == other.base.path
    }
}

/// A catcher: the handler of the failures of one status code, or of all
/// (`None`), below one base.
pub struct Catcher {
    name: String,
    code: Option<u16>,
    handler: u64,
    rank: usize,
    base: Origin,
}

impl View for Catcher {
    type V = CatcherView;

    closed spec fn view(&self) -> CatcherView {
        CatcherView {
            name: self.name@,
            code: self.code,
            handler: self.handler,
            rank: self.rank as nat,
            base: self.base@,
        }
    }
}

impl Clone for Catcher {
    fn clone(&self) -> (r: Catcher)
        ensures
            r@ == self@,
    {
        Catcher {
            name: self.name.clone(),
            code: self.code,
            handler: self.handler,
            rank: self.rank,
            base: self.base.clone(),
        }
    }
}

impl Catcher {
    /// A catcher for `code`, answered by `handler`. It is not registered
    /// yet: its base is `/`, its rank 0, and it has no name.
    pub fn new(code: Option<u16>, handler: u64) -> (r: Catcher)
        ensures
            r@ == (CatcherView {
                name: Seq::<char>::empty(),
                code,
                handler,
                rank: 0,
                base: OriginView { path: seq!['/'], query: None },
            }),
    {
        Catcher { name: String::new(), code, handler, rank: 0, base: Origin::root() }
    }

    /// The same catcher under the name `name`.
    pub fn named(self, name: String) -> (r: Catcher)
        ensures
            r@ == (CatcherView { name: name@, ..self@ }),
    {
        Catcher { name, ..self }
    }

    /// The catcher registered below `base` as the `rank`-th catcher. The
    /// query of `base` is ignored.
    pub fn rebase(self, base: &Origin, rank: usize) -> (r: Catcher)
        ensures
            r@ == self@.rebased(base@, rank as nat),
    {
        let base = base.clone().clear_query();
        Catcher { rank, base, ..self }
    }

    /// The name; empty if the catcher was given none.
    pub fn name(&self) -> (r: &str)
        ensures
            r@ == self@.name,
    {
        self.name.as_str()
    }

    /// The status code; `None` for a catcher of every code.
    pub fn code(&self) -> (r: Option<u16>)
        ensures
            r == self@.code,
    {
        self.code
    }

    /// The identifier of the handler.
    pub fn handler(&self) -> (r: u64)
        ensures
            r == self@.handler,
    {
        self.handler
    }

    /// The rank: the place of the catcher among the catchers of the
    /// instance that it was registered on.
    pub fn rank(&self) -> (r: usize)
        ensures
            r == self@.rank,
    {
        self.rank
    }

    /// The base below which the catcher is registered.
    pub fn base(&self) -> (r: &Origin)
        ensures
            r@ == self@.base,
    {
        &self.base
    }

    /// Whether the two catchers collide.
    pub fn collides_with(&self, other: &Catcher) -> (r: bool)
        ensures
            r == self@.collides_with(other@),
    {
        let same_code = match (self.code, other.code) {
            (Some(a), Some(b)) => a == b,
            (None, None) => true,
            _ => false,
        };
        same_code && self.base.same_path(&other.base)
    }
}

/// The views of a sequence of routes.
pub open spec fn route_views(s: Seq<Route>) -> Seq<RouteView> {
    s.map_values(|x: Route| x@)
}

/// The views of a sequence of catchers.
pub open spec fn catcher_views(s: Seq<Catcher>) -> Seq<CatcherView> {
    s.map_values(|x: Catcher| x@)
}

} // verus!
