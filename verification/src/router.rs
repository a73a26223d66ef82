//! The index of routes and catchers of an ignited instance.
//!
//! Routes and catchers are kept in the order in which they were mounted.
//! Before an instance is ignited the index is checked for collisions, and
//! every colliding pair is reported.

use crate::pairs::{lemma_pairs_below, pairs_below, pairs_in_row};
use crate::route::{Catcher, CatcherView, Route, RouteView, catcher_views, route_views};
use vstd::prelude::*;

verus! {

/// Whether the routes at `i` and `j` collide.
pub open spec fn routes_hit(routes: Seq<RouteView>) -> spec_fn(int, int) -> bool {
    |i: int, j: int| routes[i].collides_with(routes[j])
}

/// Whether the catchers at `i` and `j` collide.
pub open spec fn catchers_hit(catchers: Seq<CatcherView>) -> spec_fn(int, int) -> bool {
    |i: int, j: int| catchers[i].collides_with(catchers[j])
}

/// Every pair of colliding routes, the earlier route first: by the place
/// of the earlier route, then by that of the later one.
pub open spec fn route_collisions(routes: Seq<RouteView>) -> Seq<(RouteView, RouteView)> {
    pairs_below(routes_hit(routes), routes.len() as int, routes.len() as int).map_values(
        |p: (int, int)| (routes[p.0], routes[p.1]),
    )
}

/// Every pair of colliding catchers, in the same order.
pub open spec fn catcher_collisions(catchers: Seq<CatcherView>) -> Seq<(CatcherView, CatcherView)> {
    pairs_below(catchers_hit(catchers), catchers.len() as int, catchers.len() as int).map_values(
        |p: (int, int)| (catchers[p.0], catchers[p.1]),
    )
}

/// The views of a sequence of pairs of routes.
pub open spec fn route_pair_views(s: Seq<(Route, Route)>) -> Seq<(RouteView, RouteView)> {
    s.map_values(|p: (Route, Route)| (p.0@, p.1@))
}

/// The views of a sequence of pairs of catchers.
pub open spec fn catcher_pair_views(s: Seq<(Catcher, Catcher)>) -> Seq<(CatcherView, CatcherView)> {
    s.map_values(|p: (Catcher, Catcher)| (p.0@, p.1@))
}

/// Two routes at different places that answer the same method at the same
/// effective path are reported as a pair, the earlier one first.
pub proof fn lemma_colliding_routes_are_reported(routes: Seq<RouteView>, i: int, j: int)
    requires
        0 <= i < j < routes.len(),
        routes[i].method == routes[j].method,
        routes[i].uri.path == routes[j].uri.path,
    ensures
        route_collisions(routes).contains((routes[i], routes[j])),
{
    let hit = routes_hit(routes);
    let pairs = pairs_below(hit, routes.len() as int, routes.len() as int);
    lemma_pairs_below(hit, routes.len() as int, routes.len() as int);
    assert(hit(i, j));
    assert(pairs.contains((i, j)));
    let k = choose|k: int| 0 <= k < pairs.len() && pairs[k] == (i, j);
    assert(route_collisions(routes)[k] == (routes[i], routes[j]));
}

/// Two catchers at different places that answer the same status code below
/// the same base are reported as a pair, the earlier one first.
pub proof fn lemma_colliding_catchers_are_reported(catchers: Seq<CatcherView>, i: int, j: int)
    requires
        0 <= i < j < catchers.len(),
        catchers[i].code == catchers[j].code,
        catchers[i].base.path == catchers[j].base.path,
    ensures
        catcher_collisions(catchers).contains((catchers[i], catchers[j])),
{
    let hit = catchers_hit(catchers);
    let pairs = pairs_below(hit, catchers.len() as int, catchers.len() as int);
    lemma_pairs_below(hit, catchers.len() as int, catchers.len() as int);
    assert(hit(i, j));
    assert(pairs.contains((i, j)));
    let k = choose|k: int| 0 <= k < pairs.len() && pairs[k] == (i, j);
    assert(catcher_collisions(catchers)[k] == (catchers[i], catchers[j]));
}

/// Every reported pair of routes is a pair of two different routes of the
/// list that collide.
pub proof fn lemma_reported_routes_collide(routes: Seq<RouteView>, k: int)
    requires
        0 <= k < route_collisions(routes).len(),
    ensures
        exists|i: int, j: int|
            0 <= i < j < routes.len() && routes[i].collides_with(routes[j]) && route_collisions(
                routes,
            )[k] == (routes[i], routes[j]),
{
    let hit = routes_hit(routes);
    let pairs = pairs_below(hit, routes.len() as int, routes.len() as int);
    lemma_pairs_below(hit, routes.len() as int, routes.len() as int);
    let p = pairs[k];
    assert(pairs.contains((p.0, p.1)));
    assert(0 <= p.0 < p.1 < routes.len() && routes[p.0].collides_with(routes[p.1])
        && route_collisions(routes)[k] == (routes[p.0], routes[p.1]));
}

/// The colliding pairs of an index.
pub struct Collisions {
    pub routes: Vec<(Route, Route)>,
    pub catchers: Vec<(Catcher, Catcher)>,
}

/// The routes and catchers of an instance, in the order of mounting.
pub struct Router {
    routes: Vec<Route>,
    catchers: Vec<Catcher>,
}

impl Router {
    /// The routes, as views.
    pub closed spec fn routes(&self) -> Seq<RouteView> {
        route_views(self.routes@)
    }

    /// The catchers, as views.
    pub closed spec fn catchers(&self) -> Seq<CatcherView> {
        catcher_views(self.catchers@)
    }

    /// No two routes and no two catchers collide.
    pub open spec fn collision_free(&self) -> bool {
        route_collisions(self.routes()).len() == 0 && catcher_collisions(self.catchers()).len()
            == 0
    }

    /// An empty index.
    pub fn new() -> (r: Router)
        ensures
            r.routes() == Seq::<RouteView>::empty(),
            r.catchers() == Seq::<CatcherView>::empty(),
    {
        let r = Router { routes: Vec::new(), catchers: Vec::new() };
        assert(r.routes() =~= Seq::<RouteView>::empty());
        assert(r.catchers() =~= Seq::<CatcherView>::empty());
        r
    }

    /// An index of `routes` and `catchers`, in their order.
    pub fn from_parts(routes: Vec<Route>, catchers: Vec<Catcher>) -> (r: Router)
        ensures
            r.routes() == route_views(routes@),
            r.catchers() == catcher_views(catchers@),
    {
        Router { routes, catchers }
    }

    /// Adds `route` behind the routes.
    pub fn add_route(&mut self, route: Route)
        ensures
            final(self).routes() == old(self).routes().push(route@),
            final(self).catchers() == old(self).catchers(),
    {
        self.routes.push(route);
        assert(self.routes() =~= old(self).routes().push(route@));
    }

    /// Adds `catcher` behind the catchers.
    pub fn add_catcher(&mut self, catcher: Catcher)
        ensures
            final(self).catchers() == old(self).catchers().push(catcher@),
            final(self).routes() == old(self).routes(),
    {
        self.catchers.push(catcher);
        assert(self.catchers() =~= old(self).catchers().push(catcher@));
    }

    /// The routes, in the order of mounting.
    pub fn route_list(&self) -> (r: &Vec<Route>)
        ensures
            route_views(r@) == self.routes(),
    {
        &self.routes
    }

    /// The catchers, in the order of registration.
    pub fn catcher_list(&self) -> (r: &Vec<Catcher>)
        ensures
            catcher_views(r@) == self.catchers(),
    {
        &self.catchers
    }

    /// Every pair of colliding routes.
    pub fn colliding_routes(&self) -> (r: Vec<(Route, Route)>)
        ensures
            route_pair_views(r@) == route_collisions(self.routes()),
    {
        let ghost routes = self.routes();
        let ghost hit = routes_hit(routes);
        let n = self.routes.len();
        let mut found: Vec<(Route, Route)> = Vec::new();
        let mut i: usize = 0;
        while i < n
            invariant
                i <= n == self.routes@.len(),
                routes == self.routes(),
                hit == routes_hit(routes),
                found@.len() == pairs_below(hit, i as int, n as int).len(),
                forall|k: int|
                    0 <= k < found@.len() ==> ({
                        let p = pairs_below(hit, i as int, n as int)[k];
                        (#[trigger] found@[k]).0@ == routes[p.0] && found@[k].1@ == routes[p.1]
                    }),
            decreases n - i,
        {
            let ghost head = pairs_below(hit, i as int, n as int);
            let mut j: usize = i + 1;
            while j < n
                invariant
                    i < j <= n == self.routes@.len(),
                    routes == self.routes(),
                    hit == routes_hit(routes),
                    head == pairs_below(hit, i as int, n as int),
                    found@.len() == (head + pairs_in_row(hit, i as int, j as int)).len(),
                    forall|k: int|
                        0 <= k < found@.len() ==> ({
                            let p = (head + pairs_in_row(hit, i as int, j as int))[k];
                            (#[trigger] found@[k]).0@ == routes[p.0] && found@[k].1@ == routes[p.1]
                        }),
                decreases n - j,
            {
                if self.routes[i].collides_with(&self.routes[j]) {
                    found.push((self.routes[i].clone(), self.routes[j].clone()));
                }
                j = j + 1;
            }
            i = i + 1;
        }
        assert(route_pair_views(found@) =~= route_collisions(routes));
        found
    }

    /// Every pair of colliding catchers.
    pub fn colliding_catchers(&self) -> (r: Vec<(Catcher, Catcher)>)
        ensures
            catcher_pair_views(r@) == catcher_collisions(self.catchers()),
    {
        let ghost catchers = self.catchers();
        let ghost hit = catchers_hit(catchers);
        let n = self.catchers.len();
        let mut found: Vec<(Catcher, Catcher)> = Vec::new();
        let mut i: usize = 0;
        while i < n
            invariant
                i <= n == self.catchers@.len(),
                catchers == self.catchers(),
                hit == catchers_hit(catchers),
                found@.len() == pairs_below(hit, i as int, n as int).len(),
                forall|k: int|
                    0 <= k < found@.len() ==> ({
                        let p = pairs_below(hit, i as int, n as int)[k];
                        (#[trigger] found@[k]).0@ == catchers[p.0] && found@[k].1@ == catchers[p.1]
                    }),
            decreases n - i,
        {
            let ghost head = pairs_below(hit, i as int, n as int);
            let mut j: usize = i + 1;
            while j < n
                invariant
                    i < j <= n == self.catchers@.len(),
                    catchers == self.catchers(),
                    hit == catchers_hit(catchers),
                    head == pairs_below(hit, i as int, n as int),
                    found@.len() == (head + pairs_in_row(hit, i as int, j as int)).len(),
                    forall|k: int|
                        0 <= k < found@.len() ==> ({
                            let p = (head + pairs_in_row(hit, i as int, j as int))[k];
                            (#[trigger] found@[k]).0@ == catchers[p.0] && found@[k].1@
                                == catchers[p.1]
                        }),
                decreases n - j,
            {
                if self.catchers[i].collides_with(&self.catchers[j]) {
                    found.push((self.catchers[i].clone(), self.catchers[j].clone()));
                }
                j = j + 1;
            }
            i = i + 1;
        }
        assert(catcher_pair_views(found@) =~= catcher_collisions(catchers));
        found
    }

    /// Checks the index for collisions: `Ok` if there is none, else every
    /// colliding pair of routes and of catchers.
    pub fn finalize(&self) -> (r: Result<(), Collisions>)
        ensures
            r is Ok <==> self.collision_free(),
            r matches Err(c) ==> route_pair_views(c.routes@) == route_collisions(self.routes())
                && catcher_pair_views(c.catchers@) == catcher_collisions(self.catchers()),
    {
        let routes = self.colliding_routes();
        let catchers = self.colliding_catchers();
        if routes.len() == 0 && catchers.len() == 0 {
            Ok(())
        } else {
            Err(Collisions { routes, catchers })
        }
    }
}

} // verus!
