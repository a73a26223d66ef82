//! The instance and its three stages.
//!
//! `Rocket<Build>` is assembled: routes are mounted, catchers registered,
//! state managed, hooks attached, the configuration source replaced.
//! Ignition turns it into a `Rocket<Ignite>`, whose configuration is final.
//! Bound to its endpoints that becomes a `Rocket<Orbit>`, which serves until
//! it is drained and comes back as a `Rocket<Ignite>`.
//!
//! Only `Rocket<Build>` has operations that change the configuration.

use crate::config::{Config, ConfigView, configuration_of, default_config, empty_figment};
use crate::config::{is_debug, secured};
use crate::failure::{Failure, FailureKind};
use crate::fairing::{
    Fairings, HookView, Info, InfoView, as_ints, attached, conflicts, first_of, handed_out,
    identity_marks, info_pair_views, info_views, liftoff_marks, next_pending, places,
    shutdown_marks,
};
use crate::launch::{Controller, Flight};
use crate::listener::{BindFailure, Endpoint, EndpointView, endpoint_views};
use crate::route::{
    Catcher, CatcherView, Route, RouteView, Sentry, SentryView, catcher_views, route_views,
    sentry_views,
};
use crate::router::{
    Collisions, Router, catcher_collisions, catcher_pair_views,
    lemma_colliding_routes_are_reported, route_collisions, route_pair_views,
};
use crate::shutdown::{Drain, Shutdown, Stage};
use crate::state::{Container, Frozen, Value};
use crate::uri::{Origin, OriginView, is_base, joined, parse_origin, query_mark};
use figment::Figment;
use std::sync::Arc;
use vstd::prelude::*;

verus! {

/// The stage of an instance.
#[derive(Clone, Copy, Debug, PartialEq, Eq, Structural)]
pub enum PhaseKind {
    Build,
    Ignite,
    Orbit,
}

/// What an instance is, at any stage. A later stage keeps what the earlier
/// ones gathered.
pub struct RocketView {
    /// The stage.
    pub phase: PhaseKind,
    /// The routes, in the order of mounting.
    pub routes: Seq<RouteView>,
    /// The catchers, in the order of registration.
    pub catchers: Seq<CatcherView>,
    /// The hooks, in the order of attachment.
    pub fairings: Seq<HookView>,
    /// The hooks that were handed out to run at ignition, in that order.
    pub attempted: Seq<InfoView>,
    /// The managed values, by type identity.
    pub state: Map<u64, Value>,
    /// Whether the managed values are frozen: from ignition on nothing can
    /// be added to them.
    pub frozen: bool,
    /// The configuration source.
    pub figment: Figment,
    /// While building: the configuration as the source gave it when it was
    /// set, if it could be read then.
    pub preview: Option<ConfigView>,
    /// From ignition on: the final configuration.
    pub config: Option<ConfigView>,
    /// From ignition on: the handle on the shutdown signal.
    pub shutdown: Option<Shutdown>,
    /// In orbit: the endpoints.
    pub endpoints: Seq<EndpointView>,
}

/// The view of a configuration that may be there.
pub open spec fn preview_view(c: Option<Config>) -> Option<ConfigView> {
    match c {
        Some(c) => Some(c@),
        None => None,
    }
}

/// What `read` gave, if it gave a configuration.
pub open spec fn readable(read: Result<ConfigView, figment::Error>) -> Option<ConfigView> {
    match read {
        Ok(c) => Some(c),
        Err(_) => None,
    }
}

/// `routes` as they are once mounted at `base`, behind `from` routes that
/// are mounted already.
pub open spec fn mounted(base: OriginView, routes: Seq<RouteView>, from: nat) -> Seq<RouteView> {
    Seq::new(routes.len(), |i: int| routes[i].rebased(base, (from + i) as nat))
}

/// `catchers` as they are once registered below `base`, behind `from`
/// catchers that are registered already.
pub open spec fn registered(base: OriginView, catchers: Seq<CatcherView>, from: nat) -> Seq<
    CatcherView,
> {
    Seq::new(catchers.len(), |i: int| catchers[i].rebased(base, (from + i) as nat))
}

impl RocketView {
    /// A new instance with the configuration source `figment`: in the build
    /// stage, with nothing mounted, registered, managed or attached.
    pub open spec fn fresh(figment: Figment) -> RocketView {
        RocketView {
            phase: PhaseKind::Build,
            routes: Seq::empty(),
            catchers: Seq::empty(),
            fairings: Seq::empty(),
            attempted: Seq::empty(),
            state: Map::empty(),
            frozen: false,
            figment,
            preview: readable(configuration_of(figment)),
            config: None,
            shutdown: None,
            endpoints: Seq::empty(),
        }
    }

    /// The rank of every route and of every catcher is its place in the
    /// order of mounting.
    pub open spec fn ranked(self) -> bool {
        &&& forall|i: int| 0 <= i < self.routes.len() ==> (#[trigger] self.routes[i]).rank == i
        &&& forall|i: int| 0 <= i < self.catchers.len() ==> (#[trigger] self.catchers[i]).rank == i
    }
}

/// The state of an instance that is being built.
pub struct Building {
    pub(crate) routes: Vec<Route>,
    pub(crate) catchers: Vec<Catcher>,
    pub(crate) fairings: Fairings,
    pub(crate) figment: Figment,
    pub(crate) state: Container,
    pub(crate) preview: Option<Config>,
}

/// The state of an ignited instance.
pub struct Igniting {
    pub(crate) router: Router,
    pub(crate) fairings: Fairings,
    pub(crate) figment: Figment,
    pub(crate) config: Config,
    pub(crate) state: Frozen,
    pub(crate) shutdown: Shutdown,
}

/// The state of an instance in orbit.
pub struct Orbiting {
    pub(crate) router: Router,
    pub(crate) fairings: Fairings,
    pub(crate) figment: Figment,
    pub(crate) config: Config,
    pub(crate) state: Frozen,
    pub(crate) shutdown: Shutdown,
    pub(crate) endpoints: Vec<Endpoint>,
}

/// The state of an instance of any stage.
pub enum State {
    Build(Building),
    Ignite(Igniting),
    Orbit(Orbiting),
}

/// A reference to the state of an instance of any stage.
pub enum StateRef<'a> {
    Build(&'a Building),
    Ignite(&'a Igniting),
    Orbit(&'a Orbiting),
}

impl Building {
    /// What the state is.
    pub closed spec fn model(&self) -> RocketView {
        RocketView {
            phase: PhaseKind::Build,
            routes: route_views(self.routes@),
            catchers: catcher_views(self.catchers@),
            fairings: self.fairings.hooks(),
            attempted: self.fairings.attempted(),
            state: self.state@,
            frozen: false,
            figment: self.figment,
            preview: preview_view(self.preview),
            config: None,
            shutdown: None,
            endpoints: Seq::empty(),
        }
    }
}

impl Igniting {
    /// What the state is.
    pub closed spec fn model(&self) -> RocketView {
        RocketView {
            phase: PhaseKind::Ignite,
            routes: self.router.routes(),
            catchers: self.router.catchers(),
            fairings: self.fairings.hooks(),
            attempted: self.fairings.attempted(),
            state: self.state@,
            frozen: true,
            figment: self.figment,
            preview: None,
            config: Some(self.config@),
            shutdown: Some(self.shutdown),
            endpoints: Seq::empty(),
        }
    }
}

impl Orbiting {
    /// What the state is.
    pub closed spec fn model(&self) -> RocketView {
        RocketView {
            phase: PhaseKind::Orbit,
            routes: self.router.routes(),
            catchers: self.router.catchers(),
            fairings: self.fairings.hooks(),
            attempted: self.fairings.attempted(),
            state: self.state@,
            frozen: true,
            figment: self.figment,
            preview: None,
            config: Some(self.config@),
            shutdown: Some(self.shutdown),
            endpoints: endpoint_views(self.endpoints@),
        }
    }
}

impl State {
    /// What the state is.
    pub open spec fn model(&self) -> RocketView {
        match self {
            State::Build(s) => s.model(),
            State::Ignite(s) => s.model(),
            State::Orbit(s) => s.model(),
        }
    }
}

impl<'a> StateRef<'a> {
    /// What the state is.
    pub open spec fn model(&self) -> RocketView {
        match self {
            StateRef::Build(s) => s.model(),
            StateRef::Ignite(s) => s.model(),
            StateRef::Orbit(s) => s.model(),
        }
    }
}

/// What the state of every stage can do: be read through a reference that
/// tells the stage, and be turned into the state of any stage.
pub trait Stateful: Sized {
    /// What the state is.
    spec fn model(&self) -> RocketView;

    /// The state, with its stage.
    fn into_state(self) -> (r: State)
        ensures
            r.model() == self.model(),
    ;

    /// A reference to the state, with its stage.
    fn as_ref(&self) -> (r: StateRef<'_>)
        ensures
            r.model() == self.model(),
    ;

    /// The hooks, to be changed in place.
    fn fairings_mut(&mut self) -> (r: &mut Fairings)
        ensures
            r.hooks() == old(self).model().fairings,
            r.attempted() == old(self).model().attempted,
            final(self).model() == (RocketView {
                fairings: final(r).hooks(),
                attempted: final(r).attempted(),
                ..old(self).model()
            }),
    ;
}

impl Stateful for Building {
    closed spec fn model(&self) -> RocketView {
        Building::model(self)
    }

    fn into_state(self) -> (r: State) {
        State::Build(self)
    }

    fn as_ref(&self) -> (r: StateRef<'_>) {
        StateRef::Build(self)
    }

    fn fairings_mut(&mut self) -> (r: &mut Fairings) {
        &mut self.fairings
    }
}

impl Stateful for Igniting {
    closed spec fn model(&self) -> RocketView {
        Igniting::model(self)
    }

    fn into_state(self) -> (r: State) {
        State::Ignite(self)
    }

    fn as_ref(&self) -> (r: StateRef<'_>) {
        StateRef::Ignite(self)
    }

    fn fairings_mut(&mut self) -> (r: &mut Fairings) {
        &mut self.fairings
    }
}

impl Stateful for Orbiting {
    closed spec fn model(&self) -> RocketView {
        Orbiting::model(self)
    }

    fn into_state(self) -> (r: State) {
        State::Orbit(self)
    }

    fn as_ref(&self) -> (r: StateRef<'_>) {
        StateRef::Orbit(self)
    }

    fn fairings_mut(&mut self) -> (r: &mut Fairings) {
        &mut self.fairings
    }
}

/// A stage of the lifecycle, as a type.
pub trait Phase {
    /// The state of an instance at this stage.
    type State: Stateful;
}

/// The build stage: the instance is assembled.
pub struct Build;

/// The ignite stage: the configuration is final.
pub struct Ignite;

/// The orbit stage: the instance is running.
pub struct Orbit;

impl Phase for Build {
    type State = Building;
}

impl Phase for Ignite {
    type State = Igniting;
}

impl Phase for Orbit {
    type State = Orbiting;
}

/// An instance of the service at the stage `P`.
pub struct Rocket<P: Phase>(pub(crate) P::State);

impl<P: Phase> View for Rocket<P> {
    type V = RocketView;

    closed spec fn view(&self) -> RocketView {
        self.0.model()
    }
}

impl Rocket<Build> {
    /// A new instance with an empty configuration source: every setting has
    /// its default.
    pub fn build() -> (r: Rocket<Build>)
        ensures
            r@ == RocketView::fresh(r@.figment),
            configuration_of(r@.figment) == Ok::<ConfigView, figment::Error>(default_config()),
            r@.preview == Some(default_config()),
    {
        Rocket::custom(empty_figment())
    }

    /// A new instance with the configuration source `figment`.
    pub fn custom(figment: Figment) -> (r: Rocket<Build>)
        ensures
            r@ == RocketView::fresh(figment),
    {
        let preview = match Config::try_from(&figment) {
            Ok(c) => Some(c),
            Err(_) => None,
        };
        let building = Building {
            routes: Vec::new(),
            catchers: Vec::new(),
            fairings: Fairings::new(),
            figment,
            state: Container::new(),
            preview,
        };
        assert(building.model().routes =~= Seq::<RouteView>::empty());
        assert(building.model().catchers =~= Seq::<CatcherView>::empty());
        Rocket(building)
    }

    /// Replaces the configuration source by `figment`. Nothing of the old
    /// source is kept. The configuration is read from the new source at once,
    /// as far as it can be read; that it cannot be read is no error here:
    /// ignition reads it again.
    pub fn reconfigure(self, figment: Figment) -> (r: Rocket<Build>)
        ensures
            r@ == (RocketView {
                figment,
                preview: readable(configuration_of(figment)),
                ..self@
            }),
    {
        let preview = match Config::try_from(&figment) {
            Ok(c) => Some(c),
            Err(_) => None,
        };
        let Building { routes, catchers, fairings, figment: _, state, preview: _ } = self.0;
        Rocket(Building { routes, catchers, fairings, figment, state, preview })
    }

    /// The configuration as the source gave it when it was set, if it could
    /// be read then.
    pub fn preview(&self) -> (r: Option<&Config>)
        ensures
            match r {
                Some(c) => self@.preview == Some(c@),
                None => self@.preview is None,
            },
    {
        self.0.preview.as_ref()
    }

    /// Mounts `routes` at `base`: each route is added behind the routes of
    /// the instance, with `base` as its base, its effective URI joined from
    /// the two, and its place as its rank. A query of `base` is ignored.
    pub fn mount(self, base: &str, routes: Vec<Route>) -> (r: Rocket<Build>)
        requires
            is_base(base@),
        ensures
            r@ == (RocketView {
                routes: self@.routes + mounted(
                    parse_origin(base@),
                    route_views(routes@),
                    self@.routes.len(),
                ),
                ..self@
            }),
    {
        let origin = Origin::parse(base).unwrap();
        let Building { routes: mounted_routes, catchers, fairings, figment, state, preview } =
            self.0;
        let mut all = mounted_routes;
        let ghost before = route_views(all@);
        let ghost given = route_views(routes@);
        let ghost list = routes@;
        for route in it: routes
            invariant
                it.seq() == list,
                given == route_views(list),
                origin@ == parse_origin(base@),
                all@.len() == before.len() + it.index(),
                forall|k: int| 0 <= k < before.len() ==> (#[trigger] all@[k])@ == before[k],
                forall|k: int|
                    0 <= k < it.index() ==> (#[trigger] all@[before.len() + k])@ == given[k].rebased(
                        origin@,
                        (before.len() + k) as nat,
                    ),
        {
            let rank = all.len();
            all.push(route.rebase(&origin, rank));
        }
        let r = Rocket(Building { routes: all, catchers, fairings, figment, state, preview });
        assert(r@.routes =~= before + mounted(parse_origin(base@), given, before.len()));
        r
    }

    /// Registers `catchers` below `base`: each catcher is added behind the
    /// catchers of the instance, with `base` as its base and its place as its
    /// rank. Nothing is joined. A query of `base` is ignored.
    pub fn register(self, base: &str, catchers: Vec<Catcher>) -> (r: Rocket<Build>)
        requires
            is_base(base@),
        ensures
            r@ == (RocketView {
                catchers: self@.catchers + registered(
                    parse_origin(base@),
                    catcher_views(catchers@),
                    self@.catchers.len(),
                ),
                ..self@
            }),
    {
        let origin = Origin::parse(base).unwrap();
        let Building { routes, catchers: registered_catchers, fairings, figment, state, preview } =
            self.0;
        let mut all = registered_catchers;
        let ghost before = catcher_views(all@);
        let ghost given = catcher_views(catchers@);
        let ghost list = catchers@;
        for catcher in it: catchers
            invariant
                it.seq() == list,
                given == catcher_views(list),
                origin@ == parse_origin(base@),
                all@.len() == before.len() + it.index(),
                forall|k: int| 0 <= k < before.len() ==> (#[trigger] all@[k])@ == before[k],
                forall|k: int|
                    0 <= k < it.index() ==> (#[trigger] all@[before.len() + k])@ == given[k].rebased(
                        origin@,
                        (before.len() + k) as nat,
                    ),
        {
            let rank = all.len();
            all.push(catcher.rebase(&origin, rank));
        }
        let r = Rocket(Building { routes, catchers: all, fairings, figment, state, preview });
        assert(r@.catchers =~= before + registered(parse_origin(base@), given, before.len()));
        r
    }

    /// Whether a value can be managed for `key`: none is managed for it yet.
    pub fn can_manage(&self, key: u64) -> (r: bool)
        ensures
            r == !self@.state.dom().contains(key),
    {
        !self.0.state.contains(key)
    }

    /// Adds `value` to the managed state, for the type identity `key`. A
    /// value can be managed once for each identity.
    pub fn manage(self, key: u64, value: Value) -> (r: Rocket<Build>)
        requires
            !self@.state.dom().contains(key),
        ensures
            r@ == (RocketView { state: self@.state.insert(key, value), ..self@ }),
    {
        let Building { routes, catchers, fairings, figment, state, preview } = self.0;
        let mut state = state;
        let added = state.set(key, value);
        assert(added);
        Rocket(Building { routes, catchers, fairings, figment, state, preview })
    }

    /// Attaches a hook with the description `info` and the payload `hook`.
    /// It joins the end of the pipeline; if it is a singleton, the hooks of
    /// its identity that are attached already are taken out.
    pub fn attach(self, info: Info, hook: Value) -> (r: Rocket<Build>)
        ensures
            r@ == (RocketView {
                fairings: attached(self@.fairings, HookView { info: info@, ran: false, hook }),
                ..self@
            }),
    {
        let Building { routes, catchers, fairings, figment, state, preview } = self.0;
        let mut fairings = fairings;
        fairings.add(info, hook);
        Rocket(Building { routes, catchers, fairings, figment, state, preview })
    }
}

/// The sentinels of `routes`, route by route.
pub open spec fn all_sentinels(routes: Seq<RouteView>) -> Seq<SentryView>
    decreases routes.len(),
{
    if routes.len() == 0 {
        Seq::empty()
    } else {
        all_sentinels(routes.drop_last()) + routes.last().sentinels
    }
}

/// The sentinels that abort: a sentinel passes only if `verdicts` holds
/// `false` at its place.
pub open spec fn aborting(sentinels: Seq<SentryView>, verdicts: Seq<bool>) -> Seq<SentryView>
    decreases sentinels.len(),
{
    if sentinels.len() == 0 {
        Seq::empty()
    } else {
        let at = sentinels.len() - 1;
        let before = aborting(sentinels.drop_last(), verdicts);
        if at < verdicts.len() && !verdicts[at] {
            before
        } else {
            before.push(sentinels.last())
        }
    }
}

/// What ignition makes of an instance.
pub enum IgnitionView {
    /// The hook at `index` is to run on `rocket`, then ignition goes on.
    Fairing { rocket: RocketView, index: int },
    /// Hooks conflict.
    Conflicts(Seq<(InfoView, InfoView)>),
    /// The configuration cannot be read.
    Config(figment::Error),
    /// Secrets are in use without a secret key in the profile named here.
    Insecure(Seq<char>),
    /// Routes or catchers collide.
    Collisions { routes: Seq<(RouteView, RouteView)>, catchers: Seq<(CatcherView, CatcherView)> },
    /// The instance ignites as `rocket`, which lacks only its shutdown
    /// handle; `inspect` says whether sentinels are still to be asked.
    Ready { rocket: RocketView, inspect: bool },
}

/// One step of ignition on the instance `v`, with `ephemeral` as the bytes
/// for a secret key made for this run.
///
/// While a hook that takes part in ignition was not handed out yet, the
/// first such hook is handed out. Once none is left the hooks are audited,
/// the configuration is read and its secret key checked, the routes and
/// catchers are checked for collisions, and the managed state is frozen.
pub open spec fn ignition(v: RocketView, ephemeral: Seq<u8>) -> IgnitionView {
    if let Some(index) = next_pending(v.fairings) {
        IgnitionView::Fairing {
            rocket: RocketView {
                fairings: handed_out(v.fairings, index),
                attempted: v.attempted.push(v.fairings[index].info),
                ..v
            },
            index,
        }
    } else if conflicts(v.fairings).len() > 0 {
        IgnitionView::Conflicts(conflicts(v.fairings))
    } else {
        match configuration_of(v.figment) {
            Err(e) => IgnitionView::Config(e),
            Ok(read) => match secured(read, ephemeral) {
                Err(profile) => IgnitionView::Insecure(profile),
                Ok(config) => if route_collisions(v.routes).len() > 0 || catcher_collisions(
                    v.catchers,
                ).len() > 0 {
                    IgnitionView::Collisions {
                        routes: route_collisions(v.routes),
                        catchers: catcher_collisions(v.catchers),
                    }
                } else {
                    IgnitionView::Ready {
                        rocket: RocketView {
                            phase: PhaseKind::Ignite,
                            frozen: true,
                            preview: None,
                            config: Some(config),
                            ..v
                        },
                        inspect: all_sentinels(v.routes).len() > 0,
                    }
                },
            },
        }
    }
}

/// An ignited instance whose sentinels were not asked yet. It can be read,
/// but not launched.
pub struct Inspection {
    rocket: Rocket<Ignite>,
}

impl View for Inspection {
    type V = RocketView;

    closed spec fn view(&self) -> RocketView {
        self.rocket@
    }
}

/// Where ignition stands.
pub enum Ignition {
    /// The hook at `index` of the pipeline of `rocket` is to run on
    /// `rocket`. If it gives an instance back, ignition goes on with that
    /// one; if it aborts, ignition has failed.
    Fairing { rocket: Rocket<Build>, index: usize },
    /// The sentinels are to be asked.
    Inspect(Inspection),
    /// The instance is ignited.
    Ignited(Rocket<Ignite>),
    /// Ignition failed.
    Failed(Failure),
}

impl Ignition {
    /// `self` is what `expected` describes. Of the shutdown handle of an
    /// ignited instance only this is said: it has one.
    pub open spec fn realizes(self, expected: IgnitionView) -> bool {
        match expected {
            IgnitionView::Fairing { rocket, index } => {
                &&& self matches Ignition::Fairing { rocket: r, index: i }
                &&& r@ == rocket
                &&& i == index
            },
            IgnitionView::Conflicts(pairs) => {
                &&& self matches Ignition::Failed(e)
                &&& e.kind matches FailureKind::FairingConflicts(p)
                &&& info_pair_views(p@) == pairs
            },
            IgnitionView::Config(error) => {
                &&& self matches Ignition::Failed(e)
                &&& e.kind matches FailureKind::Config(f)
                &&& f == error
            },
            IgnitionView::Insecure(profile) => {
                &&& self matches Ignition::Failed(e)
                &&& e.kind matches FailureKind::InsecureSecretKey(p)
                &&& p@ == profile
            },
            IgnitionView::Collisions { routes, catchers } => {
                &&& self matches Ignition::Failed(e)
                &&& e.kind matches FailureKind::Collisions { routes: r, catchers: c }
                &&& route_pair_views(r@) == routes
                &&& catcher_pair_views(c@) == catchers
            },
            IgnitionView::Ready { rocket, inspect } => if inspect {
                &&& self matches Ignition::Inspect(i)
                &&& i@.shutdown is Some
                &&& i@ == (RocketView { shutdown: i@.shutdown, ..rocket })
            } else {
                &&& self matches Ignition::Ignited(r)
                &&& r@.shutdown is Some
                &&& r@ == (RocketView { shutdown: r@.shutdown, ..rocket })
            },
        }
    }
}

impl Rocket<Build> {
    /// Takes one step of ignition; `ephemeral` holds fresh random bytes, of
    /// which a secret key is made for this run where one is needed.
    ///
    /// The caller runs the hook that a step hands out and calls `ignite`
    /// again on the instance that the hook gives back, or `abort` if the hook
    /// aborts.
    pub fn ignite(self, ephemeral: Vec<u8>) -> (r: Ignition)
        ensures
            r.realizes(ignition(self@, ephemeral@)),
    {
        let Building { routes, catchers, fairings, figment, state, preview } = self.0;
        let mut fairings = fairings;
        if let Some(index) = fairings.hand_out() {
            let rocket = Rocket(Building { routes, catchers, fairings, figment, state, preview });
            return Ignition::Fairing { rocket, index };
        }
        if let Err(pairs) = fairings.audit() {
            return Ignition::Failed(Failure::new(FailureKind::FairingConflicts(pairs)));
        }
        let config = match Config::try_from(&figment) {
            Ok(c) => c,
            Err(e) => {
                return Ignition::Failed(Failure::new(FailureKind::Config(e)));
            },
        };
        let config = match config.secure(ephemeral) {
            Ok(c) => c,
            Err(profile) => {
                return Ignition::Failed(Failure::new(FailureKind::InsecureSecretKey(profile)));
            },
        };
        let router = Router::from_parts(routes, catchers);
        if let Err(found) = router.finalize() {
            let Collisions { routes, catchers } = found;
            return Ignition::Failed(Failure::new(FailureKind::Collisions { routes, catchers }));
        }
        let state = state.freeze();
        let shutdown = Shutdown::new();
        let rocket = Rocket(Igniting { router, fairings, figment, config, state, shutdown });
        let inspection = Inspection { rocket };
        if inspection.sentinels().len() > 0 {
            Ignition::Inspect(inspection)
        } else {
            Ignition::Ignited(inspection.rocket)
        }
    }

    /// The failure of an ignition that the hook last handed out has
    /// aborted, for the reason `reason`. It names the hooks that were run,
    /// the one that aborted last. The instance is given up.
    pub fn abort(self, reason: String) -> (e: Failure)
        ensures
            e.kind matches FailureKind::FailedFairings { attempted, reason: given } && info_views(
                attempted@,
            ) == self@.attempted && given == reason,
    {
        let attempted = self.0.fairings.into_attempts();
        Failure::new(FailureKind::FailedFairings { attempted, reason })
    }
}

impl Inspection {
    /// The instance, to be read.
    pub fn rocket(&self) -> (r: &Rocket<Ignite>)
        ensures
            r@ == self@,
    {
        &self.rocket
    }

    /// The sentinels that are to be asked, route by route.
    pub fn sentinels(&self) -> (r: Vec<Sentry>)
        ensures
            sentry_views(r@) == all_sentinels(self@.routes),
    {
        let routes = self.rocket.0.router.route_list();
        let ghost views = route_views(routes@);
        let mut out: Vec<Sentry> = Vec::new();
        let mut i: usize = 0;
        while i < routes.len()
            invariant
                i <= routes@.len(),
                views == route_views(routes@),
                sentry_views(out@) == all_sentinels(views.subrange(0, i as int)),
            decreases routes.len() - i,
        {
            let own = routes[i].sentinels();
            let ghost head = sentry_views(out@);
            let mut j: usize = 0;
            while j < own.len()
                invariant
                    j <= own@.len(),
                    sentry_views(out@) == head + sentry_views(own@).subrange(0, j as int),
                decreases own.len() - j,
            {
                let ghost so_far = out@;
                out.push(own[j].clone());
                assert(sentry_views(out@) =~= sentry_views(so_far).push(own@[j as int]@));
                assert(sentry_views(out@) =~= head + sentry_views(own@).subrange(0, j + 1));
                j = j + 1;
            }
            proof {
                assert(sentry_views(own@).subrange(0, j as int) =~= sentry_views(own@));
                assert(views.subrange(0, i + 1).drop_last() =~= views.subrange(0, i as int));
            }
            i = i + 1;
        }
        assert(views.subrange(0, i as int) =~= views);
        out
    }

    /// Ends the inspection with the verdicts of the sentinels, in the order
    /// of `sentinels`: `true` asks for an abort, and a sentinel without a
    /// verdict counts as one that asks for it. If no sentinel aborts, the
    /// instance is ignited; else the failure names every sentinel that does.
    pub fn conclude(self, verdicts: Vec<bool>) -> (r: Result<Rocket<Ignite>, Failure>)
        ensures
            match r {
                Ok(rocket) => rocket@ == self@ && aborting(
                    all_sentinels(self@.routes),
                    verdicts@,
                ).len() == 0,
                Err(e) => e.kind matches FailureKind::SentinelAborts(list) && list@.len() > 0
                    && sentry_views(list@) == aborting(all_sentinels(self@.routes), verdicts@),
            },
    {
        let asked = self.sentinels();
        let ghost views = sentry_views(asked@);
        let mut list: Vec<Sentry> = Vec::new();
        let mut at: usize = 0;
        while at < asked.len()
            invariant
                at <= asked@.len(),
                views == sentry_views(asked@),
                sentry_views(list@) == aborting(views.subrange(0, at as int), verdicts@),
            decreases asked.len() - at,
        {
            let sentry = asked[at].clone();
            proof {
                let next = views.subrange(0, at + 1);
                assert(next.drop_last() =~= views.subrange(0, at as int));
                assert(sentry_views(list@.push(sentry)) =~= sentry_views(list@).push(sentry@));
            }
            if !(at < verdicts.len() && !verdicts[at]) {
                list.push(sentry);
            }
            at = at + 1;
        }
        assert(views.subrange(0, views.len() as int) =~= views);
        if list.len() == 0 {
            Ok(self.rocket)
        } else {
            Err(Failure::new(FailureKind::SentinelAborts(list)))
        }
    }
}

/// `Arc::try_unwrap`: the inner value if the reference is the only one;
/// else the same reference.
#[verifier::external_body]
fn try_unwrap(this: Arc<Rocket<Orbit>>) -> (r: Result<Rocket<Orbit>, Arc<Rocket<Orbit>>>)
    ensures
        match r {
            Ok(rocket) => rocket == *this,
            Err(shared) => shared == this,
        },
{
    Arc::try_unwrap(this)
}

impl RocketView {
    /// The instance in orbit, bound to `endpoints`.
    pub open spec fn in_orbit(self, endpoints: Seq<EndpointView>) -> RocketView {
        RocketView { phase: PhaseKind::Orbit, endpoints, ..self }
    }

    /// The instance back from orbit: ignited, and bound to nothing.
    pub open spec fn deorbited(self) -> RocketView {
        RocketView { phase: PhaseKind::Ignite, endpoints: Seq::empty(), ..self }
    }
}

impl Rocket<Ignite> {
    /// The final configuration.
    pub fn config(&self) -> (r: &Config)
        ensures
            self@.config == Some(r@),
    {
        &self.0.config
    }

    /// A handle on the shutdown signal of this instance. A signal that is
    /// given before the launch takes effect as soon as the instance is in
    /// orbit.
    pub fn shutdown(&self) -> (r: Shutdown)
        ensures
            self@.shutdown == Some(r),
    {
        self.0.shutdown.clone()
    }

    /// The instance in orbit, bound to `endpoints`.
    pub fn into_orbit(self, endpoints: Vec<Endpoint>) -> (r: Rocket<Orbit>)
        requires
            endpoints@.len() > 0,
        ensures
            r@ == self@.in_orbit(endpoint_views(endpoints@)),
    {
        let Igniting { router, fairings, figment, config, state, shutdown } = self.0;
        Rocket(Orbiting { router, fairings, figment, config, state, shutdown, endpoints })
    }

    /// What the transport's answer makes of the instance: bound to one
    /// endpoint or more it goes into orbit; a failure to bind, or no endpoint
    /// at all, is a bind failure and the instance is given up.
    pub fn bound(self, binding: Result<Vec<Endpoint>, BindFailure>) -> (r: Result<
        Rocket<Orbit>,
        Failure,
    >)
        ensures
            match binding {
                Ok(endpoints) => if endpoints@.len() > 0 {
                    r matches Ok(rocket) && rocket@ == self@.in_orbit(endpoint_views(endpoints@))
                } else {
                    r matches Err(e) && e.kind matches FailureKind::Bind(None, _)
                },
                Err(failure) => r matches Err(e) && e.kind == FailureKind::Bind(
                    failure.endpoint,
                    failure.cause,
                ),
            },
    {
        match binding {
            Ok(endpoints) => {
                if endpoints.len() > 0 {
                    Ok(self.into_orbit(endpoints))
                } else {
                    Err(Failure::new(FailureKind::Bind(None, String::new())))
                }
            },
            Err(failure) => {
                let BindFailure { endpoint, cause } = failure;
                Err(Failure::new(FailureKind::Bind(endpoint, cause)))
            },
        }
    }
}

impl Rocket<Orbit> {
    /// The final configuration.
    pub fn config(&self) -> (r: &Config)
        ensures
            self@.config == Some(r@),
    {
        &self.0.config
    }

    /// The endpoints that the instance is bound to.
    pub fn endpoints(&self) -> (r: &Vec<Endpoint>)
        ensures
            endpoint_views(r@) == self@.endpoints,
    {
        &self.0.endpoints
    }

    /// A handle on the shutdown signal of this instance.
    pub fn shutdown(&self) -> (r: Shutdown)
        ensures
            self@.shutdown == Some(r),
    {
        self.0.shutdown.clone()
    }

    /// The instance back from orbit.
    pub fn deorbit(self) -> (r: Rocket<Ignite>)
        ensures
            r@ == self@.deorbited(),
    {
        let Orbiting { router, fairings, figment, config, state, shutdown, endpoints: _ } = self.0;
        Rocket(Igniting { router, fairings, figment, config, state, shutdown })
    }

    /// The places of the hooks that are to run at liftoff. They may run in
    /// any order and at once; serving starts when all have ended.
    pub fn liftoff(&self) -> (r: Vec<usize>)
        ensures
            as_ints(r@) == places(liftoff_marks(self@.fairings)),
    {
        self.0.fairings.liftoff()
    }

    /// The places of the hooks that are to be started when the shutdown
    /// signal is observed. The drain does not wait for them.
    pub fn shutdown_fairings(&self) -> (r: Vec<usize>)
        ensures
            as_ints(r@) == places(shutdown_marks(self@.fairings)),
    {
        self.0.fairings.shutdown()
    }

    /// A controller for the launch of this instance, with the periods of
    /// the configuration.
    pub fn controller(&self) -> (r: Controller)
        ensures
            self@.config matches Some(c) && r == (Controller {
                flight: Flight::Grounded,
                signalled: false,
                fault: false,
                drain: Drain { stage: Stage::Running, waited: 0, config: c.shutdown },
            }),
    {
        Controller::new(self.0.config.shutdown)
    }

    /// Takes the instance back from those that shared it: if `this` is the
    /// only reference left, the result is the instance, back from orbit;
    /// else it is `this`.
    pub fn reclaim(this: Arc<Rocket<Orbit>>) -> (r: Result<Rocket<Ignite>, Arc<Rocket<Orbit>>>)
        ensures
            match r {
                Ok(rocket) => rocket@ == this@.deorbited(),
                Err(shared) => shared == this,
            },
    {
        match try_unwrap(this) {
            Ok(rocket) => Ok(rocket.deorbit()),
            Err(shared) => Err(shared),
        }
    }

    /// How a launch ends, from what the drain gave and from the fault of
    /// liftoff, if there was one. A liftoff fault fails the launch whatever
    /// the drain gave, and carries what it gave. Without one the launch ends
    /// with the instance if the drain gave it, and else fails as a shutdown
    /// that timed out, with the reference to the instance.
    pub fn land(
        drained: Result<Rocket<Ignite>, Arc<Rocket<Orbit>>>,
        fault: Option<String>,
    ) -> (r: Result<Rocket<Ignite>, Failure>)
        ensures
            match fault {
                Some(f) => r matches Err(e) && e.kind matches FailureKind::Liftoff(given, named)
                    && named == f && match drained {
                    Ok(rocket) => given matches Ok(boxed) && *boxed == rocket,
                    Err(shared) => given == Err::<Box<Rocket<Ignite>>, Arc<Rocket<Orbit>>>(shared),
                },
                None => match drained {
                    Ok(rocket) => r == Ok::<Rocket<Ignite>, Failure>(rocket),
                    Err(shared) => r matches Err(e) && e.kind == FailureKind::Shutdown(shared),
                },
            },
    {
        match fault {
            Some(f) => {
                let given = match drained {
                    Ok(rocket) => Ok(Box::new(rocket)),
                    Err(shared) => Err(shared),
                };
                Err(Failure::new(FailureKind::Liftoff(given, f)))
            },
            None => match drained {
                Ok(rocket) => Ok(rocket),
                Err(shared) => Err(Failure::new(FailureKind::Shutdown(shared))),
            },
        }
    }
}

impl<'a> StateRef<'a> {
    /// The routes.
    pub fn routes(&self) -> (r: &'a Vec<Route>)
        ensures
            route_views(r@) == self.model().routes,
    {
        match self {
            StateRef::Build(s) => &s.routes,
            StateRef::Ignite(s) => s.router.route_list(),
            StateRef::Orbit(s) => s.router.route_list(),
        }
    }

    /// The catchers.
    pub fn catchers(&self) -> (r: &'a Vec<Catcher>)
        ensures
            catcher_views(r@) == self.model().catchers,
    {
        match self {
            StateRef::Build(s) => &s.catchers,
            StateRef::Ignite(s) => s.router.catcher_list(),
            StateRef::Orbit(s) => s.router.catcher_list(),
        }
    }

    /// The value managed for `key`, if there is one.
    pub fn state(&self, key: u64) -> (r: Option<&'a Value>)
        ensures
            match r {
                Some(v) => self.model().state.dom().contains(key) && *v == self.model().state[key],
                None => !self.model().state.dom().contains(key),
            },
    {
        match self {
            StateRef::Build(s) => s.state.try_get(key),
            StateRef::Ignite(s) => s.state.try_get(key),
            StateRef::Orbit(s) => s.state.try_get(key),
        }
    }

    /// The hooks.
    pub fn fairings(&self) -> (r: &'a Fairings)
        ensures
            r.hooks() == self.model().fairings,
            r.attempted() == self.model().attempted,
    {
        match self {
            StateRef::Build(s) => &s.fairings,
            StateRef::Ignite(s) => &s.fairings,
            StateRef::Orbit(s) => &s.fairings,
        }
    }

    /// The configuration source.
    pub fn figment(&self) -> (r: &'a Figment)
        ensures
            *r == self.model().figment,
    {
        match self {
            StateRef::Build(s) => &s.figment,
            StateRef::Ignite(s) => &s.figment,
            StateRef::Orbit(s) => &s.figment,
        }
    }
}

impl<P: Phase> Rocket<P> {
    /// The routes, in the order of mounting.
    pub fn routes(&self) -> (r: &Vec<Route>)
        ensures
            route_views(r@) == self@.routes,
    {
        self.0.as_ref().routes()
    }

    /// The catchers, in the order of registration.
    pub fn catchers(&self) -> (r: &Vec<Catcher>)
        ensures
            catcher_views(r@) == self@.catchers,
    {
        self.0.as_ref().catchers()
    }

    /// The value managed for the type identity `key`, if there is one.
    pub fn state(&self, key: u64) -> (r: Option<&Value>)
        ensures
            match r {
                Some(v) => self@.state.dom().contains(key) && *v == self@.state[key],
                None => !self@.state.dom().contains(key),
            },
    {
        self.0.as_ref().state(key)
    }

    /// The hook pipeline, to be read.
    pub fn pipeline(&self) -> (r: &Fairings)
        ensures
            r.hooks() == self@.fairings,
            r.attempted() == self@.attempted,
    {
        self.0.as_ref().fairings()
    }

    /// The payload of the first hook of identity `identity`, if one is
    /// attached.
    pub fn fairing(&self, identity: u64) -> (r: Option<&Value>)
        ensures
            match r {
                Some(v) => first_of(self@.fairings, identity, 0) < self@.fairings.len() && *v
                    == self@.fairings[first_of(self@.fairings, identity, 0)].hook,
                None => first_of(self@.fairings, identity, 0) == self@.fairings.len(),
            },
    {
        let fairings = self.0.as_ref().fairings();
        match fairings.find(identity) {
            Some(at) => Some(fairings.payload(at)),
            None => None,
        }
    }

    /// The payloads of the hooks of identity `identity`, in the order of
    /// attachment.
    pub fn fairings(&self, identity: u64) -> (r: Vec<&Value>)
        ensures
            r@.len() == places(identity_marks(self@.fairings, identity)).len(),
            forall|k: int|
                0 <= k < r@.len() ==> *(#[trigger] r@[k]) == self@.fairings[places(
                    identity_marks(self@.fairings, identity),
                )[k]].hook,
    {
        self.0.as_ref().fairings().payloads(identity)
    }

    /// The payload of the first hook of identity `identity`, to be changed
    /// in place. Nothing else of the instance changes.
    pub fn fairing_mut(&mut self, identity: u64) -> (r: Option<&mut Value>)
        ensures
            match r {
                Some(v) => {
                    let at = first_of(old(self)@.fairings, identity, 0);
                    &&& at < old(self)@.fairings.len()
                    &&& *v == old(self)@.fairings[at].hook
                    &&& final(self)@ == (RocketView {
                        fairings: old(self)@.fairings.update(
                            at,
                            HookView { hook: *final(v), ..old(self)@.fairings[at] },
                        ),
                        ..old(self)@
                    })
                },
                None => {
                    &&& first_of(old(self)@.fairings, identity, 0) == old(self)@.fairings.len()
                    &&& final(self)@ == old(self)@
                },
            },
    {
        self.0.fairings_mut().first_mut(identity)
    }

    /// The payload of the hook of identity `identity` with the number `nth`
    /// among the hooks of that identity, counted from 0, to be changed in
    /// place: with `nth` rising from 0 until the result is `None`, every
    /// hook of the identity in the order of attachment. Nothing else of the
    /// instance changes.
    pub fn fairings_mut(&mut self, identity: u64, nth: usize) -> (r: Option<&mut Value>)
        ensures
            match r {
                Some(v) => {
                    let found = places(identity_marks(old(self)@.fairings, identity));
                    &&& nth < found.len()
                    &&& 0 <= found[nth as int] < old(self)@.fairings.len()
                    &&& *v == old(self)@.fairings[found[nth as int]].hook
                    &&& final(self)@ == (RocketView {
                        fairings: old(self)@.fairings.update(
                            found[nth as int],
                            HookView { hook: *final(v), ..old(self)@.fairings[found[nth as int]] },
                        ),
                        ..old(self)@
                    })
                },
                None => {
                    &&& nth >= places(identity_marks(old(self)@.fairings, identity)).len()
                    &&& final(self)@ == old(self)@
                },
            },
    {
        self.0.fairings_mut().nth_mut(identity, nth)
    }

    /// The configuration source.
    pub fn figment(&self) -> (r: &Figment)
        ensures
            *r == self@.figment,
    {
        self.0.as_ref().figment()
    }

    /// Brings the instance to the ignite stage, from whatever stage it is
    /// at: an instance that is being built takes one step of ignition, an
    /// ignited one is left as it is, and one in orbit comes back from orbit.
    pub fn into_ignite(self, ephemeral: Vec<u8>) -> (r: Ignition)
        ensures
            match self@.phase {
                PhaseKind::Build => r.realizes(ignition(self@, ephemeral@)),
                PhaseKind::Ignite => r matches Ignition::Ignited(rocket) && rocket@ == self@,
                PhaseKind::Orbit => r matches Ignition::Ignited(rocket) && rocket@
                    == self@.deorbited(),
            },
    {
        match self.0.into_state() {
            State::Build(s) => Rocket::<Build>(s).ignite(ephemeral),
            State::Ignite(s) => Ignition::Ignited(Rocket::<Ignite>(s)),
            State::Orbit(s) => Ignition::Ignited(Rocket::<Orbit>(s).deorbit()),
        }
    }
}

/// Mounting keeps the ranks in step with the places: if every route of an
/// instance has its place as its rank, so has every route after `routes`
/// are mounted at `base`.
pub proof fn lemma_mount_keeps_ranks(v: RocketView, base: OriginView, routes: Seq<RouteView>)
    requires
        v.ranked(),
    ensures
        (RocketView { routes: v.routes + mounted(base, routes, v.routes.len()), ..v }).ranked(),
{
}

/// Registering keeps the ranks in step with the places.
pub proof fn lemma_register_keeps_ranks(
    v: RocketView,
    base: OriginView,
    catchers: Seq<CatcherView>,
)
    requires
        v.ranked(),
    ensures
        (RocketView {
            catchers: v.catchers + registered(base, catchers, v.catchers.len()),
            ..v
        }).ranked(),
{
}

/// Every mounted route has `base`, without its query, as its base, and the
/// join of that base and its own URI as its effective URI; its own URI is
/// left as it was.
pub proof fn lemma_mounted_routes_are_joined(
    base: OriginView,
    routes: Seq<RouteView>,
    from: nat,
    i: int,
)
    requires
        0 <= i < routes.len(),
    ensures
        mounted(base, routes, from)[i].base == base.without_query(),
        mounted(base, routes, from)[i].uri == joined(base.without_query(), routes[i].path),
        mounted(base, routes, from)[i].path == routes[i].path,
        mounted(base, routes, from)[i].rank == from + i,
        routes[i].path.is_root() ==> mounted(base, routes, from)[i].uri.path == base.path,
{
}

/// A route at `/`, without a query, that is mounted at a base without a
/// query has the base as its effective URI, character for character, with
/// or without a slash at its end.
pub proof fn lemma_root_route_mounts_at_the_base(base: Seq<char>, route: RouteView, from: nat)
    requires
        is_base(base),
        query_mark(base, 0) == base.len(),
        route.path.is_root(),
        route.path.query is None,
    ensures
        mounted(parse_origin(base), seq![route], from)[0].uri.render() == base,
        mounted(parse_origin(base), seq![route], from)[0].uri.path == base,
{
    assert(base.subrange(0, base.len() as int) == base);
}

/// Two routes of an instance that answer the same method at the same
/// effective path fail its ignition, once no hook is pending, the hooks do
/// not conflict and the configuration is read and secure: the failure is a
/// collision that names both, the earlier one first.
pub proof fn lemma_colliding_routes_fail_ignition(
    v: RocketView,
    ephemeral: Seq<u8>,
    i: int,
    j: int,
)
    requires
        next_pending(v.fairings) is None,
        conflicts(v.fairings).len() == 0,
        configuration_of(v.figment) matches Ok(c) && secured(c, ephemeral) is Ok,
        0 <= i < j < v.routes.len(),
        v.routes[i].method == v.routes[j].method,
        v.routes[i].uri.path == v.routes[j].uri.path,
    ensures
        ignition(v, ephemeral) matches IgnitionView::Collisions { routes, catchers }
            && routes.contains((v.routes[i], v.routes[j])),
{
    lemma_colliding_routes_are_reported(v.routes, i, j);
}

/// Ignition changes nothing that was assembled: an instance that ignites
/// has the routes, catchers, hooks, managed values and configuration source
/// that it had, and the configuration that its source gives.
pub proof fn lemma_ignition_keeps_the_assembly(v: RocketView, ephemeral: Seq<u8>)
    requires
        ignition(v, ephemeral) is Ready,
    ensures
        ({
            let after = ignition(v, ephemeral)->Ready_rocket;
            &&& after.phase == PhaseKind::Ignite
            &&& after.routes == v.routes
            &&& after.catchers == v.catchers
            &&& after.fairings == v.fairings
            &&& after.state == v.state
            &&& after.frozen
            &&& after.figment == v.figment
            &&& route_collisions(after.routes).len() == 0
            &&& catcher_collisions(after.catchers).len() == 0
            &&& conflicts(after.fairings).len() == 0
            &&& next_pending(after.fairings) is None
            &&& configuration_of(v.figment) matches Ok(read) && after.config == Some(
                secured(read, ephemeral)->Ok_0,
            )
        }),
{
}

/// Secrets without a secret key fail ignition in every profile but
/// `debug`: no instance comes of it.
pub proof fn lemma_insecure_configuration_fails_ignition(v: RocketView, ephemeral: Seq<u8>)
    requires
        next_pending(v.fairings) is None,
        conflicts(v.fairings).len() == 0,
        configuration_of(v.figment) matches Ok(c) && c.secrets && !c.secret_key.is_provided()
            && !is_debug(c.profile),
    ensures
        ignition(v, ephemeral) matches IgnitionView::Insecure(profile) && configuration_of(
            v.figment,
        ) matches Ok(c) && profile == c.profile,
{
}

} // verus!
