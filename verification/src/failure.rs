//! What can go wrong between ignition and the end of a launch.

use crate::fairing::Info;
use crate::listener::Endpoint;
use crate::rocket::{Ignite, Orbit, Rocket};
use crate::route::{Catcher, Route, Sentry};
use std::sync::Arc;
use vstd::prelude::*;

verus! {

/// The kind of a failure.
pub enum FailureKind {
    /// The configuration could not be read from the figment.
    Config(figment::Error),
    /// Secrets are in use without a secret key, in the profile named here,
    /// which is not `debug`.
    InsecureSecretKey(String),
    /// A hook aborted ignition. `attempted` holds the hooks that were run,
    /// in that order; the last one is the hook that aborted.
    FailedFairings { attempted: Vec<Info>, reason: String },
    /// Hooks conflict; every conflicting pair is listed.
    FairingConflicts(Vec<(Info, Info)>),
    /// Routes or catchers collide; every colliding pair is listed.
    Collisions { routes: Vec<(Route, Route)>, catchers: Vec<(Catcher, Catcher)> },
    /// Sentinels asked for an abort; every one that did is listed.
    SentinelAborts(Vec<Sentry>),
    /// The transport could not bind to the endpoint.
    Bind(Option<Endpoint>, String),
    /// Liftoff failed with the fault named here. The first field is what
    /// the drain after it gave: the instance, or a reference to it if it is
    /// still shared.
    Liftoff(Result<Box<Rocket<Ignite>>, Arc<Rocket<Orbit>>>, String),
    /// The drain timed out: the instance is still shared.
    Shutdown(Arc<Rocket<Orbit>>),
}

/// A failure of ignition or launch.
pub struct Failure {
    pub kind: FailureKind,
}

impl Failure {
    /// A failure of kind `kind`.
    pub fn new(kind: FailureKind) -> (r: Failure)
        ensures
            r.kind == kind,
    {
        Failure { kind }
    }

    /// The kind.
    pub fn kind(&self) -> (r: &FailureKind)
        ensures
            *r == self.kind,
    {
        &self.kind
    }
}

} // verus!
