//! A statically staged lifecycle manager for a long-running network service.
//!
//! An instance is assembled in the build stage, validated and frozen by
//! ignition, and then launched into orbit, where it serves until a graceful
//! shutdown drains it. The stage of an instance is part of its type, so a
//! configuration change after ignition cannot be written down.
//!
//! The library decides and keeps the books; it does not wait, bind, serve or
//! run a hook. Where the lifecycle depends on such work, the library says what
//! is to be done next and takes in what came of it:
//!
//! * [`rocket`] holds the instance, its stages and the steps of ignition;
//! * [`uri`], [`route`] and [`router`] hold mount points, routes, catchers
//!   and the check for collisions;
//! * [`fairing`] holds the hook pipeline and [`state`] the managed values;
//! * [`config`] reads the settings from the configuration source;
//! * [`launch`] and [`shutdown`] hold the order of a launch and the schedule
//!   of a drain.
//!
//! Every function is verified against its contract. What is stated of the
//! figment, and of taking an instance back from a shared reference, is
//! believed of the code that is called.

pub mod config;
pub mod failure;
pub mod fairing;
pub mod launch;
pub mod listener;
pub mod pairs;
pub mod rocket;
pub mod route;
pub mod router;
pub mod shutdown;
pub mod state;
pub mod uri;

pub use crate::config::{Config, SecretKey, ShutdownConfig};
pub use crate::failure::{Failure, FailureKind};
pub use crate::fairing::{Fairings, Info, Kind};
pub use crate::launch::{Action, Controller, Event, Flight};
pub use crate::listener::{BindFailure, Endpoint};
pub use crate::rocket::{Build, Ignite, Ignition, Inspection, Orbit, Phase, Rocket};
pub use crate::route::{Catcher, Method, Route, Sentry};
pub use crate::shutdown::{Drain, Shutdown, Stage, Step};
pub use crate::state::Value;
pub use crate::uri::{Origin, UriError};
