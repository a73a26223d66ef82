use rocket::{
    Action, BindFailure, Controller, Endpoint, Event, FailureKind, Flight, Ignition, Method,
    Origin, Rocket, Route, ShutdownConfig,
};
use std::sync::Arc;

fn endpoint(address: &str) -> Endpoint {
    Endpoint { address: String::from(address) }
}

fn ignited() -> rocket::Rocket<rocket::Ignite> {
    let route = Route::new(Method::Get, Origin::parse_route("/").unwrap(), 1);
    match Rocket::build().mount("/", vec![route]).ignite(vec![]) {
        Ignition::Ignited(r) => r,
        _ => panic!("ignition of a plain instance"),
    }
}

#[test]
fn launch_and_graceful_shutdown_end_to_end() {
    let rocket = ignited();
    let mut handle = rocket.shutdown();
    let rocket = Arc::new(rocket.into_orbit(vec![endpoint("127.0.0.1:8000")]));
    let mut control = rocket.controller();
    assert_eq!(control.next(Event::Launch), Action::Listen);
    assert_eq!(control.next(Event::Listening), Action::Liftoff);
    assert_eq!(control.next(Event::Lifted { fault: false }), Action::Serve);
    let task = rocket.clone();
    assert!(handle.notify());
    assert!(task.shutdown().notified());
    assert_eq!(control.next(Event::Signal), Action::Shutdown);
    assert_eq!(control.next(Event::Polled { unique: Arc::strong_count(&rocket) == 1 }), Action::Wait(250));
    drop(task);
    assert_eq!(
        control.next(Event::Polled { unique: Arc::strong_count(&rocket) == 1 }),
        Action::Land { quiesced: true, fault: false }
    );
    assert_eq!(control.flight, Flight::Landed);
    assert!(control.drain.waited <= 5);
    let landed = Rocket::land(Rocket::reclaim(rocket), None).ok().unwrap();
    assert_eq!(landed.routes().len(), 1);
    assert_eq!(landed.routes()[0].uri().render(), "/");
    assert!(landed.shutdown().notified());
}

#[test]
fn controller_takes_its_periods_from_the_configuration() {
    let figment = figment::Figment::new()
        .merge(("shutdown.grace", 5u32))
        .merge(("shutdown.mercy", 6u32));
    let rocket = match Rocket::custom(figment).ignite(vec![]) {
        Ignition::Ignited(r) => r,
        _ => panic!("ignition of a plain instance"),
    };
    let rocket = rocket.into_orbit(vec![endpoint("a")]);
    let control = rocket.controller();
    assert_eq!(control, Controller::new(ShutdownConfig { grace: 5, mercy: 6 }));
    assert_eq!(control.flight, Flight::Grounded);
    assert!(!control.signalled);
    assert!(!control.fault);
}

fn serving() -> Controller {
    let mut c = Controller::new(ShutdownConfig { grace: 2, mercy: 3 });
    c.next(Event::Launch);
    c.next(Event::Listening);
    c.next(Event::Lifted { fault: false });
    assert_eq!(c.flight, Flight::Serving);
    c
}

#[test]
fn shutdown_that_times_out_leaves_the_instance_shared() {
    let mut control = serving();
    assert_eq!(control.next(Event::Signal), Action::Shutdown);
    assert_eq!(control.next(Event::Polled { unique: false }), Action::Wait(250));
    assert_eq!(control.next(Event::Polled { unique: false }), Action::Wait(2_000_000));
    assert_eq!(control.next(Event::Polled { unique: false }), Action::Wait(250));
    assert_eq!(control.next(Event::Polled { unique: false }), Action::Wait(3_000_000));
    assert_eq!(control.next(Event::Polled { unique: false }), Action::Wait(1000));
    assert_eq!(
        control.next(Event::Polled { unique: false }),
        Action::Land { quiesced: false, fault: false }
    );
    let rocket = Arc::new(ignited().into_orbit(vec![endpoint("a")]));
    let other = rocket.clone();
    match Rocket::land(Rocket::reclaim(rocket), None) {
        Err(e) => match e.kind {
            FailureKind::Shutdown(shared) => {
                assert!(Arc::ptr_eq(&shared, &other));
                assert_eq!(shared.endpoints().len(), 1);
            },
            _ => panic!("another failure"),
        },
        Ok(_) => panic!("the instance came back"),
    }
}

#[test]
fn reclaim_gives_the_instance_back_only_when_unique() {
    let rocket = Arc::new(ignited().into_orbit(vec![endpoint("a")]));
    let other = rocket.clone();
    let rocket = match Rocket::reclaim(rocket) {
        Err(shared) => shared,
        Ok(_) => panic!("the instance came back"),
    };
    assert!(Arc::ptr_eq(&rocket, &other));
    drop(other);
    let rocket = Rocket::reclaim(rocket).ok().unwrap();
    assert_eq!(rocket.routes().len(), 1);
}

#[test]
fn liftoff_fault_drains_and_fails_the_launch() {
    let mut control = Controller::new(ShutdownConfig { grace: 2, mercy: 3 });
    assert_eq!(control.next(Event::Launch), Action::Listen);
    assert_eq!(control.next(Event::Listening), Action::Liftoff);
    assert_eq!(control.next(Event::Lifted { fault: true }), Action::Shutdown);
    assert!(control.fault);
    assert_eq!(control.flight, Flight::Draining);
    assert_eq!(control.next(Event::Polled { unique: false }), Action::Wait(250));
    assert_eq!(
        control.next(Event::Polled { unique: true }),
        Action::Land { quiesced: true, fault: true }
    );
    let rocket = Arc::new(ignited().into_orbit(vec![endpoint("a")]));
    match Rocket::land(Rocket::reclaim(rocket), Some(String::from("panicked"))) {
        Err(e) => match e.kind {
            FailureKind::Liftoff(given, fault) => {
                assert_eq!(fault, "panicked");
                assert_eq!(given.ok().unwrap().routes().len(), 1);
            },
            _ => panic!("another failure"),
        },
        Ok(_) => panic!("the launch succeeded"),
    }
}

#[test]
fn liftoff_fault_with_a_shared_instance_carries_the_reference() {
    let rocket = Arc::new(ignited().into_orbit(vec![endpoint("a")]));
    let other = rocket.clone();
    match Rocket::land(Rocket::reclaim(rocket), Some(String::from("panicked"))) {
        Err(e) => match e.kind {
            FailureKind::Liftoff(given, fault) => {
                assert_eq!(fault, "panicked");
                assert!(Arc::ptr_eq(&given.err().unwrap(), &other));
            },
            _ => panic!("another failure"),
        },
        Ok(_) => panic!("the launch succeeded"),
    }
}

#[test]
fn signal_before_serving_starts_the_drain_in_place_of_serving() {
    let mut control = Controller::new(ShutdownConfig { grace: 2, mercy: 3 });
    assert_eq!(control.next(Event::Signal), Action::Nothing);
    assert!(control.signalled);
    assert_eq!(control.next(Event::Launch), Action::Listen);
    assert_eq!(control.next(Event::Listening), Action::Liftoff);
    assert_eq!(control.next(Event::Signal), Action::Nothing);
    assert_eq!(control.next(Event::Lifted { fault: false }), Action::Shutdown);
    assert_eq!(control.flight, Flight::Draining);
    assert!(!control.fault);
    assert_eq!(
        control.next(Event::Polled { unique: true }),
        Action::Land { quiesced: true, fault: false }
    );
}

#[test]
fn second_signal_is_a_no_op_for_the_controller() {
    let mut control = serving();
    assert_eq!(control.next(Event::Signal), Action::Shutdown);
    let once = control;
    assert_eq!(control.next(Event::Signal), Action::Nothing);
    assert_eq!(control, once);
    control.next(Event::Polled { unique: true });
    let landed = control;
    assert_eq!(control.next(Event::Signal), Action::Nothing);
    assert_eq!(control, landed);
}

#[test]
fn events_out_of_turn_change_nothing() {
    let mut control = Controller::new(ShutdownConfig { grace: 2, mercy: 3 });
    let start = control;
    assert_eq!(control.next(Event::Listening), Action::Nothing);
    assert_eq!(control.next(Event::Lifted { fault: true }), Action::Nothing);
    assert_eq!(control.next(Event::Polled { unique: true }), Action::Nothing);
    assert_eq!(control, start);
    let mut control = serving();
    let before = control;
    assert_eq!(control.next(Event::Launch), Action::Nothing);
    assert_eq!(control.next(Event::Polled { unique: true }), Action::Nothing);
    assert_eq!(control.next(Event::Lifted { fault: false }), Action::Nothing);
    assert_eq!(control, before);
}

#[test]
fn bound_instance_goes_into_orbit() {
    let rocket = ignited().bound(Ok(vec![endpoint("a"), endpoint("b")])).ok().unwrap();
    assert_eq!(rocket.endpoints().len(), 2);
    assert_eq!(rocket.endpoints()[0].address, "a");
    assert_eq!(rocket.endpoints()[1].address, "b");
    assert_eq!(rocket.routes().len(), 1);
    assert_eq!(rocket.config().profile, "default");
}

#[test]
fn bind_failure_names_endpoint_and_cause() {
    let failure = BindFailure { endpoint: Some(endpoint("0.0.0.0:80")), cause: String::from("denied") };
    match ignited().bound(Err(failure)) {
        Err(e) => match e.kind {
            FailureKind::Bind(Some(endpoint), cause) => {
                assert_eq!(endpoint.address, "0.0.0.0:80");
                assert_eq!(cause, "denied");
            },
            _ => panic!("another failure"),
        },
        Ok(_) => panic!("the instance is in orbit"),
    }
    let failure = BindFailure { endpoint: None, cause: String::from("no address") };
    match ignited().bound(Err(failure)) {
        Err(e) => match e.kind {
            FailureKind::Bind(None, cause) => assert_eq!(cause, "no address"),
            _ => panic!("another failure"),
        },
        Ok(_) => panic!("the instance is in orbit"),
    }
}

#[test]
fn binding_to_no_endpoint_is_a_bind_failure() {
    match ignited().bound(Ok(vec![])) {
        Err(e) => assert!(matches!(e.kind(), FailureKind::Bind(None, _))),
        Ok(_) => panic!("the instance is in orbit"),
    }
}

#[test]
fn deorbit_gives_the_ignited_instance_back() {
    let rocket = ignited().into_orbit(vec![endpoint("a")]);
    assert_eq!(rocket.config().shutdown.grace, 2);
    let rocket = rocket.deorbit();
    assert_eq!(rocket.routes().len(), 1);
    assert_eq!(rocket.config().shutdown.mercy, 3);
    let again = rocket.into_orbit(vec![endpoint("b")]);
    assert_eq!(again.endpoints()[0].address, "b");
}
