use rocket::{Drain, Endpoint, Ignition, Rocket, ShutdownConfig, Shutdown, Stage, Step};

#[test]
fn signalling_twice_is_the_same_as_once() {
    let mut handle = Shutdown::new();
    assert!(!handle.notified());
    assert!(handle.notify());
    assert!(handle.notified());
    assert!(!handle.notify());
    assert!(handle.notified());
}

#[test]
fn every_copy_of_a_handle_shares_the_signal() {
    let mut a = Shutdown::new();
    let mut b = a.clone();
    let mut c = b.clone();
    assert!(!c.notified());
    assert!(b.notify());
    assert!(a.notified());
    assert!(c.notified());
    assert!(!a.notify());
    assert!(!Shutdown::new().notified());
}

#[test]
fn handles_of_an_instance_share_its_signal_through_the_stages() {
    let rocket = match Rocket::build().ignite(vec![]) {
        Ignition::Ignited(r) => r,
        _ => panic!("ignition of a plain instance"),
    };
    let mut early = rocket.shutdown();
    assert!(!rocket.shutdown().notified());
    early.notify();
    assert!(rocket.shutdown().notified());
    let rocket = rocket.into_orbit(vec![Endpoint { address: String::from("a") }]);
    assert!(rocket.shutdown().notified());
    assert!(!rocket.shutdown().notify());
    let rocket = rocket.deorbit();
    assert!(rocket.shutdown().notified());
}

#[test]
fn instances_have_signals_of_their_own() {
    let a = match Rocket::build().ignite(vec![]) {
        Ignition::Ignited(r) => r,
        _ => panic!("ignition of a plain instance"),
    };
    let b = match Rocket::build().ignite(vec![]) {
        Ignition::Ignited(r) => r,
        _ => panic!("ignition of a plain instance"),
    };
    a.shutdown().notify();
    assert!(!b.shutdown().notified());
}

fn draining(grace: u32, mercy: u32) -> Drain {
    let mut d = Drain::new(ShutdownConfig { grace, mercy });
    assert!(d.signal());
    d
}

#[test]
fn drain_waits_through_the_whole_schedule_then_times_out() {
    let mut d = draining(2, 3);
    assert_eq!(d.poll(false), Step::Wait(250));
    assert_eq!(d.poll(false), Step::Wait(2_000_000));
    assert_eq!(d.poll(false), Step::Wait(250));
    assert_eq!(d.poll(false), Step::Wait(3_000_000));
    assert_eq!(d.poll(false), Step::Wait(1000));
    assert!(!d.is_ended());
    assert_eq!(d.poll(false), Step::TimedOut);
    assert!(d.is_ended());
    assert_eq!(d.stage, Stage::TimedOut);
    assert_eq!(d.poll(true), Step::TimedOut);
    assert_eq!(d.poll(false), Step::TimedOut);
    assert_eq!(d.waited, 5);
}

#[test]
fn drain_with_the_longest_and_the_shortest_periods() {
    let mut d = draining(4294967295, 0);
    assert_eq!(d.poll(false), Step::Wait(250));
    assert_eq!(d.poll(false), Step::Wait(4_294_967_295_000_000));
    assert_eq!(d.poll(false), Step::Wait(250));
    assert_eq!(d.poll(false), Step::Wait(0));
    assert_eq!(d.poll(false), Step::Wait(1000));
    assert_eq!(d.poll(false), Step::TimedOut);
}

#[test]
fn drain_ends_at_once_when_the_instance_is_unique() {
    let mut d = draining(2, 3);
    assert_eq!(d.poll(true), Step::Quiesced);
    assert_eq!(d.stage, Stage::Quiesced);
    assert_eq!(d.waited, 0);
    assert_eq!(d.poll(false), Step::Quiesced);
}

#[test]
fn drain_ends_early_in_the_middle_of_the_schedule() {
    let mut d = draining(2, 3);
    assert_eq!(d.poll(false), Step::Wait(250));
    assert_eq!(d.poll(false), Step::Wait(2_000_000));
    assert_eq!(d.poll(true), Step::Quiesced);
    assert_eq!(d.waited, 2);
    assert!(d.is_ended());
}

#[test]
fn drain_succeeds_after_the_last_wait() {
    let mut d = draining(1, 1);
    for _ in 0..5 {
        assert!(matches!(d.poll(false), Step::Wait(_)));
    }
    assert_eq!(d.poll(true), Step::Quiesced);
}

#[test]
fn drain_does_not_start_without_the_signal() {
    let mut d = Drain::new(ShutdownConfig { grace: 2, mercy: 3 });
    assert_eq!(d.stage, Stage::Running);
    assert_eq!(d.poll(false), Step::Serve);
    assert_eq!(d.poll(true), Step::Serve);
    assert_eq!(d.stage, Stage::Running);
    assert!(!d.is_ended());
}

#[test]
fn second_signal_changes_nothing() {
    let mut d = Drain::new(ShutdownConfig { grace: 2, mercy: 3 });
    assert!(d.signal());
    let once = d;
    assert!(!d.signal());
    assert_eq!(d, once);
    assert_eq!(d.poll(false), Step::Wait(250));
    let waiting = d;
    assert!(!d.signal());
    assert_eq!(d, waiting);
    assert_eq!(d.poll(true), Step::Quiesced);
    let ended = d;
    assert!(!d.signal());
    assert_eq!(d, ended);
}

#[test]
fn handle_remembers_the_signal_it_has_seen() {
    let mut giver = Shutdown::new();
    let mut watcher = giver.clone();
    assert!(!watcher.notified());
    assert!(giver.notify());
    assert!(watcher.notified());
    assert!(watcher.notified());
    assert!(!watcher.notify());
    let mut late = watcher.clone();
    assert!(late.notified());
    assert!(!late.notify());
    assert!(!giver.notify());
}
