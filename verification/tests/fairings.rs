use rocket::{Endpoint, Fairings, FailureKind, Ignition, Info, Kind, Rocket, Value};

fn kind(ignite: bool, liftoff: bool, shutdown: bool, singleton: bool) -> Kind {
    Kind { ignite, liftoff, shutdown, singleton }
}

fn info(name: &str, identity: u64, kind: Kind) -> Info {
    Info { name: String::from(name), kind, identity }
}

fn payload(text: &'static str) -> Value {
    Value(Box::new(text))
}

fn text(v: &Value) -> &'static str {
    v.0.downcast_ref::<&'static str>().unwrap()
}

const PLAIN: Kind = Kind { ignite: false, liftoff: true, shutdown: false, singleton: false };
const SINGLE: Kind = Kind { ignite: false, liftoff: true, shutdown: false, singleton: true };

#[test]
fn two_singletons_of_one_identity_leave_the_second_at_the_end() {
    let rocket = Rocket::build()
        .attach(info("a", 1, PLAIN), payload("a"))
        .attach(info("s", 9, SINGLE), payload("first"))
        .attach(info("b", 2, PLAIN), payload("b"))
        .attach(info("s", 9, SINGLE), payload("second"));
    let pipeline = rocket.pipeline();
    assert_eq!(pipeline.len(), 3);
    assert_eq!(pipeline.info(0).identity, 1);
    assert_eq!(pipeline.info(1).identity, 2);
    assert_eq!(pipeline.info(2).identity, 9);
    assert_eq!(text(pipeline.payload(2)), "second");
    assert_eq!(pipeline.filter(9), vec![2]);
}

#[test]
fn singletons_of_other_identities_stay() {
    let rocket = Rocket::build()
        .attach(info("s", 9, SINGLE), payload("nine"))
        .attach(info("t", 8, SINGLE), payload("eight"));
    assert_eq!(rocket.pipeline().len(), 2);
    assert_eq!(text(rocket.fairing(9).unwrap()), "nine");
    assert_eq!(text(rocket.fairing(8).unwrap()), "eight");
}

#[test]
fn plain_hooks_accumulate_in_attach_order() {
    let rocket = Rocket::build()
        .attach(info("a", 1, PLAIN), payload("some state"))
        .attach(info("a", 1, PLAIN), payload("other state"))
        .attach(info("a", 1, PLAIN), payload("yet more state"));
    let all = rocket.fairings(1);
    assert_eq!(all.len(), 3);
    assert_eq!(text(all[0]), "some state");
    assert_eq!(text(all[1]), "other state");
    assert_eq!(text(all[2]), "yet more state");
    assert_eq!(text(rocket.fairing(1).unwrap()), "some state");
}

#[test]
fn singleton_takes_out_every_hook_of_its_identity() {
    let rocket = Rocket::build()
        .attach(info("a", 1, PLAIN), payload("one"))
        .attach(info("a", 1, PLAIN), payload("two"))
        .attach(info("b", 2, PLAIN), payload("b"))
        .attach(info("a", 1, SINGLE), payload("three"));
    assert_eq!(rocket.pipeline().len(), 2);
    assert_eq!(rocket.fairings(1).len(), 1);
    assert_eq!(text(rocket.fairing(1).unwrap()), "three");
    assert_eq!(rocket.pipeline().info(0).identity, 2);
}

#[test]
fn third_singleton_replaces_the_second() {
    let rocket = Rocket::build()
        .attach(info("m", 1, PLAIN), payload("some state"))
        .attach(info("s", 2, SINGLE), payload("first"))
        .attach(info("s", 2, SINGLE), payload("second"))
        .attach(info("m", 1, PLAIN), payload("other state"))
        .attach(info("s", 2, SINGLE), payload("third"));
    let mine = rocket.fairings(1);
    assert_eq!(mine.len(), 2);
    assert_eq!(text(mine[0]), "some state");
    assert_eq!(text(mine[1]), "other state");
    let single = rocket.fairings(2);
    assert_eq!(single.len(), 1);
    assert_eq!(text(single[0]), "third");
    assert_eq!(rocket.pipeline().filter(2), vec![2]);
}

#[test]
fn fairing_of_unattached_identity_is_none() {
    let rocket = Rocket::build().attach(info("a", 1, PLAIN), payload("a"));
    assert!(rocket.fairing(2).is_none());
    assert_eq!(rocket.fairings(2).len(), 0);
    assert!(Rocket::build().fairing(1).is_none());
}

#[test]
fn fairing_mut_changes_the_first_payload_in_place() {
    let mut rocket = Rocket::build()
        .attach(info("a", 1, PLAIN), payload("some state"))
        .attach(info("a", 1, PLAIN), payload("yet more state"));
    assert!(rocket.fairing_mut(2).is_none());
    *rocket.fairing_mut(1).unwrap() = payload("other state");
    let all = rocket.fairings(1);
    assert_eq!(text(all[0]), "other state");
    assert_eq!(text(all[1]), "yet more state");
    assert_eq!(rocket.pipeline().len(), 2);
}

#[test]
fn fairing_mut_works_in_later_stages() {
    let rocket = Rocket::build().attach(info("a", 1, PLAIN), payload("before"));
    let mut rocket = match rocket.ignite(vec![]) {
        Ignition::Ignited(r) => r,
        _ => panic!("ignition of a plain instance"),
    };
    *rocket.fairing_mut(1).unwrap() = payload("ignited");
    assert_eq!(text(rocket.fairing(1).unwrap()), "ignited");
    let mut rocket = rocket.into_orbit(vec![Endpoint { address: String::from("a") }]);
    *rocket.fairing_mut(1).unwrap() = payload("in orbit");
    assert_eq!(text(rocket.fairing(1).unwrap()), "in orbit");
}

#[test]
fn liftoff_and_shutdown_hooks_are_picked_by_kind() {
    let rocket = Rocket::build()
        .attach(info("i", 1, kind(true, false, false, false)), payload("i"))
        .attach(info("l", 2, kind(false, true, false, false)), payload("l"))
        .attach(info("s", 3, kind(false, false, true, false)), payload("s"))
        .attach(info("ls", 4, kind(false, true, true, false)), payload("ls"));
    assert_eq!(rocket.pipeline().liftoff(), vec![1, 3]);
    assert_eq!(rocket.pipeline().shutdown(), vec![2, 3]);
    assert_eq!(rocket.pipeline().filter(5), Vec::<usize>::new());
}

#[test]
fn orbit_names_its_liftoff_and_shutdown_hooks() {
    let rocket = Rocket::build()
        .attach(info("l", 1, kind(false, true, false, false)), payload("l"))
        .attach(info("s", 2, kind(false, false, true, false)), payload("s"));
    let rocket = match rocket.ignite(vec![]) {
        Ignition::Ignited(r) => r,
        _ => panic!("ignition of a plain instance"),
    };
    let rocket = rocket.into_orbit(vec![Endpoint { address: String::from("a") }]);
    assert_eq!(rocket.liftoff(), vec![0]);
    assert_eq!(rocket.shutdown_fairings(), vec![1]);
}

#[test]
fn pipeline_hands_out_ignite_hooks_in_order() {
    let mut f = Fairings::new();
    f.add(info("l", 1, kind(false, true, false, false)), payload("l"));
    f.add(info("a", 2, kind(true, false, false, false)), payload("a"));
    f.add(info("b", 3, kind(true, true, false, false)), payload("b"));
    assert_eq!(f.next_ignite(), Some(1));
    assert!(!f.ran(1));
    assert_eq!(f.hand_out(), Some(1));
    assert!(f.ran(1));
    assert_eq!(f.next_ignite(), Some(2));
    assert_eq!(f.hand_out(), Some(2));
    assert_eq!(f.next_ignite(), None);
    assert_eq!(f.hand_out(), None);
    assert_eq!(f.attempts().len(), 2);
    assert_eq!(f.attempts()[0].name, "a");
    assert_eq!(f.attempts()[1].name, "b");
    assert_eq!(f.find(3), Some(2));
    assert_eq!(f.find(4), None);
}

#[test]
fn audit_reports_every_conflicting_pair() {
    let mut f = Fairings::new();
    f.add(info("x", 1, kind(true, false, false, false)), payload("a"));
    f.add(info("x", 2, kind(false, true, false, false)), payload("b"));
    f.add(info("y", 3, kind(false, true, false, false)), payload("c"));
    f.add(info("x", 4, kind(false, false, true, false)), payload("d"));
    let pairs = f.audit().unwrap_err();
    assert_eq!(pairs.len(), 3);
    assert_eq!((pairs[0].0.identity, pairs[0].1.identity), (1, 2));
    assert_eq!((pairs[1].0.identity, pairs[1].1.identity), (1, 4));
    assert_eq!((pairs[2].0.identity, pairs[2].1.identity), (2, 4));
}

#[test]
fn audit_accepts_same_name_with_same_checkpoints_and_singletons() {
    let mut f = Fairings::new();
    f.add(info("x", 1, kind(false, true, false, false)), payload("a"));
    f.add(info("x", 2, kind(false, true, false, false)), payload("b"));
    f.add(info("x", 3, kind(true, false, false, true)), payload("c"));
    assert!(f.audit().is_ok());
}

#[test]
fn conflicting_hooks_fail_ignition() {
    let rocket = Rocket::build()
        .attach(info("x", 1, kind(false, true, false, false)), payload("a"))
        .attach(info("x", 2, kind(false, false, true, false)), payload("b"));
    match rocket.ignite(vec![]) {
        Ignition::Failed(e) => match e.kind {
            FailureKind::FairingConflicts(pairs) => {
                assert_eq!(pairs.len(), 1);
                assert_eq!(pairs[0].0.identity, 1);
                assert_eq!(pairs[0].1.identity, 2);
            },
            _ => panic!("another failure"),
        },
        _ => panic!("ignition went on"),
    }
}

#[test]
fn fairings_mut_reaches_every_hook_of_an_identity_in_turn() {
    let mut rocket = Rocket::build()
        .attach(info("a", 1, PLAIN), payload("some state"))
        .attach(info("b", 2, PLAIN), payload("b"))
        .attach(info("a", 1, PLAIN), payload("other state"))
        .attach(info("a", 1, PLAIN), payload("yet more state"));
    assert_eq!(text(rocket.fairings_mut(1, 0).unwrap()), "some state");
    assert_eq!(text(rocket.fairings_mut(1, 2).unwrap()), "yet more state");
    *rocket.fairings_mut(1, 1).unwrap() = payload("modified state");
    assert!(rocket.fairings_mut(1, 3).is_none());
    assert!(rocket.fairings_mut(3, 0).is_none());
    let all = rocket.fairings(1);
    assert_eq!(text(all[0]), "some state");
    assert_eq!(text(all[1]), "modified state");
    assert_eq!(text(all[2]), "yet more state");
    assert_eq!(text(rocket.fairing(2).unwrap()), "b");
}
