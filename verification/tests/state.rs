use rocket::state::Container;
use rocket::{Endpoint, Ignition, Rocket, Value};

struct TypeA(u32);

struct TypeB(&'static str);

const A: u64 = 1;
const B: u64 = 2;

fn value<T: Send + Sync + 'static>(v: T) -> Value {
    Value(Box::new(v))
}

#[test]
fn manage_two_types_both_retrievable() {
    let rocket = Rocket::build().manage(A, value(TypeA(10))).manage(B, value(TypeB("hello")));
    let a = rocket.state(A).unwrap().0.downcast_ref::<TypeA>().unwrap();
    let b = rocket.state(B).unwrap().0.downcast_ref::<TypeB>().unwrap();
    assert_eq!(a.0, 10);
    assert_eq!(b.0, "hello");
}

#[test]
fn manage_same_type_twice_is_refused() {
    let rocket = Rocket::build();
    assert!(rocket.can_manage(A));
    let rocket = rocket.manage(A, value(TypeA(1)));
    assert!(!rocket.can_manage(A));
    assert!(rocket.can_manage(B));
    assert_eq!(rocket.state(A).unwrap().0.downcast_ref::<TypeA>().unwrap().0, 1);
}

#[test]
fn state_of_unmanaged_type_is_none() {
    let rocket = Rocket::build().manage(A, value(TypeA(1)));
    assert!(rocket.state(B).is_none());
    assert!(Rocket::build().state(A).is_none());
}

#[test]
fn state_is_kept_through_ignition_and_orbit() {
    let rocket = Rocket::build().manage(A, value(TypeA(7)));
    let rocket = match rocket.ignite(vec![]) {
        Ignition::Ignited(r) => r,
        _ => panic!("ignition of a plain instance"),
    };
    assert_eq!(rocket.state(A).unwrap().0.downcast_ref::<TypeA>().unwrap().0, 7);
    assert!(rocket.state(B).is_none());
    let rocket = rocket.into_orbit(vec![Endpoint { address: String::from("a") }]);
    assert_eq!(rocket.state(A).unwrap().0.downcast_ref::<TypeA>().unwrap().0, 7);
    let rocket = rocket.deorbit();
    assert_eq!(rocket.state(A).unwrap().0.downcast_ref::<TypeA>().unwrap().0, 7);
}

#[test]
fn container_set_adds_once() {
    let mut c = Container::new();
    assert!(!c.contains(A));
    assert!(c.set(A, value(TypeA(1))));
    assert!(c.contains(A));
    assert!(!c.set(A, value(TypeA(2))));
    assert_eq!(c.try_get(A).unwrap().0.downcast_ref::<TypeA>().unwrap().0, 1);
    assert!(c.set(B, value(TypeB("b"))));
    assert_eq!(c.try_get(B).unwrap().0.downcast_ref::<TypeB>().unwrap().0, "b");
    assert!(c.try_get(3).is_none());
}

#[test]
fn frozen_container_is_read_as_before() {
    let mut c = Container::new();
    c.set(A, value(TypeA(5)));
    let f = c.freeze();
    assert!(f.contains(A));
    assert!(!f.contains(B));
    assert_eq!(f.try_get(A).unwrap().0.downcast_ref::<TypeA>().unwrap().0, 5);
    assert!(f.try_get(B).is_none());
}
