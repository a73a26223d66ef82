use rocket::{Catcher, Method, Origin, Rocket, Route};

fn route(path: &str) -> Route {
    Route::new(Method::Get, Origin::parse_route(path).unwrap(), 1)
}

fn effective(base: &str, path: &str) -> String {
    assert!(Origin::parse(base).is_ok());
    let rocket = Rocket::build().mount(base, vec![route(path)]);
    rocket.routes()[0].uri().render()
}

#[test]
fn mount_joins_base_and_route() {
    assert_eq!(effective("/foo", "/bar"), "/foo/bar");
}

#[test]
fn mount_leaves_one_slash_at_the_join() {
    assert_eq!(effective("/foo/", "/bar"), "/foo/bar");
}

#[test]
fn mount_root_route_drops_query_of_base() {
    assert_eq!(effective("/foo/?x", "/"), "/foo/");
}

#[test]
fn mount_at_root_keeps_the_route() {
    assert_eq!(effective("/", "/foo"), "/foo");
    assert_eq!(effective("/", "/foo/"), "/foo/");
    assert_eq!(effective("/", "/"), "/");
}

#[test]
fn mount_root_route_takes_the_base_as_it_is() {
    assert_eq!(effective("/foo", "/"), "/foo");
    assert_eq!(effective("/foo/", "/"), "/foo/");
    assert_eq!(effective("/foo/bar", "/"), "/foo/bar");
    assert_eq!(effective("/foo/bar/", "/"), "/foo/bar/");
}

#[test]
fn mount_keeps_the_query_of_the_route() {
    assert_eq!(effective("/foo", "/?bar"), "/foo?bar");
    assert_eq!(effective("/foo/", "/?bar"), "/foo/?bar");
    assert_eq!(effective("/foo", "/bar?baz=1"), "/foo/bar?baz=1");
}

#[test]
fn mount_keeps_the_trailing_slash_of_the_route() {
    assert_eq!(effective("/foo", "/bar/"), "/foo/bar/");
    assert_eq!(effective("/foo/?bar", "/baz"), "/foo/baz");
    assert_eq!(effective("/foo/?bar", "/baz/"), "/foo/baz/");
}

#[test]
fn mount_collapses_slashes_only_at_the_join() {
    assert_eq!(effective("/foo//", "//bar"), "/foo/bar");
    assert_eq!(effective("/a//b", "/c//d"), "/a//b/c//d");
}

#[test]
fn mount_keeps_dynamic_segments_of_the_route() {
    assert_eq!(effective("/api", "/user/<id>"), "/api/user/<id>");
}

#[test]
fn mount_root_route_at_every_base_gives_the_base() {
    for base in ["/", "/a", "/a/", "/a/b", "/a/b/", "/a.b/c-d/", "/%20/x~y", "//", "/a//"] {
        assert_eq!(effective(base, "/"), base);
    }
}

#[test]
fn mount_records_base_path_and_rank() {
    let rocket = Rocket::build()
        .mount("/a", vec![route("/x"), route("/y")])
        .mount("/b/?q", vec![route("/z")]);
    let routes = rocket.routes();
    assert_eq!(routes.len(), 3);
    assert_eq!(routes[0].rank(), 0);
    assert_eq!(routes[1].rank(), 1);
    assert_eq!(routes[2].rank(), 2);
    assert_eq!(routes[0].base().render(), "/a");
    assert_eq!(routes[2].base().render(), "/b/");
    assert_eq!(routes[2].path().render(), "/z");
    assert_eq!(routes[2].uri().render(), "/b/z");
    assert_eq!(routes[1].method(), Method::Get);
    assert_eq!(routes[1].handler(), 1);
}

#[test]
fn mount_of_nothing_changes_nothing() {
    let rocket = Rocket::build().mount("/a", vec![route("/x")]).mount("/b", vec![]);
    assert_eq!(rocket.routes().len(), 1);
}

#[test]
fn mounted_route_can_be_mounted_again() {
    let rocket = Rocket::build().mount("/a", vec![route("/x")]);
    let again = rocket.routes()[0].clone();
    let rocket = rocket.mount("/b", vec![again]);
    assert_eq!(rocket.routes()[1].uri().render(), "/b/x");
    assert_eq!(rocket.routes()[1].rank(), 1);
}

#[test]
fn route_keeps_name_and_sentinels() {
    let sentry = rocket::Sentry { name: String::from("guard"), identity: 4 };
    let r = route("/x").named(String::from("index")).guarded(sentry);
    let rocket = Rocket::build().mount("/", vec![r]);
    let r = &rocket.routes()[0];
    assert_eq!(r.name(), "index");
    assert_eq!(r.sentinels().len(), 1);
    assert_eq!(r.sentinels()[0].name, "guard");
    assert_eq!(r.sentinels()[0].identity, 4);
}

#[test]
fn register_scopes_catchers_under_the_base() {
    let rocket = Rocket::build()
        .register("/foo", vec![Catcher::new(Some(404), 1)])
        .register("/?q", vec![Catcher::new(Some(500), 2), Catcher::new(None, 3)]);
    let catchers = rocket.catchers();
    assert_eq!(catchers.len(), 3);
    assert_eq!(catchers[0].code(), Some(404));
    assert_eq!(catchers[0].base().render(), "/foo");
    assert_eq!(catchers[1].code(), Some(500));
    assert_eq!(catchers[1].base().render(), "/");
    assert_eq!(catchers[2].code(), None);
    assert_eq!(catchers[2].base().render(), "/");
    assert_eq!(catchers[2].handler(), 3);
    assert_eq!(catchers[0].rank(), 0);
    assert_eq!(catchers[1].rank(), 1);
    assert_eq!(catchers[2].rank(), 2);
}

#[test]
fn catcher_keeps_its_name() {
    let c = Catcher::new(Some(404), 1).named(String::from("not found"));
    let rocket = Rocket::build().register("/", vec![c]);
    assert_eq!(rocket.catchers()[0].name(), "not found");
}

#[test]
fn routes_are_read_the_same_in_every_stage() {
    let rocket = Rocket::build().mount("/hi", vec![route("/hello")]);
    assert_eq!(rocket.routes()[0].uri().render(), "/hi/hello");
    let rocket = match rocket.ignite(vec![]) {
        rocket::Ignition::Ignited(r) => r,
        _ => panic!("ignition of a plain instance"),
    };
    assert_eq!(rocket.routes()[0].uri().render(), "/hi/hello");
    let rocket = rocket.into_orbit(vec![rocket::Endpoint { address: String::from("a") }]);
    assert_eq!(rocket.routes().len(), 1);
    assert_eq!(rocket.routes()[0].uri().render(), "/hi/hello");
}
