use rocket::router::Router;
use rocket::{Catcher, Method, Origin, Route};

fn route(method: Method, base: &str, path: &str, rank: usize) -> Route {
    let base = Origin::parse(base).unwrap();
    Route::new(method, Origin::parse_route(path).unwrap(), 7).rebase(&base, rank)
}

fn catcher(code: Option<u16>, base: &str, rank: usize) -> Catcher {
    Catcher::new(code, 7).rebase(&Origin::parse(base).unwrap(), rank)
}

#[test]
fn empty_router_has_no_collisions() {
    let router = Router::new();
    assert!(router.finalize().is_ok());
    assert_eq!(router.route_list().len(), 0);
    assert_eq!(router.catcher_list().len(), 0);
}

#[test]
fn router_keeps_the_order_of_adding() {
    let mut router = Router::new();
    router.add_route(route(Method::Get, "/", "/b", 0));
    router.add_route(route(Method::Get, "/", "/a", 1));
    router.add_catcher(catcher(Some(404), "/", 0));
    router.add_catcher(catcher(None, "/", 1));
    assert_eq!(router.route_list()[0].uri().render(), "/b");
    assert_eq!(router.route_list()[1].uri().render(), "/a");
    assert_eq!(router.catcher_list()[0].code(), Some(404));
    assert_eq!(router.catcher_list()[1].code(), None);
    assert!(router.finalize().is_ok());
}

#[test]
fn router_reports_pairs_by_the_earlier_route_then_the_later() {
    let mut router = Router::new();
    router.add_route(route(Method::Get, "/x", "/y", 0));
    router.add_route(route(Method::Put, "/", "/p", 1));
    router.add_route(route(Method::Get, "/", "/x/y", 2));
    router.add_route(route(Method::Put, "/p", "/", 3));
    router.add_route(route(Method::Get, "/x/", "/y", 4));
    let found = router.colliding_routes();
    let ranks: Vec<(usize, usize)> = found.iter().map(|p| (p.0.rank(), p.1.rank())).collect();
    assert_eq!(ranks, vec![(0, 2), (0, 4), (1, 3), (2, 4)]);
    let collisions = router.finalize().err().unwrap();
    assert_eq!(collisions.routes.len(), 4);
    assert_eq!(collisions.catchers.len(), 0);
}

#[test]
fn router_reports_colliding_catchers() {
    let router = Router::from_parts(
        vec![],
        vec![
            catcher(Some(404), "/a", 0),
            catcher(Some(404), "/a/", 1),
            catcher(Some(500), "/a", 2),
            catcher(None, "/a", 3),
            catcher(Some(404), "/a?q", 4),
            catcher(None, "/a", 5),
        ],
    );
    let found = router.colliding_catchers();
    let ranks: Vec<(usize, usize)> = found.iter().map(|p| (p.0.rank(), p.1.rank())).collect();
    assert_eq!(ranks, vec![(0, 4), (3, 5)]);
    assert!(router.colliding_routes().is_empty());
    assert!(router.finalize().is_err());
}

#[test]
fn routes_collide_on_method_and_effective_path() {
    let a = route(Method::Get, "/foo", "/bar", 0);
    assert!(a.collides_with(&route(Method::Get, "/", "/foo/bar", 1)));
    assert!(a.collides_with(&route(Method::Get, "/foo/", "/bar?q", 1)));
    assert!(a.collides_with(&a));
    assert!(!a.collides_with(&route(Method::Post, "/foo", "/bar", 1)));
    assert!(!a.collides_with(&route(Method::Get, "/foo", "/bar/", 1)));
    assert!(!a.collides_with(&route(Method::Get, "/foo", "/", 1)));
}

#[test]
fn catchers_collide_on_code_and_base() {
    let a = catcher(Some(404), "/a", 0);
    assert!(a.collides_with(&catcher(Some(404), "/a?x", 1)));
    assert!(!a.collides_with(&catcher(Some(500), "/a", 1)));
    assert!(!a.collides_with(&catcher(None, "/a", 1)));
    assert!(!a.collides_with(&catcher(Some(404), "/", 1)));
    assert!(catcher(None, "/", 0).collides_with(&catcher(None, "/", 1)));
}

#[test]
fn clones_of_routes_and_catchers_are_equal() {
    let r = route(Method::Delete, "/a", "/b?c", 3)
        .named(String::from("n"))
        .guarded(rocket::Sentry { name: String::from("s"), identity: 1 });
    let c = r.clone();
    assert_eq!(c.method(), Method::Delete);
    assert_eq!(c.name(), "n");
    assert_eq!(c.handler(), 7);
    assert_eq!(c.rank(), 3);
    assert_eq!(c.base().render(), "/a");
    assert_eq!(c.path().render(), "/b?c");
    assert_eq!(c.uri().render(), "/a/b?c");
    assert_eq!(c.sentinels().len(), 1);
    assert_eq!(c.sentinels()[0].name, "s");
    let k = catcher(Some(1), "/z", 2).named(String::from("k")).clone();
    assert_eq!(k.name(), "k");
    assert_eq!(k.code(), Some(1));
    assert_eq!(k.rank(), 2);
    assert_eq!(k.base().render(), "/z");
}
