use routerman::method::{delete, get, post, Method, MethodDecision, MethodRouter};
use routerman::route::Route;

fn allow_of(router: &MethodRouter<usize>, probe: Method) -> String {
    match router.dispatch(probe) {
        MethodDecision::NotAllowed(allow) => allow,
        _ => panic!("expected a method miss"),
    }
}

#[test]
fn allow_header_is_sorted_and_order_independent() {
    let mut a: MethodRouter<usize> = MethodRouter::new();
    a.set_method(Method::Get, Route::new(1));
    a.set_method(Method::Post, Route::new(2));

    let mut b: MethodRouter<usize> = MethodRouter::new();
    b.set_method(Method::Post, Route::new(2));
    b.set_method(Method::Get, Route::new(1));

    assert_eq!(allow_of(&a, Method::Put), "GET, POST");
    assert_eq!(allow_of(&b, Method::Put), "GET, POST");
}

#[test]
fn allow_header_reflects_current_set_exactly() {
    let mut router: MethodRouter<usize> = MethodRouter::new();
    assert_eq!(allow_of(&router, Method::Get), "");
    router.set_method(Method::Get, Route::new(1));
    router.set_method(Method::Delete, Route::new(2));
    assert_eq!(allow_of(&router, Method::Put), "DELETE, GET");
    router.set_method(Method::Get, Route::new(3));
    assert_eq!(allow_of(&router, Method::Put), "DELETE, GET");
}

#[test]
fn reregistration_overwrites_the_handler() {
    let mut router: MethodRouter<usize> = MethodRouter::new();
    router.set_method(Method::Get, Route::new(1));
    router.set_method(Method::Get, Route::new(2));
    match router.dispatch(Method::Get) {
        MethodDecision::Handler(route) => assert_eq!(*route.handler_fn(), 2),
        _ => panic!("expected the overwriting handler"),
    }
}

#[test]
fn dispatch_prefers_the_registered_method() {
    let router = get(Route::new(1usize)).method(Method::Post, Route::new(2));
    match router.dispatch(Method::Post) {
        MethodDecision::Handler(route) => assert_eq!(*route.handler_fn(), 2),
        _ => panic!("expected the POST handler"),
    }
}

#[test]
fn fallback_route_answers_method_misses() {
    let router = get(Route::new(1usize)).fallback(Route::new(9));
    match router.dispatch(Method::Trace) {
        MethodDecision::Fallback(route) => assert_eq!(*route.handler_fn(), 9),
        _ => panic!("expected the fallback"),
    }
}

#[test]
fn merge_unions_and_other_side_wins() {
    let mut left = get(Route::new(1usize)).method(Method::Post, Route::new(2));
    let right = post(Route::new(20usize)).method(Method::Delete, Route::new(30));
    left.merge(right).unwrap();
    match left.dispatch(Method::Post) {
        MethodDecision::Handler(route) => assert_eq!(*route.handler_fn(), 20),
        _ => panic!("expected the merged POST handler"),
    }
    match left.dispatch(Method::Delete) {
        MethodDecision::Handler(route) => assert_eq!(*route.handler_fn(), 30),
        _ => panic!("expected the merged DELETE handler"),
    }
    assert_eq!(allow_of(&left, Method::Put), "DELETE, GET, POST");
}

#[test]
fn merge_with_two_fallbacks_is_fatal() {
    let mut left = get(Route::new(1usize)).fallback(Route::new(8));
    let right = post(Route::new(2usize)).fallback(Route::new(9));
    assert!(left.merge(right).is_err());
}

#[test]
fn merge_adopts_the_single_fallback() {
    let left = get(Route::new(1usize));
    let right = post(Route::new(2usize)).fallback(Route::new(9));
    let merged = left.merged(right).unwrap();
    match merged.dispatch(Method::Trace) {
        MethodDecision::Fallback(route) => assert_eq!(*route.handler_fn(), 9),
        _ => panic!("expected the adopted fallback"),
    }
}

#[test]
fn merge_keeps_own_fallback_when_other_has_none() {
    let left = get(Route::new(1usize)).fallback(Route::new(8));
    let right = post(Route::new(2usize));
    let merged = left.merged(right).unwrap();
    match merged.dispatch(Method::Trace) {
        MethodDecision::Fallback(route) => assert_eq!(*route.handler_fn(), 8),
        _ => panic!("expected the kept fallback"),
    }
}

#[test]
fn method_helpers_register_their_method() {
    let router = delete(Route::new(4usize));
    match router.dispatch(Method::Delete) {
        MethodDecision::Handler(route) => assert_eq!(*route.handler_fn(), 4),
        _ => panic!("expected the DELETE handler"),
    }
    assert_eq!(allow_of(&router, Method::Get), "DELETE");
}

#[test]
fn allow_header_with_every_method() {
    let mut router: MethodRouter<usize> = MethodRouter::default();
    router.set_method(Method::Get, Route::new(1));
    router.set_method(Method::Put, Route::new(2));
    router.set_method(Method::Post, Route::new(3));
    router.set_method(Method::Delete, Route::new(4));
    router.set_method(Method::Head, Route::new(5));
    router.set_method(Method::Options, Route::new(6));
    router.set_method(Method::Connect, Route::new(7));
    router.set_method(Method::Patch, Route::new(8));
    match router.dispatch(Method::Trace) {
        MethodDecision::NotAllowed(allow) => assert_eq!(
            allow,
            "CONNECT, DELETE, GET, HEAD, OPTIONS, PATCH, POST, PUT"
        ),
        _ => panic!("expected a method miss"),
    }
}

#[test]
fn method_names_match_the_wire() {
    assert_eq!(Method::Get.name(), "GET");
    assert_eq!(Method::Connect.name(), "CONNECT");
    assert_eq!(Method::Trace.name(), "TRACE");
}
