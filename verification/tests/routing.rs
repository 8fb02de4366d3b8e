use routerman::method::{get, Method, MethodDecision};
use routerman::request::ext::{RemoteAddrExt, RouteParamsExt};
use routerman::request::{Request, RequestExt};
use routerman::response::{DefaultFormatter, Response};
use routerman::route::Route;
use routerman::router::{PathRouter, RequestFuture, RouteError, RouteErrorKind, Routed};
use routerman::response::{ErrorResponse, Formatter, IntoResponse};

fn header<'a>(resp: &'a Response, name: &str) -> Option<&'a str> {
    resp.headers
        .iter()
        .rev()
        .find(|(n, _)| n == name)
        .map(|(_, v)| v.as_str())
}

fn request(method: Method, path: &str, query: Option<&str>) -> Request {
    let mut req = Request::new(method, path.to_string());
    req.query = query.map(|q| q.to_string());
    req
}

#[test]
fn end_to_end_param_extraction() {
    let router = PathRouter::builder()
        .route("/items/:id", Route::new(get(Route::new(1usize))))
        .build()
        .unwrap();
    match router.route_request(request(Method::Get, "/items/42", None), DefaultFormatter) {
        Routed::Handler { route, request } => {
            assert_eq!(request.params().get("id"), Some("42"));
            match route.handler_fn().dispatch(request.method) {
                MethodDecision::Handler(leaf) => assert_eq!(*leaf.handler_fn(), 1),
                _ => panic!("expected the GET handler"),
            }
        }
        Routed::Response(_) => panic!("expected a handler"),
    }
}

#[test]
fn end_to_end_extra_trailing_slash_redirect() {
    let router = PathRouter::builder()
        .route("/items/:id", Route::new(get(Route::new(1usize))))
        .build()
        .unwrap();
    match router.route_request(request(Method::Get, "/items/42/", None), DefaultFormatter) {
        Routed::Response(resp) => {
            assert_eq!(resp.status, 308);
            assert_eq!(header(&resp, "location"), Some("/items/42"));
            assert_eq!(resp.body, "");
        }
        Routed::Handler { .. } => panic!("expected a redirect"),
    }
}

#[test]
fn end_to_end_method_not_allowed() {
    let router = PathRouter::builder()
        .route("/items/:id", Route::new(get(Route::new(1usize))))
        .build()
        .unwrap();
    match router.route_request(request(Method::Post, "/items/42", None), DefaultFormatter) {
        Routed::Handler { route, request } => match route.handler_fn().dispatch(request.method) {
            MethodDecision::NotAllowed(allow) => {
                assert_eq!(allow, "GET");
                let resp = DefaultFormatter.format_error(RouteError {
                    request,
                    kind: RouteErrorKind::MethodNotAllowed {
                        allow_header: allow,
                    },
                });
                assert_eq!(resp.status, 405);
                assert_eq!(header(&resp, "allow"), Some("GET"));
            }
            _ => panic!("expected a method miss"),
        },
        Routed::Response(_) => panic!("expected the method router"),
    }
}

#[test]
fn end_to_end_default_route() {
    let router = PathRouter::builder()
        .route("/items/:id", Route::new(1usize))
        .default_route(Route::new(7usize))
        .build()
        .unwrap();
    match router.route_request(request(Method::Get, "/unknown", None), DefaultFormatter) {
        Routed::Handler { route, request } => {
            assert_eq!(*route.handler_fn(), 7);
            assert!(request.params.is_none());
            let (resp, fmt) = (404u16, "Teapot-free plain text").into_response(DefaultFormatter);
            assert!(fmt.is_some());
            assert_eq!(resp.status, 404);
            assert_eq!(resp.body, "Teapot-free plain text");
        }
        Routed::Response(_) => panic!("expected the default route"),
    }
}

#[test]
fn not_found_without_default_route() {
    let router: PathRouter<usize> = PathRouter::builder()
        .route("/a", Route::new(1usize))
        .build()
        .unwrap();
    match router.route_request(request(Method::Get, "/b", None), DefaultFormatter) {
        Routed::Response(resp) => {
            assert_eq!(resp.status, 404);
            assert_eq!(resp.body, "");
        }
        Routed::Handler { .. } => panic!("expected a not-found response"),
    }
}

#[test]
fn redirect_preserves_query_verbatim() {
    let router = PathRouter::builder()
        .route("/a/:x", Route::new(3usize))
        .build()
        .unwrap();
    match router.route_request(
        request(Method::Get, "/a/1/", Some("q=2&r=%20")),
        DefaultFormatter,
    ) {
        Routed::Response(resp) => {
            assert_eq!(resp.status, 308);
            assert_eq!(header(&resp, "location"), Some("/a/1?q=2&r=%20"));
        }
        Routed::Handler { .. } => panic!("expected a redirect"),
    }
}

#[test]
fn missing_trailing_slash_redirect() {
    let router = PathRouter::builder()
        .route("/blog/", Route::new(2usize))
        .build()
        .unwrap();
    match router.route_request(request(Method::Get, "/blog", Some("page=2")), DefaultFormatter) {
        Routed::Response(resp) => {
            assert_eq!(resp.status, 308);
            assert_eq!(header(&resp, "location"), Some("/blog/?page=2"));
        }
        Routed::Handler { .. } => panic!("expected a redirect"),
    }
}

#[test]
fn lookup_selects_the_registered_route() {
    let router = PathRouter::builder()
        .route("/a", Route::new(10usize))
        .route("/b", Route::new(20usize))
        .build()
        .unwrap();
    match router.route_request(request(Method::Get, "/b", None), DefaultFormatter) {
        Routed::Handler { route, .. } => assert_eq!(*route.handler_fn(), 20),
        Routed::Response(_) => panic!("expected a handler"),
    }
}

#[test]
fn percent_decoding_of_parameters() {
    let router = PathRouter::builder()
        .route("/x/:v", Route::new(0usize))
        .build()
        .unwrap();
    match router.route_request(request(Method::Get, "/x/a%20b%34", None), DefaultFormatter) {
        Routed::Handler { request, .. } => {
            assert_eq!(request.params().get("v"), Some("a b4"));
            assert_eq!(request.params().get("missing"), None);
        }
        Routed::Response(_) => panic!("expected a handler"),
    }
}

#[test]
fn invalid_param_encoding_yields_bad_request() {
    let router = PathRouter::builder()
        .route("/x/:v", Route::new(0usize))
        .build()
        .unwrap();
    match router.route_request(request(Method::Get, "/x/%ff", None), DefaultFormatter) {
        Routed::Response(resp) => assert_eq!(resp.status, 400),
        Routed::Handler { .. } => panic!("expected a bad-request response"),
    }
}

#[test]
fn try_from_decodes_and_reports_first_bad_key() {
    let ok = RouteParamsExt::try_from(vec![
        ("id".to_string(), "%34%32".to_string()),
        ("name".to_string(), "plain".to_string()),
    ])
    .unwrap();
    assert_eq!(ok.0.get("id"), Some("42"));
    assert_eq!(ok.0.get("name"), Some("plain"));

    let err = RouteParamsExt::try_from(vec![
        ("good".to_string(), "fine".to_string()),
        ("bad".to_string(), "%ff".to_string()),
        ("worse".to_string(), "%fe".to_string()),
    ])
    .unwrap_err();
    assert_eq!(err.0, "bad");
}

#[test]
fn invalid_param_encoding_message_names_the_key() {
    let err = RouteParamsExt::try_from(vec![("bad".to_string(), "%ff".to_string())]).unwrap_err();
    assert_eq!(err.message(), "invalid param encoding for key bad");
}

#[test]
fn duplicate_pattern_is_a_build_error() {
    let result = PathRouter::builder()
        .route("/a", Route::new(1usize))
        .route("/a", Route::new(2usize))
        .build();
    assert!(result.is_err());
}

#[test]
fn pattern_past_the_parameter_bound_is_refused_before_the_trie() {
    let mut crowded = String::new();
    for i in 0..26 {
        crowded.push_str(&format!("/:p{}", i));
    }
    match PathRouter::builder().route(&crowded, Route::new(1usize)).build() {
        Err(refused) => assert_eq!(refused.message, "too many route parameters"),
        Ok(_) => panic!("expected the pattern to be refused"),
    }

    let mut full = String::new();
    for i in 0..25 {
        full.push_str(&format!("/:q{}", i));
    }
    assert!(PathRouter::builder()
        .route(&full, Route::new(1usize))
        .build()
        .is_ok());
}

#[test]
fn fallback_and_default_probes_report_configuration() {
    let plain = get(Route::new(1usize));
    assert!(!plain.has_fallback());
    let with_fallback = plain.fallback(Route::new(9usize));
    assert!(with_fallback.has_fallback());

    let builder: routerman::router::RouterBuilder<usize> = PathRouter::builder();
    assert!(!builder.has_default_route());
    assert!(builder.default_route(Route::new(2usize)).has_default_route());
}

#[test]
fn builder_merge_adopts_single_default() {
    let left = PathRouter::builder().route("/a", Route::new(1usize));
    let right = PathRouter::builder()
        .route("/b", Route::new(2usize))
        .default_route(Route::new(9usize));
    let merged = left.merge(right).unwrap();
    let router = merged.build().unwrap();
    match router.route_request(request(Method::Get, "/nope", None), DefaultFormatter) {
        Routed::Handler { route, .. } => assert_eq!(*route.handler_fn(), 9),
        Routed::Response(_) => panic!("expected the adopted default"),
    }
}

#[test]
fn builder_merge_with_two_defaults_is_refused() {
    let left = PathRouter::builder().default_route(Route::new(1usize));
    let right = PathRouter::builder().default_route(Route::new(2usize));
    assert!(left.merge(right).is_err());
}

#[test]
fn unrepresentable_redirect_location_reenters_the_formatter() {
    let router = PathRouter::builder()
        .route("/a\u{1}", Route::new(1usize))
        .build()
        .unwrap();
    match router.route_request(request(Method::Get, "/a\u{1}/", None), DefaultFormatter) {
        Routed::Response(resp) => {
            assert_eq!(resp.status, 500);
            assert_eq!(resp.body, "invalid header value");
        }
        Routed::Handler { .. } => panic!("expected the formatter's rendering"),
    }
}

#[test]
fn remote_address_reads_the_attached_metadata() {
    let mut req = request(Method::Get, "/", None);
    req.remote_addr = Some(RemoteAddrExt("127.0.0.1:8080".to_string()));
    assert_eq!(req.remote_address().0, "127.0.0.1:8080");
}

#[test]
fn request_future_yields_exactly_once() {
    let response = Response {
        status: 200,
        headers: Vec::new(),
        body: "done".to_string(),
    };
    let mut immediate: RequestFuture<u8> = RequestFuture::Response(Some(response.clone()));
    let yielded = immediate.poll_step(None).unwrap();
    assert_eq!(yielded.body, "done");
    assert!(matches!(immediate, RequestFuture::Response(None)));

    let mut in_flight: RequestFuture<u8> = RequestFuture::Route(0);
    assert!(in_flight.poll_step(None).is_none());
    assert!(matches!(in_flight, RequestFuture::Route(0)));
    let finished = in_flight.poll_step(Some(response)).unwrap();
    assert_eq!(finished.status, 200);
    assert!(matches!(in_flight, RequestFuture::Response(None)));
}
