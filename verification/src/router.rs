//! The path router: a frozen trie of route patterns plus one optional
//! default route, the per-request lookup that resolves a path to a route
//! with decoded parameters or to an immediate response, and the dispatch
//! state machine handed back to the transport.

use vstd::prelude::*;
use vstd::pervasive::unreached;

use crate::request::ext::{InvalidParamEncoding, RouteParamsExt};
use crate::request::Request;
use crate::response::{Formatter, Response};
use crate::route::Route;
use crate::trie::{
    count_named_params, insert_accepted, named_params, registered_routes, route_match, trie_at,
    trie_insert, trie_new, PatternMatch, TrieLookup, MAX_PATTERN_PARAMS,
};
use crate::request::ext::decode_params;

verus! {

/// Why normal dispatch did not occur for a request.
#[derive(Debug)]
pub enum RouteErrorKind {
    /// No pattern matched and no default route was configured.
    NotFound,
    /// The path carries a trailing slash the matching pattern lacks.
    ExtraTrailingSlash,
    /// The path lacks the trailing slash the matching pattern carries.
    MissingTrailingSlash,
    /// No route is registered for the request's method, and no fallback:
    /// carries the advertised `Allow` header value.
    MethodNotAllowed { allow_header: String },
    /// A path parameter's value was not valid percent-encoded text.
    Param(InvalidParamEncoding),
}

/// A routing failure bound to the request it failed for, so that the
/// formatter can render a response (a redirect needs the original path and
/// query) without re-deriving anything.
#[derive(Debug)]
pub struct RouteError {
    pub request: Request,
    pub kind: RouteErrorKind,
}

/// A pattern the trie refused at build time, with the trie's own account of
/// the refusal. Raised during construction, never at request time.
#[derive(PartialEq, Eq, Clone, Debug)]
pub struct BuildError {
    pub pattern: String,
    pub message: String,
}

/// A conflict between two default routes: merging two builders that both
/// declare one is a fatal configuration error.
#[derive(PartialEq, Eq, Clone, Copy, Debug)]
pub struct DefaultRouteConflict;

/// The pattern-to-route registrations of a builder, as specification data.
pub open spec fn entry_views<H>(s: Seq<(String, Route<H>)>) -> Seq<(Seq<char>, Route<H>)> {
    Seq::new(s.len(), |i: int| (s[i].0@, s[i].1))
}

/// The pattern map after registering the first `n` patterns, each bound to
/// its position.
pub open spec fn build_map(patterns: Seq<Seq<char>>, n: int) -> Map<Seq<char>, usize>
    decreases n,
{
    if n <= 0 {
        Map::empty()
    } else {
        build_map(patterns, n - 1).insert(patterns[n - 1], (n - 1) as usize)
    }
}

/// Whether the first `n` patterns can all be registered in order: each is
/// within the trie's named-parameter bound and each is accepted over what
/// came before it.
pub open spec fn build_accepts(patterns: Seq<Seq<char>>, n: int) -> bool
    decreases n,
{
    if n <= 0 {
        true
    } else {
        build_accepts(patterns, n - 1) && named_params(patterns[n - 1])
            <= MAX_PATTERN_PARAMS as int && insert_accepted(
            build_map(patterns, n - 1),
            patterns[n - 1],
        )
    }
}

/// Every value the pattern map holds is the position of a registered
/// pattern.
proof fn lemma_build_map_values(patterns: Seq<Seq<char>>, n: int)
    requires
        n >= 0,
    ensures
        forall|p: Seq<char>| #[trigger]
            build_map(patterns, n).dom().contains(p) ==> build_map(patterns, n)[p] < n,
    decreases n,
{
    if n > 0 {
        lemma_build_map_values(patterns, n - 1);
        assert forall|p: Seq<char>| #[trigger]
            build_map(patterns, n).dom().contains(p) implies build_map(patterns, n)[p] < n by {
            if p != patterns[n - 1] {
                assert(build_map(patterns, n - 1).dom().contains(p));
            }
        }
    }
}

/// Every pattern that is registered, and not registered again later, is
/// bound in the frozen pattern map to the position of its own route: a
/// matched pattern always selects the route that was registered for it.
pub proof fn lemma_build_map_at(patterns: Seq<Seq<char>>, n: int, i: int)
    requires
        0 <= i < n,
        forall|j: int| i < j < n ==> patterns[j] != patterns[i],
    ensures
        build_map(patterns, n).dom().contains(patterns[i]),
        build_map(patterns, n)[patterns[i]] == i as usize,
    decreases n,
{
    if i < n - 1 {
        lemma_build_map_at(patterns, n - 1, i);
    }
}

/// Acceptance of a longer prefix carries acceptance of every shorter one.
proof fn lemma_build_accepts_mono(patterns: Seq<Seq<char>>, m: int, n: int)
    requires
        0 <= m <= n,
        build_accepts(patterns, n),
    ensures
        build_accepts(patterns, m),
    decreases n - m,
{
    if n > m {
        lemma_build_accepts_mono(patterns, m, n - 1);
    }
}

/// Collects `(pattern, route)` registrations and one optional default
/// route, before the router is frozen.
pub struct RouterBuilder<H> {
    routes: Vec<(String, Route<H>)>,
    default: Option<Route<H>>,
}

/// A frozen path router: patterns in a trie, routes in registration order,
/// one optional default route. Immutable after `build`, shared read-only
/// across requests.
pub struct PathRouter<H> {
    routes: Vec<Route<H>>,
    trie: matchit::Router<usize>,
    default: Option<Route<H>>,
}

/// What routing one request resolves to: a selected route together with
/// the request (parameters attached on a pattern match), or an immediate
/// response for every failure the formatter renders.
pub enum Routed<'a, H> {
    Handler { route: &'a Route<H>, request: Request },
    Response(Response),
}

impl<H> PathRouter<H> {
    /// The registered routes, in registration order.
    pub closed spec fn spec_routes(self) -> Seq<Route<H>> {
        self.routes@
    }

    /// The frozen pattern map: each pattern bound to the position of its
    /// route.
    pub closed spec fn pattern_map(self) -> Map<Seq<char>, usize> {
        registered_routes(self.trie)
    }

    /// The configured default route, if any.
    pub closed spec fn spec_default(self) -> Option<Route<H>> {
        self.default
    }

    /// Internal consistency: every pattern points at a registered route.
    pub closed spec fn wf(self) -> bool {
        forall|p: Seq<char>| #[trigger]
            self.pattern_map().dom().contains(p) ==> self.pattern_map()[p] < self.routes@.len()
    }

    pub fn builder() -> (r: RouterBuilder<H>)
        ensures
            r.spec_entries().len() == 0,
            r.spec_default() is None,
    {
        RouterBuilder { routes: Vec::new(), default: None }
    }

    /// Routes one request: resolves the path, decodes captured parameters,
    /// and either selects a route (attaching the parameters on a pattern
    /// match, or handing the request through unchanged to the default
    /// route) or renders the failure as an immediate response. Exactly one
    /// of the two happens, for every request.
    pub fn route_request<'a, Fmt: Formatter<RouteError>>(&'a self, req: Request, fmt: Fmt) -> (r:
        Routed<'a, H>)
        requires
            self.wf(),
        ensures
            ({
                match route_match(self.pattern_map(), req.path@) {
                    PatternMatch::Found { pattern, value, raw_params } => match decode_params(
                        raw_params,
                    ) {
                        Ok(d) => r matches Routed::Handler { route, request }
                            && self.pattern_map().dom().contains(pattern)
                            && self.pattern_map()[pattern] == value
                            && *route == self.spec_routes()[value as int] && (
                        request.params matches Some(p) && p.0@ == d && p.0.wf())
                            && request.method == req.method && request.path == req.path
                            && request.query == req.query && request.headers == req.headers
                            && request.body == req.body && request.remote_addr
                            == req.remote_addr,
                        Err(k) => r matches Routed::Response(resp) && exists|
                            e: InvalidParamEncoding,
                        |
                            e.0@ == k && resp@ == #[trigger] fmt.spec_format_error(
                                RouteError { request: req, kind: RouteErrorKind::Param(e) },
                            ),
                    },
                    PatternMatch::ExtraTrailingSlash => r matches Routed::Response(resp)
                        && resp@ == fmt.spec_format_error(
                        RouteError { request: req, kind: RouteErrorKind::ExtraTrailingSlash },
                    ),
                    PatternMatch::MissingTrailingSlash => r matches Routed::Response(resp)
                        && resp@ == fmt.spec_format_error(
                        RouteError { request: req, kind: RouteErrorKind::MissingTrailingSlash },
                    ),
                    PatternMatch::NotFound => match self.spec_default() {
                        Some(d) => r matches Routed::Handler { route, request } && *route == d
                            && request == req,
                        None => r matches Routed::Response(resp) && resp@
                            == fmt.spec_format_error(
                            RouteError { request: req, kind: RouteErrorKind::NotFound },
                        ),
                    },
                }
            }),
    {
        let lookup = trie_at(&self.trie, self.path_of(&req));
        match lookup {
            TrieLookup::Found { value, raw_params } => {
                proof {
                    let m = self.pattern_map();
                    match route_match(m, req.path@) {
                        PatternMatch::Found { pattern, .. } => {
                            assert(m[pattern] < self.routes@.len());
                        },
                        _ => {},
                    }
                }
                match RouteParamsExt::try_from(raw_params) {
                    Ok(params) => {
                        let mut request = req;
                        request.params = Some(params);
                        Routed::Handler { route: &self.routes[value], request }
                    },
                    Err(e) => {
                        let resp = fmt.format_error(
                            RouteError { request: req, kind: RouteErrorKind::Param(e) },
                        );
                        Routed::Response(resp)
                    },
                }
            },
            TrieLookup::ExtraTrailingSlash => Routed::Response(
                fmt.format_error(
                    RouteError { request: req, kind: RouteErrorKind::ExtraTrailingSlash },
                ),
            ),
            TrieLookup::MissingTrailingSlash => Routed::Response(
                fmt.format_error(
                    RouteError { request: req, kind: RouteErrorKind::MissingTrailingSlash },
                ),
            ),
            TrieLookup::NotFound => match &self.default {
                Some(route) => Routed::Handler { route, request: req },
                None => Routed::Response(
                    fmt.format_error(RouteError { request: req, kind: RouteErrorKind::NotFound }),
                ),
            },
        }
    }

    /// Borrows the request's path text.
    fn path_of<'b>(&self, req: &'b Request) -> (r: &'b str)
        ensures
            r@ == req.path@,
    {
        req.path.as_str()
    }
}

impl<H> RouterBuilder<H> {
    /// The `(pattern, route)` registrations so far, in order.
    pub closed spec fn spec_entries(self) -> Seq<(Seq<char>, Route<H>)> {
        entry_views(self.routes@)
    }

    /// The registered patterns, in order.
    pub open spec fn spec_patterns(self) -> Seq<Seq<char>> {
        Seq::new(self.spec_entries().len(), |i: int| self.spec_entries()[i].0)
    }

    /// The default route configured so far, if any.
    pub closed spec fn spec_default(self) -> Option<Route<H>> {
        self.default
    }

    /// Registers `route` under the path pattern `path`.
    pub fn route(self, path: &str, route: Route<H>) -> (r: Self)
        ensures
            r.spec_entries() == self.spec_entries().push((path@, route)),
            r.spec_default() == self.spec_default(),
    {
        let mut this = self;
        this.routes.push((path.to_owned(), route));
        proof {
            assert(this.spec_entries() =~= self.spec_entries().push((path@, route)));
        }
        this
    }

    /// Configures the route that answers when no pattern matches. It
    /// receives the request unchanged, with no parameters attached.
    pub fn default_route(self, route: Route<H>) -> (r: Self)
        ensures
            r.spec_entries() == self.spec_entries(),
            r.spec_default() == Some(route),
    {
        let mut this = self;
        this.default = Some(route);
        proof {
            assert(this.spec_entries() =~= self.spec_entries());
        }
        this
    }

    /// Whether a default route is configured, so that composing code can
    /// test for a conflict before merging.
    pub fn has_default_route(&self) -> (r: bool)
        ensures
            r == (self.spec_default() is Some),
    {
        self.default.is_some()
    }

    /// Appends `other`'s registrations after this builder's own. Two
    /// default routes are an ambiguous composition and are refused with a
    /// value — a fatal configuration error that the embedding does not
    /// recover from into serving; one declared on either side alone is
    /// adopted.
    pub fn merge(self, other: Self) -> (r: Result<Self, DefaultRouteConflict>)
        ensures
            r is Err <==> self.spec_default() is Some && other.spec_default() is Some,
            r matches Ok(merged) ==> merged.spec_entries() == self.spec_entries()
                + other.spec_entries(),
            r matches Ok(merged) ==> merged.spec_default() == (if other.spec_default()
                is Some {
                other.spec_default()
            } else {
                self.spec_default()
            }),
    {
        if self.default.is_some() && other.default.is_some() {
            return Err(DefaultRouteConflict);
        }
        let mut this = self;
        let mut that = other;
        this.routes.append(&mut that.routes);
        match that.default {
            Some(route) => {
                this.default = Some(route);
            },
            None => {},
        }
        proof {
            assert(this.spec_entries() =~= self.spec_entries() + other.spec_entries());
        }
        Ok(this)
    }

    /// Freezes the builder: registers every pattern in the trie, in order,
    /// and hands back the router, or the refusal of the first pattern that
    /// cannot be registered — one past the trie's named-parameter bound,
    /// refused here before it reaches the trie, or one the trie itself
    /// rejects. A refusal is a fatal configuration error: the embedding
    /// does not recover from it into serving.
    #[verifier::loop_isolation(false)]
    pub fn build(self) -> (r: Result<PathRouter<H>, BuildError>)
        ensures
            r is Ok <==> build_accepts(self.spec_patterns(), self.spec_patterns().len() as int),
            r matches Ok(router) ==> router.wf() && router.pattern_map() == build_map(
                self.spec_patterns(),
                self.spec_patterns().len() as int,
            ) && router.spec_routes().len() == self.spec_entries().len() && (forall|i: int|
                0 <= i < self.spec_entries().len() ==> router.spec_routes()[i]
                    == self.spec_entries()[i].1) && router.spec_default() == self.spec_default(),
    {
        let ghost entries = self.spec_entries();
        let ghost pats = self.spec_patterns();
        let RouterBuilder { routes: mut pending, default } = self;
        let mut trie = trie_new();
        let mut routes: Vec<Route<H>> = Vec::new();
        proof {
            assert(entry_views(pending@) =~= entries.skip(0));
        }
        while pending.len() > 0
            invariant
                routes@.len() + pending@.len() == entries.len(),
                entry_views(pending@) == entries.skip(routes@.len() as int),
                forall|i: int| 0 <= i < routes@.len() ==> routes@[i] == entries[i].1,
                registered_routes(trie) == build_map(pats, routes@.len() as int),
                build_accepts(pats, routes@.len() as int),
            decreases pending@.len(),
        {
            let ghost k = routes@.len() as int;
            let ghost before = pending@;
            let pair = pending.remove(0);
            proof {
                assert(entry_views(before)[0] == entries.skip(k)[0]);
                assert(entries.skip(k)[0] == entries[k]);
                assert(pair.0@ == entries[k].0);
                assert(pats[k] == entries[k].0);
            }
            let params = count_named_params(pair.0.as_str());
            if params > MAX_PATTERN_PARAMS {
                proof {
                    if build_accepts(pats, pats.len() as int) {
                        lemma_build_accepts_mono(pats, k + 1, pats.len() as int);
                    }
                }
                return Err(
                    BuildError {
                        pattern: pair.0,
                        message: "too many route parameters".to_owned(),
                    },
                );
            }
            let idx = routes.len();
            match trie_insert(&mut trie, pair.0.as_str(), idx) {
                Ok(()) => {
                    routes.push(pair.1);
                    proof {
                        assert(build_map(pats, k + 1) == build_map(pats, k).insert(
                            pats[k],
                            k as usize,
                        ));
                        assert(entry_views(pending@) =~= entries.skip(k + 1)) by {
                            assert(entry_views(before).skip(1) =~= entry_views(pending@));
                            assert(entries.skip(k).skip(1) =~= entries.skip(k + 1));
                        }
                    }
                },
                Err(message) => {
                    proof {
                        if build_accepts(pats, pats.len() as int) {
                            lemma_build_accepts_mono(pats, k + 1, pats.len() as int);
                        }
                    }
                    return Err(BuildError { pattern: pair.0, message });
                },
            }
        }
        proof {
            lemma_build_map_values(pats, routes@.len() as int);
        }
        Ok(PathRouter { routes, trie, default })
    }
}

/// The per-request execution unit handed back to the transport: either an
/// in-flight handler computation of type `F`, or an immediate response that
/// is yielded exactly once.
pub enum RequestFuture<F> {
    Route(F),
    Response(Option<Response>),
}

impl<F> RequestFuture<F> {
    /// Whether the unit has already yielded its response. Polling past this
    /// point is a transport bug, ruled out by precondition.
    pub open spec fn completed(self) -> bool {
        self matches RequestFuture::Response(None)
    }

    /// One poll transition. For the in-flight state the caller reports the
    /// inner computation's progress through `ready`: `None` keeps the unit
    /// unchanged and pending, a finished response completes the unit and is
    /// yielded. A held immediate response is yielded and consumed. Either
    /// way the response comes out exactly once.
    pub fn poll_step(&mut self, ready: Option<Response>) -> (r: Option<Response>)
        requires
            !old(self).completed(),
        ensures
            *old(self) matches RequestFuture::Route(_) && ready is None ==> r is None
                && *final(self) == *old(self),
            *old(self) matches RequestFuture::Route(_) && ready is Some ==> r == ready
                && final(self).completed(),
            *old(self) matches RequestFuture::Response(held) ==> r == held
                && final(self).completed(),
    {
        let mut taken = RequestFuture::Response(None);
        core::mem::swap(self, &mut taken);
        match taken {
            RequestFuture::Route(inner) => match ready {
                Some(resp) => Some(resp),
                None => {
                    *self = RequestFuture::Route(inner);
                    None
                },
            },
            RequestFuture::Response(held) => match held {
                Some(resp) => Some(resp),
                None => unreached(),
            },
        }
    }
}

} // verus!
