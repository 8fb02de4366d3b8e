//! Dispatch by HTTP method among a set of routes, with one optional fallback
//! route and an automatically maintained `Allow` header value.
//!
//! The `Allow` value is re-derived eagerly on every mutation — it always
//! spells out the currently registered method set, sorted by name and joined
//! with a comma and a space — so that a method miss at request time costs one
//! string clone and no recomputation.

use vstd::prelude::*;
use vstd::string::StringExecFns;

use crate::route::Route;

verus! {

/// An HTTP request method. The set is closed: the routing layer dispatches
/// on these nine methods.
#[derive(Clone, Copy, PartialEq, Eq, Structural, Debug, Hash)]
pub enum Method {
    Connect,
    Delete,
    Get,
    Head,
    Options,
    Patch,
    Post,
    Put,
    Trace,
}

/// How many methods there are.
pub const METHOD_COUNT: usize = 9;

impl Method {
    /// The method's wire name.
    pub open spec fn spec_name(self) -> Seq<char> {
        match self {
            Method::Connect => "CONNECT"@,
            Method::Delete => "DELETE"@,
            Method::Get => "GET"@,
            Method::Head => "HEAD"@,
            Method::Options => "OPTIONS"@,
            Method::Patch => "PATCH"@,
            Method::Post => "POST"@,
            Method::Put => "PUT"@,
            Method::Trace => "TRACE"@,
        }
    }

    pub fn name(&self) -> (r: &'static str)
        ensures
            r@ == self.spec_name(),
    {
        match *self {
            Method::Connect => "CONNECT",
            Method::Delete => "DELETE",
            Method::Get => "GET",
            Method::Head => "HEAD",
            Method::Options => "OPTIONS",
            Method::Patch => "PATCH",
            Method::Post => "POST",
            Method::Put => "PUT",
            Method::Trace => "TRACE",
        }
    }

    pub fn from_rank(rank: usize) -> (r: Method)
        requires
            rank < METHOD_COUNT,
        ensures
            r == method_of_rank(rank as int),
    {
        if rank == 0 {
            Method::Connect
        } else if rank == 1 {
            Method::Delete
        } else if rank == 2 {
            Method::Get
        } else if rank == 3 {
            Method::Head
        } else if rank == 4 {
            Method::Options
        } else if rank == 5 {
            Method::Patch
        } else if rank == 6 {
            Method::Post
        } else if rank == 7 {
            Method::Put
        } else {
            Method::Trace
        }
    }
}

/// The method standing at a given position of the alphabetical order.
pub open spec fn method_of_rank(rank: int) -> Method {
    if rank == 0 {
        Method::Connect
    } else if rank == 1 {
        Method::Delete
    } else if rank == 2 {
        Method::Get
    } else if rank == 3 {
        Method::Head
    } else if rank == 4 {
        Method::Options
    } else if rank == 5 {
        Method::Patch
    } else if rank == 6 {
        Method::Post
    } else if rank == 7 {
        Method::Put
    } else {
        Method::Trace
    }
}

/// The `Allow` header text advertising the methods of `s` whose rank is
/// below `n`, sorted by name, joined with a comma and a space.
pub open spec fn allow_upto(s: Set<Method>, n: int) -> Seq<char>
    decreases n,
{
    if n <= 0 {
        Seq::empty()
    } else {
        let prefix = allow_upto(s, n - 1);
        let m = method_of_rank(n - 1);
        if s.contains(m) {
            if prefix.len() == 0 {
                m.spec_name()
            } else {
                prefix + ", "@ + m.spec_name()
            }
        } else {
            prefix
        }
    }
}

/// The `Allow` header text for a method set: sorted method names joined with
/// a comma and a space. A function of the set alone, so registration order
/// can never show through.
pub open spec fn spec_allow_header(s: Set<Method>) -> Seq<char> {
    allow_upto(s, METHOD_COUNT as int)
}

/// The method-to-route mapping described by an association list, later
/// entries winning.
pub open spec fn map_of_pairs<H>(s: Seq<(Method, Route<H>)>) -> Map<Method, Route<H>>
    decreases s.len(),
{
    if s.len() == 0 {
        Map::empty()
    } else {
        map_of_pairs(s.drop_last()).insert(s.last().0, s.last().1)
    }
}

/// Whether an association list holds each method at most once.
pub open spec fn unique_keys<H>(s: Seq<(Method, Route<H>)>) -> bool {
    forall|i: int, j: int|
        0 <= i < j < s.len() ==> (#[trigger] s[i]).0 != (#[trigger] s[j]).0
}

/// A method is in the mapping exactly when some list entry carries it.
proof fn lemma_map_of_pairs_dom<H>(s: Seq<(Method, Route<H>)>, k: Method)
    ensures
        map_of_pairs(s).dom().contains(k) <==> exists|i: int|
            0 <= i < s.len() && (#[trigger] s[i]).0 == k,
    decreases s.len(),
{
    if s.len() > 0 {
        lemma_map_of_pairs_dom(s.drop_last(), k);
        if s.last().0 == k {
            assert((#[trigger] s[s.len() - 1]).0 == k);
        } else {
            if exists|i: int| 0 <= i < s.drop_last().len() && (#[trigger] s.drop_last()[i]).0
                == k {
                let i = choose|i: int|
                    0 <= i < s.drop_last().len() && (#[trigger] s.drop_last()[i]).0 == k;
                assert((#[trigger] s[i]).0 == k);
            }
            if exists|i: int| 0 <= i < s.len() && (#[trigger] s[i]).0 == k {
                let i = choose|i: int| 0 <= i < s.len() && (#[trigger] s[i]).0 == k;
                assert((#[trigger] s.drop_last()[i]).0 == k);
            }
        }
    }
}

/// With unique keys, the mapping sends each listed method to its listed
/// route.
proof fn lemma_map_of_pairs_value<H>(s: Seq<(Method, Route<H>)>, i: int)
    requires
        unique_keys(s),
        0 <= i < s.len(),
    ensures
        map_of_pairs(s).dom().contains(s[i].0),
        map_of_pairs(s)[s[i].0] == s[i].1,
    decreases s.len(),
{
    if i == s.len() - 1 {
    } else {
        assert(s[i].0 != s.last().0);
        assert(forall|a: int, b: int|
            0 <= a < b < s.drop_last().len() ==> (#[trigger] s.drop_last()[a]).0 != (
            #[trigger] s.drop_last()[b]).0);
        lemma_map_of_pairs_value(s.drop_last(), i);
    }
}

/// Replacing the route at one entry acts on the mapping as an insert of that
/// entry's method.
proof fn lemma_map_of_pairs_update<H>(s: Seq<(Method, Route<H>)>, i: int, r: Route<H>)
    requires
        unique_keys(s),
        0 <= i < s.len(),
    ensures
        map_of_pairs(s.update(i, (s[i].0, r))) == map_of_pairs(s).insert(s[i].0, r),
    decreases s.len(),
{
    let k = s[i].0;
    let t = s.update(i, (k, r));
    if i == s.len() - 1 {
        assert(t.drop_last() =~= s.drop_last());
        assert(map_of_pairs(t) == map_of_pairs(s.drop_last()).insert(k, r));
        assert(map_of_pairs(s.drop_last()).insert(s.last().0, s.last().1).insert(k, r)
            =~= map_of_pairs(s.drop_last()).insert(k, r));
    } else {
        assert(t.drop_last() =~= s.drop_last().update(i, (k, r)));
        assert(forall|a: int, b: int|
            0 <= a < b < s.drop_last().len() ==> (#[trigger] s.drop_last()[a]).0 != (
            #[trigger] s.drop_last()[b]).0);
        assert(s.drop_last()[i].0 == k);
        lemma_map_of_pairs_update(s.drop_last(), i, r);
        assert(t.last() == s.last());
        assert(k != s.last().0);
        assert(map_of_pairs(s.drop_last()).insert(k, r).insert(s.last().0, s.last().1)
            =~= map_of_pairs(s.drop_last()).insert(s.last().0, s.last().1).insert(k, r));
    }
}

/// While no fallback route is installed, the advertised `Allow` value
/// spells out the currently registered method set exactly — never a stale
/// one, whatever sequence of registrations, overwrites and merges led
/// here.
pub proof fn lemma_allow_is_current<H>(r: MethodRouter<H>)
    requires
        r.wf(),
        !r.has_fallback_route(),
    ensures
        r.allow_value() == spec_allow_header(r.methods()),
{
}

/// The advertised `Allow` value is a function of the registered method set
/// alone: two routers without fallback routes that register the same
/// methods — in whatever order, with whatever overwrites on the way —
/// advertise the same value.
pub proof fn lemma_allow_depends_on_set_alone<G, H>(a: MethodRouter<G>, b: MethodRouter<H>)
    requires
        a.wf(),
        b.wf(),
        !a.has_fallback_route(),
        !b.has_fallback_route(),
        a.methods() == b.methods(),
    ensures
        a.allow_value() == b.allow_value(),
{
}

/// Either a fallback route, or the precomputed `Allow` header value that a
/// method miss answers with.
enum MethodFallback<H> {
    Route(Route<H>),
    Allow { allow_header: String },
}

/// A conflict between two fallback routes: merging two method routers that
/// both declare one has no deterministic resolution and is reported as a
/// fatal configuration error.
#[derive(PartialEq, Eq, Clone, Copy, Debug)]
pub struct FallbackConflict;

/// Dispatches by HTTP method among registered routes.
pub struct MethodRouter<H> {
    handlers: Vec<(Method, Route<H>)>,
    fallback: MethodFallback<H>,
}

/// What dispatching a method resolves to: the route registered for it, the
/// router's fallback route, or a refusal carrying the advertised `Allow`
/// header value.
pub enum MethodDecision<'a, H> {
    Handler(&'a Route<H>),
    Fallback(&'a Route<H>),
    NotAllowed(String),
}

impl<H> MethodRouter<H> {
    /// The method-to-route mapping this router dispatches with.
    pub closed spec fn handler_map(self) -> Map<Method, Route<H>> {
        map_of_pairs(self.handlers@)
    }

    /// The registered method set.
    pub open spec fn methods(self) -> Set<Method> {
        self.handler_map().dom()
    }

    /// Whether a fallback route is installed.
    pub closed spec fn has_fallback_route(self) -> bool {
        self.fallback is Route
    }

    /// The installed fallback route, if any.
    pub closed spec fn fallback_route(self) -> Option<Route<H>> {
        match self.fallback {
            MethodFallback::Route(r) => Some(r),
            MethodFallback::Allow { .. } => None,
        }
    }

    /// The `Allow` header value held for a method miss; meaningful only
    /// while no fallback route is installed.
    pub closed spec fn allow_value(self) -> Seq<char> {
        match self.fallback {
            MethodFallback::Route(_) => Seq::empty(),
            MethodFallback::Allow { allow_header } => allow_header@,
        }
    }

    /// Internal consistency: each method is registered at most once, and
    /// while no fallback route is installed the held `Allow` value spells
    /// out the registered method set exactly — never a stale one.
    pub closed spec fn wf(self) -> bool {
        &&& unique_keys(self.handlers@)
        &&& (!self.has_fallback_route() ==> self.allow_value() == spec_allow_header(
            self.methods(),
        ))
    }

    pub fn new() -> (r: Self)
        ensures
            r.wf(),
            r.handler_map() == Map::<Method, Route<H>>::empty(),
            !r.has_fallback_route(),
    {
        let r = MethodRouter {
            handlers: Vec::new(),
            fallback: MethodFallback::Allow { allow_header: String::new() },
        };
        proof {
            assert(r.handlers@.len() == 0);
            assert(r.handler_map() =~= Map::<Method, Route<H>>::empty());
            assert(r.methods() =~= Set::<Method>::empty());
            reveal_with_fuel(allow_upto, 10);
            assert(r.allow_value() == spec_allow_header(r.methods()));
        }
        r
    }

    /// Registers `route` for `method`, overwriting any earlier registration,
    /// and re-derives the `Allow` value.
    pub fn set_method(&mut self, method: Method, route: Route<H>)
        requires
            old(self).wf(),
        ensures
            final(self).wf(),
            final(self).handler_map() == old(self).handler_map().insert(method, route),
            final(self).has_fallback_route() == old(self).has_fallback_route(),
            final(self).fallback_route() == old(self).fallback_route(),
    {
        self.insert_pair(method, route);
        self.update_allow_header();
    }

    /// Registers `route` for `method` on a router passed through by value.
    pub fn method(self, method: Method, route: Route<H>) -> (r: Self)
        requires
            self.wf(),
        ensures
            r.wf(),
            r.handler_map() == self.handler_map().insert(method, route),
            r.has_fallback_route() == self.has_fallback_route(),
            r.fallback_route() == self.fallback_route(),
    {
        let mut this = self;
        this.set_method(method, route);
        this
    }

    /// Installs the route invoked when no method matches; mutually exclusive
    /// with the computed-`Allow` refusal.
    pub fn set_fallback(&mut self, route: Route<H>)
        requires
            old(self).wf(),
        ensures
            final(self).wf(),
            final(self).handler_map() == old(self).handler_map(),
            final(self).has_fallback_route(),
            final(self).fallback_route() == Some(route),
    {
        self.fallback = MethodFallback::Route(route);
    }

    /// Installs the fallback route on a router passed through by value.
    pub fn fallback(self, route: Route<H>) -> (r: Self)
        requires
            self.wf(),
        ensures
            r.wf(),
            r.handler_map() == self.handler_map(),
            r.has_fallback_route(),
            r.fallback_route() == Some(route),
    {
        let mut this = self;
        this.set_fallback(route);
        this
    }

    /// Whether a fallback route is installed, so that composing code can
    /// test for a conflict before merging.
    pub fn has_fallback(&self) -> (r: bool)
        ensures
            r == self.has_fallback_route(),
    {
        match &self.fallback {
            MethodFallback::Route(_) => true,
            MethodFallback::Allow { .. } => false,
        }
    }

    /// Unions `other` into this router, `other`'s routes winning on a shared
    /// method. A fallback route on both sides is an ambiguous composition,
    /// refused with the router unchanged: a fatal configuration error that
    /// the embedding does not recover from into serving. It is reported as
    /// a value because verified code does not abort.
    #[verifier::loop_isolation(false)]
    pub fn merge(&mut self, other: Self) -> (r: Result<(), FallbackConflict>)
        requires
            old(self).wf(),
            other.wf(),
        ensures
            r is Err <==> old(self).has_fallback_route() && other.has_fallback_route(),
            r is Err ==> *final(self) == *old(self),
            r is Ok ==> final(self).wf(),
            r is Ok ==> final(self).handler_map() == old(self).handler_map().union_prefer_right(
                other.handler_map(),
            ),
            r is Ok ==> final(self).has_fallback_route() == (old(self).has_fallback_route()
                || other.has_fallback_route()),
            r is Ok ==> final(self).fallback_route() == (if other.has_fallback_route() {
                other.fallback_route()
            } else {
                old(self).fallback_route()
            }),
    {
        let self_has_fallback = match &self.fallback {
            MethodFallback::Route(_) => true,
            MethodFallback::Allow { .. } => false,
        };
        let other_has_fallback = match &other.fallback {
            MethodFallback::Route(_) => true,
            MethodFallback::Allow { .. } => false,
        };
        if self_has_fallback && other_has_fallback {
            return Err(FallbackConflict);
        }
        let MethodRouter { handlers: mut pending, fallback: other_fallback } = other;
        let ghost other_all = pending@;
        while pending.len() > 0
            invariant
                unique_keys(self.handlers@),
                pending@.len() <= other_all.len(),
                pending@ == other_all.subrange(0, pending@.len() as int),
                map_of_pairs(self.handlers@).union_prefer_right(map_of_pairs(pending@))
                    == old(self).handler_map().union_prefer_right(map_of_pairs(other_all)),
                self.fallback == old(self).fallback,
            decreases pending@.len(),
        {
            let ghost rem = pending@;
            let popped = pending.pop();
            match popped {
                Some((k, route)) => {
                    proof {
                        assert(rem.drop_last() =~= pending@);
                        assert(unique_keys(rem)) by {
                            assert(forall|a: int|
                                0 <= a < rem.len() ==> (#[trigger] rem[a]) == other_all[a]);
                        }
                        if map_of_pairs(pending@).dom().contains(k) {
                            lemma_map_of_pairs_dom(pending@, k);
                            let i = choose|i: int|
                                0 <= i < pending@.len() && (#[trigger] pending@[i]).0 == k;
                            assert((#[trigger] rem[i]).0 == rem[rem.len() - 1].0);
                            assert(false);
                        }
                        let m1 = map_of_pairs(self.handlers@);
                        let m2 = map_of_pairs(pending@);
                        assert(m1.union_prefer_right(m2.insert(k, route)) =~= m1.insert(
                            k,
                            route,
                        ).union_prefer_right(m2));
                        assert(pending@ =~= other_all.subrange(0, pending@.len() as int));
                    }
                    self.insert_pair(k, route);
                },
                None => {},
            }
        }
        proof {
            assert(map_of_pairs(pending@) =~= Map::<Method, Route<H>>::empty());
            assert(map_of_pairs(self.handlers@).union_prefer_right(
                Map::<Method, Route<H>>::empty(),
            ) =~= map_of_pairs(self.handlers@));
        }
        match other_fallback {
            MethodFallback::Route(route) => {
                self.fallback = MethodFallback::Route(route);
            },
            MethodFallback::Allow { .. } => {},
        }
        self.update_allow_header();
        Ok(())
    }

    /// Unions on a router passed through by value.
    pub fn merged(self, other: Self) -> (r: Result<Self, FallbackConflict>)
        requires
            self.wf(),
            other.wf(),
        ensures
            r is Err <==> self.has_fallback_route() && other.has_fallback_route(),
            r is Ok ==> r->Ok_0.wf(),
            r is Ok ==> r->Ok_0.handler_map() == self.handler_map().union_prefer_right(
                other.handler_map(),
            ),
            r is Ok ==> r->Ok_0.has_fallback_route() == (self.has_fallback_route()
                || other.has_fallback_route()),
            r is Ok ==> r->Ok_0.fallback_route() == (if other.has_fallback_route() {
                other.fallback_route()
            } else {
                self.fallback_route()
            }),
    {
        let mut this = self;
        match this.merge(other) {
            Ok(()) => Ok(this),
            Err(e) => Err(e),
        }
    }

    /// Resolves a request method: the route registered for it; failing that,
    /// the fallback route; failing that, a refusal carrying the `Allow`
    /// value that spells out the registered method set.
    #[verifier::loop_isolation(false)]
    pub fn dispatch(&self, method: Method) -> (r: MethodDecision<'_, H>)
        requires
            self.wf(),
        ensures
            self.handler_map().dom().contains(method) ==> (r matches MethodDecision::Handler(
                route,
            ) && *route == self.handler_map()[method]),
            !self.handler_map().dom().contains(method) && self.has_fallback_route() ==> (
            r matches MethodDecision::Fallback(route) && Some(*route) == self.fallback_route()),
            !self.handler_map().dom().contains(method) && !self.has_fallback_route() ==> (
            r matches MethodDecision::NotAllowed(allow) && allow@ == spec_allow_header(
                self.methods(),
            )),
    {
        let n = self.handlers.len();
        let mut idx: usize = n;
        for i in 0..n
            invariant
                idx <= n,
                idx == n ==> forall|j: int|
                    0 <= j < i ==> (#[trigger] self.handlers@[j]).0 != method,
                idx < n ==> self.handlers@[idx as int].0 == method,
        {
            if idx == n && self.handlers[i].0 == method {
                idx = i;
            }
        }
        if idx < n {
            proof {
                lemma_map_of_pairs_value(self.handlers@, idx as int);
            }
            MethodDecision::Handler(&self.handlers[idx].1)
        } else {
            proof {
                lemma_map_of_pairs_dom(self.handlers@, method);
            }
            match &self.fallback {
                MethodFallback::Route(route) => MethodDecision::Fallback(route),
                MethodFallback::Allow { allow_header } => MethodDecision::NotAllowed(
                    allow_header.clone(),
                ),
            }
        }
    }

    /// Places `route` under `method` in the association list, keeping keys
    /// unique, without touching the fallback.
    #[verifier::loop_isolation(false)]
    fn insert_pair(&mut self, method: Method, route: Route<H>)
        requires
            unique_keys(old(self).handlers@),
        ensures
            unique_keys(final(self).handlers@),
            map_of_pairs(final(self).handlers@) == map_of_pairs(old(self).handlers@).insert(
                method,
                route,
            ),
            final(self).fallback == old(self).fallback,
    {
        let ghost orig = self.handlers@;
        let n = self.handlers.len();
        let mut idx: usize = n;
        for i in 0..n
            invariant
                idx <= n,
                idx == n ==> forall|j: int| 0 <= j < i ==> (#[trigger] orig[j]).0 != method,
                idx < n ==> orig[idx as int].0 == method,
        {
            if idx == n && self.handlers[i].0 == method {
                idx = i;
            }
        }
        if idx < n {
            proof {
                lemma_map_of_pairs_update(orig, idx as int, route);
            }
            self.handlers.set(idx, (method, route));
            proof {
                assert(self.handlers@ == orig.update(idx as int, (method, route)));
                assert(unique_keys(self.handlers@)) by {
                    assert(forall|a: int|
                        0 <= a < self.handlers@.len() ==> (#[trigger] self.handlers@[a]).0
                            == orig[a].0);
                }
            }
        } else {
            proof {
                let t = orig.push((method, route));
                assert(t.drop_last() =~= orig);
            }
            self.handlers.push((method, route));
            proof {
                assert(unique_keys(self.handlers@)) by {
                    assert(forall|j: int| 0 <= j < orig.len() ==> (#[trigger] orig[j]).0 != method);
                    assert(forall|a: int|
                        0 <= a < orig.len() ==> (#[trigger] self.handlers@[a]) == orig[a]);
                    assert(self.handlers@[orig.len() as int].0 == method);
                }
            }
        }
    }

    /// Re-derives the held `Allow` value from the registered method set, if
    /// no fallback route is installed.
    fn update_allow_header(&mut self)
        requires
            unique_keys(old(self).handlers@),
        ensures
            final(self).handlers == old(self).handlers,
            final(self).has_fallback_route() == old(self).has_fallback_route(),
            final(self).fallback_route() == old(self).fallback_route(),
            final(self).wf(),
    {
        let is_allow = match &self.fallback {
            MethodFallback::Route(_) => false,
            MethodFallback::Allow { .. } => true,
        };
        if is_allow {
            let allow = compute_allow(&self.handlers);
            self.fallback = MethodFallback::Allow { allow_header: allow };
        }
    }
}

impl<H> Default for MethodRouter<H> {
    fn default() -> (r: Self)
        ensures
            r.wf(),
            r.handler_map() == Map::<Method, Route<H>>::empty(),
            !r.has_fallback_route(),
    {
        MethodRouter::new()
    }
}

/// Derives the `Allow` header text for the methods of an association list.
#[verifier::loop_isolation(false)]
fn compute_allow<H>(handlers: &Vec<(Method, Route<H>)>) -> (r: String)
    ensures
        r@ == spec_allow_header(map_of_pairs(handlers@).dom()),
{
    let ghost dom = map_of_pairs(handlers@).dom();
    let mut out = String::new();
    for rank in 0..METHOD_COUNT
        invariant
            out@ == allow_upto(dom, rank as int),
    {
        let m = Method::from_rank(rank);
        let mut found = false;
        let n = handlers.len();
        for i in 0..n
            invariant
                n == handlers@.len(),
                found <==> exists|j: int| 0 <= j < i && (#[trigger] handlers@[j]).0 == m,
        {
            if handlers[i].0 == m {
                found = true;
            }
        }
        proof {
            lemma_map_of_pairs_dom(handlers@, m);
            assert(found == dom.contains(m));
        }
        if found {
            if out.as_str().is_empty() {
                out.append(m.name());
                proof {
                    assert(out@ =~= method_of_rank(rank as int).spec_name());
                }
            } else {
                out.append(", ");
                out.append(m.name());
            }
        }
    }
    out
}

pub fn connect<H>(route: Route<H>) -> (r: MethodRouter<H>)
    ensures
        r.wf(),
        r.handler_map() == Map::<Method, Route<H>>::empty().insert(Method::Connect, route),
        !r.has_fallback_route(),
{
    MethodRouter::new().method(Method::Connect, route)
}

pub fn delete<H>(route: Route<H>) -> (r: MethodRouter<H>)
    ensures
        r.wf(),
        r.handler_map() == Map::<Method, Route<H>>::empty().insert(Method::Delete, route),
        !r.has_fallback_route(),
{
    MethodRouter::new().method(Method::Delete, route)
}

pub fn get<H>(route: Route<H>) -> (r: MethodRouter<H>)
    ensures
        r.wf(),
        r.handler_map() == Map::<Method, Route<H>>::empty().insert(Method::Get, route),
        !r.has_fallback_route(),
{
    MethodRouter::new().method(Method::Get, route)
}

pub fn head<H>(route: Route<H>) -> (r: MethodRouter<H>)
    ensures
        r.wf(),
        r.handler_map() == Map::<Method, Route<H>>::empty().insert(Method::Head, route),
        !r.has_fallback_route(),
{
    MethodRouter::new().method(Method::Head, route)
}

pub fn options<H>(route: Route<H>) -> (r: MethodRouter<H>)
    ensures
        r.wf(),
        r.handler_map() == Map::<Method, Route<H>>::empty().insert(Method::Options, route),
        !r.has_fallback_route(),
{
    MethodRouter::new().method(Method::Options, route)
}

pub fn patch<H>(route: Route<H>) -> (r: MethodRouter<H>)
    ensures
        r.wf(),
        r.handler_map() == Map::<Method, Route<H>>::empty().insert(Method::Patch, route),
        !r.has_fallback_route(),
{
    MethodRouter::new().method(Method::Patch, route)
}

pub fn post<H>(route: Route<H>) -> (r: MethodRouter<H>)
    ensures
        r.wf(),
        r.handler_map() == Map::<Method, Route<H>>::empty().insert(Method::Post, route),
        !r.has_fallback_route(),
{
    MethodRouter::new().method(Method::Post, route)
}

pub fn put<H>(route: Route<H>) -> (r: MethodRouter<H>)
    ensures
        r.wf(),
        r.handler_map() == Map::<Method, Route<H>>::empty().insert(Method::Put, route),
        !r.has_fallback_route(),
{
    MethodRouter::new().method(Method::Put, route)
}

pub fn trace<H>(route: Route<H>) -> (r: MethodRouter<H>)
    ensures
        r.wf(),
        r.handler_map() == Map::<Method, Route<H>>::empty().insert(Method::Trace, route),
        !r.has_fallback_route(),
{
    MethodRouter::new().method(Method::Trace, route)
}

} // verus!
