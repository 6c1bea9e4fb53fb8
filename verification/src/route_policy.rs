//! Which routes of the gateway need an authenticated caller.
//!
//! Routes are registered per HTTP method, as patterns with path parameters:
//! secured routes with the requirement that they carry, and explicitly
//! public routes. The patterns are kept in `matchit` routers, which also
//! find the pattern that a request path matches.

use vstd::prelude::*;

use crate::route_path::{convert_axum_path_to_matchit, converted};
use crate::sequences::lemma_filter_map_source;
use crate::text::{chars_of, str_eq};

verus! {

// ── Requirements ────────────────────────────────────────────────────

/// What a secured route requires: a resource and an action on it.
#[derive(Debug, Clone, PartialEq, Eq)]
pub struct RouteRequirement {
    pub resource: String,
    pub action: String,
}

/// What a route requirement says.
pub struct RouteRequirementView {
    pub resource: Seq<char>,
    pub action: Seq<char>,
}

impl View for RouteRequirement {
    type V = RouteRequirementView;

    open spec fn view(&self) -> RouteRequirementView {
        RouteRequirementView { resource: self.resource@, action: self.action@ }
    }
}

impl RouteRequirement {
    /// A copy of the requirement.
    pub fn duplicate(&self) -> (copy: RouteRequirement)
        ensures
            copy == *self,
    {
        RouteRequirement { resource: self.resource.clone(), action: self.action.clone() }
    }
}

/// Whether a route needs an authenticated caller.
#[derive(Debug, Clone, PartialEq, Eq)]
pub enum AuthRequirement {
    /// No authentication: the route is public.
    NotRequired,
    /// Authentication, and the requirement of the route if it has one.
    Required(Option<RouteRequirement>),
}

/// What an authentication requirement says.
pub enum AuthRequirementView {
    NotRequired,
    Required(Option<RouteRequirementView>),
}

impl View for AuthRequirement {
    type V = AuthRequirementView;

    open spec fn view(&self) -> AuthRequirementView {
        match self {
            AuthRequirement::NotRequired => AuthRequirementView::NotRequired,
            AuthRequirement::Required(Some(requirement)) => AuthRequirementView::Required(
                Some(requirement@),
            ),
            AuthRequirement::Required(None) => AuthRequirementView::Required(None),
        }
    }
}

/// Why a route pattern was not taken.
#[derive(Debug, Clone, PartialEq, Eq)]
pub enum RouteInsertError {
    /// The pattern conflicts with one that is registered.
    Conflict { with: String },
    /// More than one parameter in one path segment.
    InvalidParamSegment,
    /// A parameter without a valid name.
    InvalidParam,
    /// A catch-all parameter that is not at the end.
    InvalidCatchAll,
    /// More parameters than a pattern can have.
    TooManyParameters,
    /// The router gave a reason that this library does not know.
    Other,
}

/// What a reason for not taking a pattern says.
pub enum Refusal {
    Conflict(Seq<char>),
    InvalidParamSegment,
    InvalidParam,
    InvalidCatchAll,
    TooManyParameters,
    Other,
}

impl View for RouteInsertError {
    type V = Refusal;

    open spec fn view(&self) -> Refusal {
        match self {
            RouteInsertError::Conflict { with } => Refusal::Conflict(with@),
            RouteInsertError::InvalidParamSegment => Refusal::InvalidParamSegment,
            RouteInsertError::InvalidParam => Refusal::InvalidParam,
            RouteInsertError::InvalidCatchAll => Refusal::InvalidCatchAll,
            RouteInsertError::TooManyParameters => Refusal::TooManyParameters,
            RouteInsertError::Other => Refusal::Other,
        }
    }
}

/// Why a registration was refused, if it was.
pub open spec fn refusal_of(result: Result<(), RouteInsertError>) -> Option<Refusal> {
    match result {
        Ok(_) => None,
        Err(error) => Some(error@),
    }
}

/// The most parameters that a pattern may have. The router names the
/// parameters of a pattern by the letters `a` to `z` and gives up beyond.
pub const MAX_PATTERN_PARAMETERS: usize = 25;

// ── The routers ─────────────────────────────────────────────────────

/// Declares `matchit::Router` as a type that values of the library may
/// hold. What a router holds is named by `secured_routes` and
/// `public_patterns`.
#[verifier::external_type_specification]
#[verifier::external_body]
#[verifier::reject_recursive_types(T)]
pub struct ExRouter<T>(matchit::Router<T>);

/// The routes that a router of secured routes holds, in the order in which
/// they were registered: each pattern with its requirement.
pub uninterp spec fn secured_routes(router: matchit::Router<RouteRequirement>) -> Seq<
    (Seq<char>, RouteRequirement),
>;

/// The patterns that a router of public routes holds, in the order in which
/// they were registered.
pub uninterp spec fn public_patterns(router: matchit::Router<()>) -> Seq<Seq<char>>;

/// Whether a router of secured routes has taken every route that it was
/// asked to take. A refused route may leave nodes in the router's tree, so
/// that what the router answers afterwards is no longer told by its routes
/// alone.
pub uninterp spec fn secured_intact(router: matchit::Router<RouteRequirement>) -> bool;

/// Whether a router of public routes has taken every route that it was
/// asked to take.
pub uninterp spec fn public_intact(router: matchit::Router<()>) -> bool;

/// Why `matchit` refuses a pattern, if it does, when a router that has
/// taken exactly the registered patterns, in their order, is asked to take
/// it.
pub uninterp spec fn router_refusal(patterns: Seq<Seq<char>>, pattern: Seq<char>) -> Option<
    Refusal,
>;

/// The index of the pattern that `matchit` finds for a path among the
/// registered patterns, if it finds one.
pub uninterp spec fn matched_route(patterns: Seq<Seq<char>>, path: Seq<char>) -> Option<int>;

/// The patterns of a sequence of secured routes.
pub open spec fn patterns_of(routes: Seq<(Seq<char>, RouteRequirement)>) -> Seq<Seq<char>> {
    routes.map_values(|route: (Seq<char>, RouteRequirement)| route.0)
}

/// The number of parameters that a pattern opens: its opening braces, but
/// for those that are escaped by doubling, as `{{` and `}}` are read from
/// the left, and but for those that open a catch-all, `{*`.
pub open spec fn parameter_count(text: Seq<char>) -> nat
    decreases text.len(),
{
    if text.len() == 0 {
        0
    } else if text.len() >= 2 && text[0] == text[1] && (text[0] == '{' || text[0] == '}') {
        parameter_count(text.skip(2))
    } else if text[0] == '{' && !(text.len() >= 2 && text[1] == '*') {
        1 + parameter_count(text.skip(1))
    } else {
        parameter_count(text.skip(1))
    }
}

/// Why a pattern is refused, if it is, beside the registered patterns: for
/// having too many parameters, or else for the router's reason.
pub open spec fn insert_refusal(patterns: Seq<Seq<char>>, pattern: Seq<char>) -> Option<Refusal> {
    if parameter_count(pattern) > MAX_PATTERN_PARAMETERS {
        Some(Refusal::TooManyParameters)
    } else {
        router_refusal(patterns, pattern)
    }
}

/// Calls `matchit::Router::new`: a router without routes, which has
/// refused none.
#[verifier::external_body]
fn new_secured_router() -> (router: matchit::Router<RouteRequirement>)
    ensures
        secured_routes(router) == Seq::<(Seq<char>, RouteRequirement)>::empty(),
        secured_intact(router),
{
    matchit::Router::new()
}

/// Calls `matchit::Router::new`: a router without routes, which has
/// refused none.
#[verifier::external_body]
fn new_public_router() -> (router: matchit::Router<()>)
    ensures
        public_patterns(router) == Seq::<Seq<char>>::empty(),
        public_intact(router),
{
    matchit::Router::new()
}

/// Calls `matchit::Router::insert`. Where it succeeds, the router holds the
/// route after those that it held. A router that has refused no route
/// builds its tree from the patterns that it took alone, so whether and why
/// it refuses this one is told by those patterns and this one, and after
/// taking it the router has still refused none. Where it fails, the
/// contract says nothing of what the router holds: a refused route may
/// leave nodes in the router's tree. The router panics on a pattern with
/// more than
/// twenty-five parameters; each of them starts at an opening brace that is
/// not escaped and opens no catch-all.
#[verifier::external_body]
fn insert_secured(
    router: &mut matchit::Router<RouteRequirement>,
    pattern: &str,
    requirement: RouteRequirement,
) -> (result: Result<(), RouteInsertError>)
    requires
        parameter_count(pattern@) <= MAX_PATTERN_PARAMETERS,
    ensures
        result is Ok ==> secured_routes(*final(router)) == secured_routes(*old(router)).push(
            (pattern@, requirement),
        ),
        secured_intact(*old(router)) ==> refusal_of(result) == router_refusal(
            patterns_of(secured_routes(*old(router))),
            pattern@,
        ),
        secured_intact(*old(router)) && result is Ok ==> secured_intact(*final(router)),
{
    match router.insert(pattern, requirement) {
        Ok(()) => Ok(()),
        Err(matchit::InsertError::Conflict { with }) => Err(RouteInsertError::Conflict { with }),
        Err(matchit::InsertError::InvalidParamSegment) => Err(RouteInsertError::InvalidParamSegment),
        Err(matchit::InsertError::InvalidParam) => Err(RouteInsertError::InvalidParam),
        Err(matchit::InsertError::InvalidCatchAll) => Err(RouteInsertError::InvalidCatchAll),
        Err(_) => Err(RouteInsertError::Other),
    }
}

/// Calls `matchit::Router::insert`, as `insert_secured` does, for a public
/// route.
#[verifier::external_body]
fn insert_public(router: &mut matchit::Router<()>, pattern: &str) -> (result: Result<
    (),
    RouteInsertError,
>)
    requires
        parameter_count(pattern@) <= MAX_PATTERN_PARAMETERS,
    ensures
        result is Ok ==> public_patterns(*final(router)) == public_patterns(*old(router)).push(
            pattern@,
        ),
        public_intact(*old(router)) ==> refusal_of(result) == router_refusal(
            public_patterns(*old(router)),
            pattern@,
        ),
        public_intact(*old(router)) && result is Ok ==> public_intact(*final(router)),
{
    match router.insert(pattern, ()) {
        Ok(()) => Ok(()),
        Err(matchit::InsertError::Conflict { with }) => Err(RouteInsertError::Conflict { with }),
        Err(matchit::InsertError::InvalidParamSegment) => Err(RouteInsertError::InvalidParamSegment),
        Err(matchit::InsertError::InvalidParam) => Err(RouteInsertError::InvalidParam),
        Err(matchit::InsertError::InvalidCatchAll) => Err(RouteInsertError::InvalidCatchAll),
        Err(_) => Err(RouteInsertError::Other),
    }
}

/// Calls `matchit::Router::at` and takes the value of the match: the
/// requirement that was registered with the pattern that the router finds
/// for the path.
#[verifier::external_body]
fn find_secured<'a>(router: &'a matchit::Router<RouteRequirement>, path: &str) -> (found: Option<
    &'a RouteRequirement,
>)
    ensures
        match found {
            Some(requirement) => {
                &&& matched_route(patterns_of(secured_routes(*router)), path@) is Some
                &&& 0 <= matched_route(patterns_of(secured_routes(*router)), path@)->Some_0
                    < secured_routes(*router).len()
                &&& secured_routes(*router)[matched_route(
                    patterns_of(secured_routes(*router)),
                    path@,
                )->Some_0].1 == *requirement
            },
            None => matched_route(patterns_of(secured_routes(*router)), path@) is None,
        },
{
    router.at(path).ok().map(|found| found.value)
}

/// Calls `matchit::Router::at` and says whether it found a pattern for the
/// path.
#[verifier::external_body]
fn find_public(router: &matchit::Router<()>, path: &str) -> (found: bool)
    ensures
        found == matched_route(public_patterns(*router), path@) is Some,
{
    router.at(path).is_ok()
}

/// Whether a pattern has few enough parameters for the router.
fn few_parameters(pattern: &str) -> (few: bool)
    ensures
        few == (parameter_count(pattern@) <= MAX_PATTERN_PARAMETERS),
{
    let chars = chars_of(pattern);
    let mut count: usize = 0;
    let mut i: usize = 0;
    proof {
        assert(chars@.skip(0) == chars@);
    }
    while i < chars.len()
        invariant
            chars@ == pattern@,
            i <= chars@.len(),
            count <= MAX_PATTERN_PARAMETERS,
            parameter_count(chars@) == count + parameter_count(chars@.skip(i as int)),
        decreases chars@.len() - i,
    {
        let ghost rest = chars@.skip(i as int);
        let c = chars[i];
        proof {
            assert(rest[0] == c);
            assert(rest.skip(1) == chars@.skip(i + 1));
            if i + 1 < chars@.len() {
                assert(rest[1] == chars@[i + 1]);
                assert(rest.skip(2) == chars@.skip(i + 2));
            }
        }
        if i + 1 < chars.len() && chars[i + 1] == c && (c == '{' || c == '}') {
            i += 2;
        } else if c == '{' && !(i + 1 < chars.len() && chars[i + 1] == '*') {
            if count == MAX_PATTERN_PARAMETERS {
                return false;
            }
            count += 1;
            i += 1;
        } else {
            i += 1;
        }
    }
    true
}

/// Calls `Clone::clone` of `matchit::Router`, which copies the router's
/// tree with every route in it.
#[verifier::external_body]
fn clone_secured_router(router: &matchit::Router<RouteRequirement>) -> (copy: matchit::Router<
    RouteRequirement,
>)
    ensures
        secured_routes(copy) == secured_routes(*router),
        secured_intact(copy) == secured_intact(*router),
{
    router.clone()
}

/// Calls `Clone::clone` of `matchit::Router`, which copies the router's
/// tree with every route in it.
#[verifier::external_body]
fn clone_public_router(router: &matchit::Router<()>) -> (copy: matchit::Router<()>)
    ensures
        public_patterns(copy) == public_patterns(*router),
        public_intact(copy) == public_intact(*router),
{
    router.clone()
}

// ── Matchers of one method ──────────────────────────────────────────

/// The secured routes of one HTTP method.
#[derive(Debug)]
pub struct RouteMatcher {
    matcher: matchit::Router<RouteRequirement>,
}

/// The requirement of the route that a path matches among secured routes.
pub open spec fn matched_requirement(
    routes: Seq<(Seq<char>, RouteRequirement)>,
    path: Seq<char>,
) -> Option<RouteRequirement> {
    match matched_route(patterns_of(routes), path) {
        Some(index) => if 0 <= index < routes.len() {
            Some(routes[index].1)
        } else {
            None
        },
        None => None,
    }
}

impl RouteMatcher {
    /// The routes of the matcher, in the order in which they were
    /// registered.
    pub closed spec fn routes(&self) -> Seq<(Seq<char>, RouteRequirement)> {
        secured_routes(self.matcher)
    }

    /// Whether the matcher has taken every route that it was asked to
    /// take. Only then do its routes tell what it answers to the next.
    pub closed spec fn intact(&self) -> bool {
        secured_intact(self.matcher)
    }

    /// A matcher without routes.
    pub fn new() -> (matcher: RouteMatcher)
        ensures
            matcher.routes() == Seq::<(Seq<char>, RouteRequirement)>::empty(),
            matcher.intact(),
    {
        RouteMatcher { matcher: new_secured_router() }
    }

    /// Registers a secured route. A pattern with more parameters than
    /// `MAX_PATTERN_PARAMETERS` is refused as `TooManyParameters`, and the
    /// matcher stays as it was; otherwise the router decides, and where it
    /// takes the route, the matcher holds it after the routes that it held.
    /// For a matcher that has refused no route, whether and why the route
    /// is refused is told by the routes that it holds and the new pattern.
    pub fn insert(&mut self, path: &str, requirement: RouteRequirement) -> (result: Result<
        (),
        RouteInsertError,
    >)
        ensures
            result is Ok ==> final(self).routes() == old(self).routes().push((path@, requirement)),
            old(self).intact() ==> refusal_of(result) == insert_refusal(
                patterns_of(old(self).routes()),
                path@,
            ),
            old(self).intact() && result is Ok ==> final(self).intact(),
            parameter_count(path@) > MAX_PATTERN_PARAMETERS ==> result == Err::<(), RouteInsertError>(
                RouteInsertError::TooManyParameters,
            ) && final(self).routes() == old(self).routes() && final(self).intact() == old(
                self,
            ).intact(),
    {
        if !few_parameters(path) {
            return Err(RouteInsertError::TooManyParameters);
        }
        insert_secured(&mut self.matcher, path, requirement)
    }

    /// The requirement of the route that the path matches, if it matches
    /// one.
    pub fn find(&self, path: &str) -> (found: Option<&RouteRequirement>)
        ensures
            match found {
                Some(requirement) => matched_requirement(self.routes(), path@) == Some(
                    *requirement,
                ),
                None => matched_requirement(self.routes(), path@) is None,
            },
    {
        find_secured(&self.matcher, path)
    }
}

impl Clone for RouteMatcher {
    /// A matcher with the same routes.
    fn clone(&self) -> (copy: RouteMatcher)
        ensures
            copy.routes() == self.routes(),
            copy.intact() == self.intact(),
    {
        RouteMatcher { matcher: clone_secured_router(&self.matcher) }
    }
}

/// The explicitly public routes of one HTTP method.
#[derive(Debug)]
pub struct PublicRouteMatcher {
    matcher: matchit::Router<()>,
}

impl PublicRouteMatcher {
    /// The patterns of the matcher, in the order in which they were
    /// registered.
    pub closed spec fn patterns(&self) -> Seq<Seq<char>> {
        public_patterns(self.matcher)
    }

    /// Whether the matcher has taken every route that it was asked to
    /// take. Only then do its patterns tell what it answers to the next.
    pub closed spec fn intact(&self) -> bool {
        public_intact(self.matcher)
    }

    /// A matcher without routes.
    pub fn new() -> (matcher: PublicRouteMatcher)
        ensures
            matcher.patterns() == Seq::<Seq<char>>::empty(),
            matcher.intact(),
    {
        PublicRouteMatcher { matcher: new_public_router() }
    }

    /// Registers a public route. A pattern with more parameters than
    /// `MAX_PATTERN_PARAMETERS` is refused as `TooManyParameters`, and the
    /// matcher stays as it was; otherwise the router decides, and where it
    /// takes the route, the matcher holds it after the routes that it held.
    /// For a matcher that has refused no route, whether and why the route
    /// is refused is told by the patterns that it holds and the new one.
    pub fn insert(&mut self, path: &str) -> (result: Result<(), RouteInsertError>)
        ensures
            result is Ok ==> final(self).patterns() == old(self).patterns().push(path@),
            old(self).intact() ==> refusal_of(result) == insert_refusal(old(self).patterns(), path@),
            old(self).intact() && result is Ok ==> final(self).intact(),
            parameter_count(path@) > MAX_PATTERN_PARAMETERS ==> result == Err::<(), RouteInsertError>(
                RouteInsertError::TooManyParameters,
            ) && final(self).patterns() == old(self).patterns() && final(self).intact() == old(
                self,
            ).intact(),
    {
        if !few_parameters(path) {
            return Err(RouteInsertError::TooManyParameters);
        }
        insert_public(&mut self.matcher, path)
    }

    /// Whether the path matches a public route.
    pub fn find(&self, path: &str) -> (found: bool)
        ensures
            found == matched_route(self.patterns(), path@) is Some,
    {
        find_public(&self.matcher, path)
    }
}

impl Clone for PublicRouteMatcher {
    /// A matcher with the same patterns.
    fn clone(&self) -> (copy: PublicRouteMatcher)
        ensures
            copy.patterns() == self.patterns(),
            copy.intact() == self.intact(),
    {
        PublicRouteMatcher { matcher: clone_public_router(&self.matcher) }
    }
}

// ── The policy ──────────────────────────────────────────────────────

/// The index of the last pair with the given name.
pub open spec fn last_named<T>(pairs: Seq<(String, T)>, name: Seq<char>) -> Option<int>
    decreases pairs.len(),
{
    if pairs.len() == 0 {
        None
    } else if pairs.last().0@ == name {
        Some(pairs.len() - 1)
    } else {
        last_named(pairs.drop_last(), name)
    }
}

/// The index of the last pair with the given name is an index, and the pair
/// has that name.
pub proof fn lemma_last_named_in_range<T>(pairs: Seq<(String, T)>, name: Seq<char>)
    ensures
        last_named(pairs, name) matches Some(index) ==> 0 <= index < pairs.len()
            && pairs[index].0@ == name,
        last_named(pairs, name) is None ==> forall|k: int|
            0 <= k < pairs.len() ==> (#[trigger] pairs[k]).0@ != name,
    decreases pairs.len(),
{
    if pairs.len() > 0 && pairs.last().0@ != name {
        lemma_last_named_in_range(pairs.drop_last(), name);
        if last_named(pairs, name) is None {
            assert forall|k: int| 0 <= k < pairs.len() implies (#[trigger] pairs[k]).0@
                != name by {
                if k < pairs.len() - 1 {
                    assert(pairs.drop_last()[k] == pairs[k]);
                }
            }
        }
    }
}

/// The index of the last pair with the given name.
fn find_last_named<T>(pairs: &Vec<(String, T)>, name: &str) -> (found: Option<usize>)
    ensures
        match found {
            Some(index) => last_named(pairs@, name@) == Some(index as int) && index < pairs@.len(),
            None => last_named(pairs@, name@) is None,
        },
{
    let mut i: usize = pairs.len();
    proof {
        assert(pairs@.take(i as int) == pairs@);
    }
    while i > 0
        invariant
            i <= pairs@.len(),
            last_named(pairs@, name@) == last_named(pairs@.take(i as int), name@),
        decreases i,
    {
        i -= 1;
        proof {
            assert(pairs@.take(i + 1).last() == pairs@[i as int]);
            assert(pairs@.take(i + 1).drop_last() == pairs@.take(i as int));
        }
        if str_eq(pairs[i].0.as_str(), name) {
            return Some(i);
        }
    }
    None
}

/// What a route needs. It needs authentication if it carries a
/// requirement, or if authentication is the default and the route is not
/// explicitly public.
pub open spec fn decided(
    requirement: Option<RouteRequirement>,
    is_public: bool,
    require_auth_by_default: bool,
) -> AuthRequirementView {
    if requirement is Some || (require_auth_by_default && !is_public) {
        AuthRequirementView::Required(
            match requirement {
                Some(r) => Some(r@),
                None => None,
            },
        )
    } else {
        AuthRequirementView::NotRequired
    }
}

/// Decides what a route needs from what was found for it: its requirement
/// among the secured routes, and whether it is among the public ones.
pub fn decide(
    requirement: Option<&RouteRequirement>,
    is_public: bool,
    require_auth_by_default: bool,
) -> (decision: AuthRequirement)
    ensures
        decision@ == decided(
            match requirement {
                Some(r) => Some(*r),
                None => None,
            },
            is_public,
            require_auth_by_default,
        ),
{
    match requirement {
        Some(r) => AuthRequirement::Required(Some(r.duplicate())),
        None => if require_auth_by_default && !is_public {
            AuthRequirement::Required(None)
        } else {
            AuthRequirement::NotRequired
        },
    }
}

/// The route policy of the gateway: the secured and the public routes of
/// each HTTP method, and whether a route that is neither needs
/// authentication.
#[derive(Clone, Debug)]
pub struct GatewayRoutePolicy {
    route_matchers: Vec<(String, RouteMatcher)>,
    public_matchers: Vec<(String, PublicRouteMatcher)>,
    require_auth_by_default: bool,
}

impl GatewayRoutePolicy {
    /// The secured routes of a method, if any were registered for it.
    pub closed spec fn secured(&self, method: Seq<char>) -> Option<
        Seq<(Seq<char>, RouteRequirement)>,
    > {
        match last_named(self.route_matchers@, method) {
            Some(index) => Some(self.route_matchers@[index].1.routes()),
            None => None,
        }
    }

    /// The public patterns of a method, if any were registered for it.
    pub closed spec fn public(&self, method: Seq<char>) -> Option<Seq<Seq<char>>> {
        match last_named(self.public_matchers@, method) {
            Some(index) => Some(self.public_matchers@[index].1.patterns()),
            None => None,
        }
    }

    /// Whether a route that is neither secured nor public needs
    /// authentication.
    pub closed spec fn by_default(&self) -> bool {
        self.require_auth_by_default
    }

    /// The requirement of the secured route that a path matches.
    pub open spec fn requirement_for(&self, method: Seq<char>, path: Seq<char>) -> Option<
        RouteRequirement,
    > {
        match self.secured(method) {
            Some(routes) => matched_requirement(routes, path),
            None => None,
        }
    }

    /// Whether a path matches a public route.
    pub open spec fn is_public(&self, method: Seq<char>, path: Seq<char>) -> bool {
        match self.public(method) {
            Some(patterns) => matched_route(patterns, path) is Some,
            None => false,
        }
    }

    /// The policy of the given matchers by method name. Where a method
    /// occurs more than once, its last matcher counts.
    pub fn new(
        route_matchers: Vec<(String, RouteMatcher)>,
        public_matchers: Vec<(String, PublicRouteMatcher)>,
        require_auth_by_default: bool,
    ) -> (policy: GatewayRoutePolicy)
        ensures
            policy.by_default() == require_auth_by_default,
            forall|method: Seq<char>| #[trigger]
                policy.secured(method) == (match last_named(route_matchers@, method) {
                    Some(index) => Some(route_matchers@[index].1.routes()),
                    None => None,
                }),
            forall|method: Seq<char>| #[trigger]
                policy.public(method) == (match last_named(public_matchers@, method) {
                    Some(index) => Some(public_matchers@[index].1.patterns()),
                    None => None,
                }),
    {
        GatewayRoutePolicy { route_matchers, public_matchers, require_auth_by_default }
    }

    /// What a request for `path` with `method` needs: authentication with
    /// the requirement of the secured route that the path matches;
    /// authentication without a requirement if the path matches no secured
    /// route, authentication is the default and the path matches no public
    /// route; and nothing otherwise.
    pub fn resolve(&self, method: &str, path: &str) -> (decision: AuthRequirement)
        ensures
            decision@ == decided(
                self.requirement_for(method@, path@),
                self.is_public(method@, path@),
                self.by_default(),
            ),
    {
        let requirement = match find_last_named(&self.route_matchers, method) {
            Some(index) => self.route_matchers[index].1.find(path),
            None => None,
        };
        let is_public = match find_last_named(&self.public_matchers, method) {
            Some(index) => self.public_matchers[index].1.find(path),
            None => false,
        };
        decide(requirement, is_public, self.require_auth_by_default)
    }
}

// ── Building a policy ───────────────────────────────────────────────

/// Why a route policy could not be built.
#[derive(Debug, Clone, PartialEq, Eq)]
pub enum RoutePolicyError {
    /// A secured route with this path was not taken.
    SecuredRoute { path: String, error: RouteInsertError },
    /// A public route with this path was not taken.
    PublicRoute { path: String, error: RouteInsertError },
}

/// A secured route as it is declared: the method and the path, in the
/// `:name` syntax, and the requirement.
pub type DeclaredRoute = ((String, String), RouteRequirement);

/// Some declared route is for the method.
pub open spec fn declares_method(routes: Seq<DeclaredRoute>, method: Seq<char>) -> bool {
    exists|i: int| 0 <= i < routes.len() && (#[trigger] routes[i]).0.0@ == method
}

/// What a matcher of a method keeps of a declared route: the pattern in the
/// router's syntax and the requirement, if the route is for the method.
pub open spec fn kept_for(method: Seq<char>) -> spec_fn(DeclaredRoute) -> Option<
    (Seq<char>, RouteRequirement),
> {
    |route: DeclaredRoute|
        if route.0.0@ == method {
            Some((converted(route.0.1@), route.1))
        } else {
            None
        }
}

/// The secured routes that are declared for a method, with their patterns
/// in the router's syntax, in order.
pub open spec fn declared_for(routes: Seq<DeclaredRoute>, method: Seq<char>) -> Seq<
    (Seq<char>, RouteRequirement),
> {
    routes.filter_map(kept_for(method))
}

/// Some declared public route is for the method.
pub open spec fn declares_public_method(routes: Seq<(String, String)>, method: Seq<char>) -> bool {
    exists|i: int| 0 <= i < routes.len() && (#[trigger] routes[i]).0@ == method
}

/// What a matcher of a method keeps of a declared public route: the
/// pattern in the router's syntax, if the route is for the method.
pub open spec fn kept_public_for(method: Seq<char>) -> spec_fn((String, String)) -> Option<
    Seq<char>,
> {
    |route: (String, String)|
        if route.0@ == method {
            Some(converted(route.1@))
        } else {
            None
        }
}

/// The public patterns that are declared for a method, in the router's
/// syntax, in order.
pub open spec fn declared_public_for(routes: Seq<(String, String)>, method: Seq<char>) -> Seq<
    Seq<char>,
> {
    routes.filter_map(kept_public_for(method))
}

/// Why the secured route at an index is refused, if it is, when the
/// routes before it are registered: by the patterns that its method's
/// matcher then holds, and its own.
pub open spec fn secured_refusal(routes: Seq<DeclaredRoute>, i: int) -> Option<Refusal> {
    insert_refusal(
        patterns_of(declared_for(routes.take(i), routes[i].0.0@)),
        converted(routes[i].0.1@),
    )
}

/// The first `count` secured routes are taken, each after those before it.
pub open spec fn secured_taken(routes: Seq<DeclaredRoute>, count: int) -> bool {
    forall|j: int| 0 <= j < count ==> (#[trigger] secured_refusal(routes, j)) is None
}

/// Why the public route at an index is refused, if it is, when the routes
/// before it are registered.
pub open spec fn public_refusal(routes: Seq<(String, String)>, i: int) -> Option<Refusal> {
    insert_refusal(declared_public_for(routes.take(i), routes[i].0@), converted(routes[i].1@))
}

/// The first `count` public routes are taken, each after those before it.
pub open spec fn public_taken(routes: Seq<(String, String)>, count: int) -> bool {
    forall|j: int| 0 <= j < count ==> (#[trigger] public_refusal(routes, j)) is None
}

/// The matchers hold, method by method, the secured routes that are
/// declared, and no method twice; and none has refused a route.
spec fn secured_matchers_hold(
    matchers: Seq<(String, RouteMatcher)>,
    routes: Seq<DeclaredRoute>,
) -> bool {
    &&& forall|a: int, b: int|
        0 <= a < b < matchers.len() ==> (#[trigger] matchers[a]).0@ != (#[trigger] matchers[b]).0@
    &&& forall|k: int|
        0 <= k < matchers.len() ==> declares_method(routes, (#[trigger] matchers[k]).0@)
            && matchers[k].1.routes() == declared_for(routes, matchers[k].0@)
            && matchers[k].1.intact()
    &&& forall|i: int|
        0 <= i < routes.len() ==> exists|k: int|
            0 <= k < matchers.len() && (#[trigger] matchers[k]).0@ == (#[trigger] routes[i]).0.0@
}

/// The matchers hold, method by method, the public patterns that are
/// declared, and no method twice; and none has refused a route.
spec fn public_matchers_hold(
    matchers: Seq<(String, PublicRouteMatcher)>,
    routes: Seq<(String, String)>,
) -> bool {
    &&& forall|a: int, b: int|
        0 <= a < b < matchers.len() ==> (#[trigger] matchers[a]).0@ != (#[trigger] matchers[b]).0@
    &&& forall|k: int|
        0 <= k < matchers.len() ==> declares_public_method(routes, (#[trigger] matchers[k]).0@)
            && matchers[k].1.patterns() == declared_public_for(routes, matchers[k].0@)
            && matchers[k].1.intact()
    &&& forall|i: int|
        0 <= i < routes.len() ==> exists|k: int|
            0 <= k < matchers.len() && (#[trigger] matchers[k]).0@ == (#[trigger] routes[i]).0@
}

/// Registers the declared secured routes, each with the matcher of its
/// method.
fn build_secured_matchers(requirements: &Vec<DeclaredRoute>) -> (result: Result<
    Vec<(String, RouteMatcher)>,
    RoutePolicyError,
>)
    ensures
        match result {
            Ok(matchers) => secured_matchers_hold(matchers@, requirements@) && secured_taken(
                requirements@,
                requirements@.len() as int,
            ),
            Err(RoutePolicyError::SecuredRoute { path, error }) => exists|i: int|
                0 <= i < requirements@.len() && secured_taken(requirements@, i) && secured_refusal(
                    requirements@,
                    i,
                ) == Some(error@) && (#[trigger] requirements@[i]).0.1@ == path@,
            Err(RoutePolicyError::PublicRoute { path, error }) => false,
        },
{
    let mut matchers: Vec<(String, RouteMatcher)> = Vec::new();
    let mut i: usize = 0;
    while i < requirements.len()
        invariant
            i <= requirements@.len(),
            secured_matchers_hold(matchers@, requirements@.take(i as int)),
            secured_taken(requirements@, i as int),
        decreases requirements@.len() - i,
    {
        let declared = &requirements[i];
        let ghost method = declared.0.0@;
        let ghost before = matchers@;
        let ghost done = requirements@.take(i as int);
        let ghost next = requirements@.take(i + 1);
        let pattern = convert_axum_path_to_matchit(declared.0.1.as_str());
        let requirement = declared.1.duplicate();
        proof {
            assert(next.drop_last() == done);
            assert(next.last() == requirements@[i as int]);
            assert forall|m: Seq<char>|
                #[trigger] declared_for(next, m) == declared_for(done, m) + (if m == method {
                    seq![(pattern@, requirement)]
                } else {
                    Seq::empty()
                }) by {
                assert(declared_for(done, m) + Seq::<(Seq<char>, RouteRequirement)>::empty()
                    == declared_for(done, m));
            }
            assert forall|m: Seq<char>| #[trigger]
                declares_method(next, m) == (declares_method(done, m) || m == method) by {
                if declares_method(done, m) {
                    let j = choose|j: int| 0 <= j < done.len() && (#[trigger] done[j]).0.0@ == m;
                    assert(next[j].0.0@ == m);
                }
                if m == method {
                    assert(next[i as int].0.0@ == m);
                }
                if declares_method(next, m) {
                    let j = choose|j: int| 0 <= j < next.len() && (#[trigger] next[j]).0.0@ == m;
                    if j < i {
                        assert(done[j].0.0@ == m);
                    }
                }
            }
        }
        match find_last_named(&matchers, declared.0.0.as_str()) {
            Some(k) => {
                proof {
                    lemma_last_named_in_range(before, method);
                }
                let (name, mut matcher) = matchers.remove(k);
                proof {
                    assert(matcher == before[k as int].1);
                    assert(matcher.intact() && matcher.routes() == declared_for(done, method));
                }
                match matcher.insert(pattern.as_str(), requirement) {
                    Ok(()) => {},
                    Err(error) => {
                        proof {
                            assert(secured_refusal(requirements@, i as int) == Some(error@));
                        }
                        return Err(
                            RoutePolicyError::SecuredRoute { path: declared.0.1.clone(), error },
                        );
                    },
                }
                matchers.insert(k, (name, matcher));
                proof {
                    assert(secured_refusal(requirements@, i as int) is None);
                    assert(matchers@ =~= before.update(k as int, (name, matcher)));
                    assert(matchers@[k as int].1.routes() == declared_for(next, method));
                    assert forall|j: int| 0 <= j < matchers@.len() implies declares_method(
                        next,
                        (#[trigger] matchers@[j]).0@,
                    ) && matchers@[j].1.routes() == declared_for(next, matchers@[j].0@)
                        && matchers@[j].1.intact() by {
                        if j != k {
                            assert(matchers@[j] == before[j]);
                            assert(before[j].0@ != before[k as int].0@);
                        }
                    }
                    assert forall|a: int, b: int| 0 <= a < b < matchers@.len() implies (
                    #[trigger] matchers@[a]).0@ != (#[trigger] matchers@[b]).0@ by {
                        assert(before[a].0@ != before[b].0@);
                    }
                    assert forall|j: int| 0 <= j < next.len() implies exists|n: int|
                        0 <= n < matchers@.len() && (#[trigger] matchers@[n]).0@ == (
                        #[trigger] next[j]).0.0@ by {
                        if j < i {
                            assert(done[j] == next[j]);
                            let n = choose|n: int|
                                0 <= n < before.len() && (#[trigger] before[n]).0@ == done[j].0.0@;
                            assert(matchers@[n].0@ == next[j].0.0@);
                        } else {
                            assert(matchers@[k as int].0@ == next[j].0.0@);
                        }
                    }
                }
            },
            None => {
                proof {
                    lemma_last_named_in_range(before, method);
                }
                proof {
                    assert(!declares_method(done, method)) by {
                        if declares_method(done, method) {
                            let j = choose|j: int|
                                0 <= j < done.len() && (#[trigger] done[j]).0.0@ == method;
                            let n = choose|n: int|
                                0 <= n < before.len() && (#[trigger] before[n]).0@
                                    == done[j].0.0@;
                            assert(before[n].0@ != method);
                        }
                    }
                    assert(declared_for(done, method) =~= Seq::<
                        (Seq<char>, RouteRequirement),
                    >::empty()) by {
                        if declared_for(done, method).len() > 0 {
                            let j = lemma_filter_map_source(done, kept_for(method), 0);
                            assert(done[j].0.0@ == method);
                        }
                    }
                }
                let mut matcher = RouteMatcher::new();
                match matcher.insert(pattern.as_str(), requirement) {
                    Ok(()) => {},
                    Err(error) => {
                        proof {
                            assert(secured_refusal(requirements@, i as int) == Some(error@));
                        }
                        return Err(
                            RoutePolicyError::SecuredRoute { path: declared.0.1.clone(), error },
                        );
                    },
                }
                let name = declared.0.0.clone();
                matchers.push((name, matcher));
                proof {
                    let last = before.len() as int;
                    assert(secured_refusal(requirements@, i as int) is None);
                    assert(matchers@[last].1.routes() =~= declared_for(next, method));
                    assert forall|j: int| 0 <= j < matchers@.len() implies declares_method(
                        next,
                        (#[trigger] matchers@[j]).0@,
                    ) && matchers@[j].1.routes() == declared_for(next, matchers@[j].0@)
                        && matchers@[j].1.intact() by {
                        if j < last {
                            assert(matchers@[j] == before[j]);
                        }
                    }
                    assert forall|a: int, b: int| 0 <= a < b < matchers@.len() implies (
                    #[trigger] matchers@[a]).0@ != (#[trigger] matchers@[b]).0@ by {
                        if b < last {
                            assert(before[a].0@ != before[b].0@);
                        } else {
                            assert(matchers@[a] == before[a]);
                        }
                    }
                    assert forall|j: int| 0 <= j < next.len() implies exists|n: int|
                        0 <= n < matchers@.len() && (#[trigger] matchers@[n]).0@ == (
                        #[trigger] next[j]).0.0@ by {
                        if j < i {
                            assert(done[j] == next[j]);
                            let n = choose|n: int|
                                0 <= n < before.len() && (#[trigger] before[n]).0@ == done[j].0.0@;
                            assert(matchers@[n].0@ == next[j].0.0@);
                        } else {
                            assert(matchers@[last].0@ == next[j].0.0@);
                        }
                    }
                }
            },
        }
        i += 1;
    }
    proof {
        assert(requirements@.take(requirements@.len() as int) == requirements@);
    }
    Ok(matchers)
}

/// Registers the declared public routes, each with the matcher of its
/// method.
fn build_public_matchers(public_routes: &Vec<(String, String)>) -> (result: Result<
    Vec<(String, PublicRouteMatcher)>,
    RoutePolicyError,
>)
    ensures
        match result {
            Ok(matchers) => public_matchers_hold(matchers@, public_routes@) && public_taken(
                public_routes@,
                public_routes@.len() as int,
            ),
            Err(RoutePolicyError::PublicRoute { path, error }) => exists|i: int|
                0 <= i < public_routes@.len() && public_taken(public_routes@, i) && public_refusal(
                    public_routes@,
                    i,
                ) == Some(error@) && (#[trigger] public_routes@[i]).1@ == path@,
            Err(RoutePolicyError::SecuredRoute { path, error }) => false,
        },
{
    let mut matchers: Vec<(String, PublicRouteMatcher)> = Vec::new();
    let mut i: usize = 0;
    while i < public_routes.len()
        invariant
            i <= public_routes@.len(),
            public_matchers_hold(matchers@, public_routes@.take(i as int)),
            public_taken(public_routes@, i as int),
        decreases public_routes@.len() - i,
    {
        let declared = &public_routes[i];
        let ghost method = declared.0@;
        let ghost before = matchers@;
        let ghost done = public_routes@.take(i as int);
        let ghost next = public_routes@.take(i + 1);
        let pattern = convert_axum_path_to_matchit(declared.1.as_str());
        proof {
            assert(next.drop_last() == done);
            assert(next.last() == public_routes@[i as int]);
            assert forall|m: Seq<char>|
                #[trigger] declared_public_for(next, m) == declared_public_for(done, m) + (if m
                    == method {
                    seq![pattern@]
                } else {
                    Seq::empty()
                }) by {
                assert(declared_public_for(done, m) + Seq::<Seq<char>>::empty()
                    == declared_public_for(done, m));
            }
            assert forall|m: Seq<char>| #[trigger]
                declares_public_method(next, m) == (declares_public_method(done, m) || m
                    == method) by {
                if declares_public_method(done, m) {
                    let j = choose|j: int| 0 <= j < done.len() && (#[trigger] done[j]).0@ == m;
                    assert(next[j].0@ == m);
                }
                if m == method {
                    assert(next[i as int].0@ == m);
                }
                if declares_public_method(next, m) {
                    let j = choose|j: int| 0 <= j < next.len() && (#[trigger] next[j]).0@ == m;
                    if j < i {
                        assert(done[j].0@ == m);
                    }
                }
            }
        }
        match find_last_named(&matchers, declared.0.as_str()) {
            Some(k) => {
                proof {
                    lemma_last_named_in_range(before, method);
                }
                let (name, mut matcher) = matchers.remove(k);
                proof {
                    assert(matcher == before[k as int].1);
                    assert(matcher.intact() && matcher.patterns() == declared_public_for(
                        done,
                        method,
                    ));
                }
                match matcher.insert(pattern.as_str()) {
                    Ok(()) => {},
                    Err(error) => {
                        proof {
                            assert(public_refusal(public_routes@, i as int) == Some(error@));
                        }
                        return Err(RoutePolicyError::PublicRoute { path: declared.1.clone(), error });
                    },
                }
                matchers.insert(k, (name, matcher));
                proof {
                    assert(public_refusal(public_routes@, i as int) is None);
                    assert(matchers@ =~= before.update(k as int, (name, matcher)));
                    assert(matchers@[k as int].1.patterns() == declared_public_for(next, method));
                    assert forall|j: int|
                        0 <= j < matchers@.len() implies declares_public_method(
                        next,
                        (#[trigger] matchers@[j]).0@,
                    ) && matchers@[j].1.patterns() == declared_public_for(
                        next,
                        matchers@[j].0@,
                    ) && matchers@[j].1.intact() by {
                        if j != k {
                            assert(matchers@[j] == before[j]);
                            assert(before[j].0@ != before[k as int].0@);
                        }
                    }
                    assert forall|a: int, b: int| 0 <= a < b < matchers@.len() implies (
                    #[trigger] matchers@[a]).0@ != (#[trigger] matchers@[b]).0@ by {
                        assert(before[a].0@ != before[b].0@);
                    }
                    assert forall|j: int| 0 <= j < next.len() implies exists|n: int|
                        0 <= n < matchers@.len() && (#[trigger] matchers@[n]).0@ == (
                        #[trigger] next[j]).0@ by {
                        if j < i {
                            assert(done[j] == next[j]);
                            let n = choose|n: int|
                                0 <= n < before.len() && (#[trigger] before[n]).0@ == done[j].0@;
                            assert(matchers@[n].0@ == next[j].0@);
                        } else {
                            assert(matchers@[k as int].0@ == next[j].0@);
                        }
                    }
                }
            },
            None => {
                proof {
                    lemma_last_named_in_range(before, method);
                }
                proof {
                    assert(!declares_public_method(done, method)) by {
                        if declares_public_method(done, method) {
                            let j = choose|j: int|
                                0 <= j < done.len() && (#[trigger] done[j]).0@ == method;
                            let n = choose|n: int|
                                0 <= n < before.len() && (#[trigger] before[n]).0@ == done[j].0@;
                            assert(before[n].0@ != method);
                        }
                    }
                    assert(declared_public_for(done, method) =~= Seq::<Seq<char>>::empty()) by {
                        if declared_public_for(done, method).len() > 0 {
                            let j = lemma_filter_map_source(done, kept_public_for(method), 0);
                            assert(done[j].0@ == method);
                        }
                    }
                }
                let mut matcher = PublicRouteMatcher::new();
                match matcher.insert(pattern.as_str()) {
                    Ok(()) => {},
                    Err(error) => {
                        proof {
                            assert(public_refusal(public_routes@, i as int) == Some(error@));
                        }
                        return Err(RoutePolicyError::PublicRoute { path: declared.1.clone(), error });
                    },
                }
                let name = declared.0.clone();
                matchers.push((name, matcher));
                proof {
                    let last = before.len() as int;
                    assert(public_refusal(public_routes@, i as int) is None);
                    assert(matchers@[last].1.patterns() =~= declared_public_for(next, method));
                    assert forall|j: int|
                        0 <= j < matchers@.len() implies declares_public_method(
                        next,
                        (#[trigger] matchers@[j]).0@,
                    ) && matchers@[j].1.patterns() == declared_public_for(
                        next,
                        matchers@[j].0@,
                    ) && matchers@[j].1.intact() by {
                        if j < last {
                            assert(matchers@[j] == before[j]);
                        }
                    }
                    assert forall|a: int, b: int| 0 <= a < b < matchers@.len() implies (
                    #[trigger] matchers@[a]).0@ != (#[trigger] matchers@[b]).0@ by {
                        if b < last {
                            assert(before[a].0@ != before[b].0@);
                        } else {
                            assert(matchers@[a] == before[a]);
                        }
                    }
                    assert forall|j: int| 0 <= j < next.len() implies exists|n: int|
                        0 <= n < matchers@.len() && (#[trigger] matchers@[n]).0@ == (
                        #[trigger] next[j]).0@ by {
                        if j < i {
                            assert(done[j] == next[j]);
                            let n = choose|n: int|
                                0 <= n < before.len() && (#[trigger] before[n]).0@ == done[j].0@;
                            assert(matchers@[n].0@ == next[j].0@);
                        } else {
                            assert(matchers@[last].0@ == next[j].0@);
                        }
                    }
                }
            },
        }
        i += 1;
    }
    proof {
        assert(public_routes@.take(public_routes@.len() as int) == public_routes@);
    }
    Ok(matchers)
}

/// Builds the route policy of the gateway from the routes that operations
/// declare, with their paths in the `:name` syntax.
///
/// Each path is converted to the router's syntax and registered with the
/// matcher of its method, secured routes first and in order, then public
/// routes in order. The first route that a matcher does not take ends the
/// building with an error that names its path and the reason. Whether a
/// route is taken is told by the routes of its method that were declared
/// before it, and itself; the policy is built exactly if every route is
/// taken.
pub fn build_route_policy(
    require_auth_by_default: bool,
    requirements: Vec<DeclaredRoute>,
    public_routes: Vec<(String, String)>,
) -> (result: Result<GatewayRoutePolicy, RoutePolicyError>)
    ensures
        match result {
            Ok(policy) => {
                &&& policy.by_default() == require_auth_by_default
                &&& forall|method: Seq<char>| #[trigger]
                    policy.secured(method) == (if declares_method(requirements@, method) {
                        Some(declared_for(requirements@, method))
                    } else {
                        None
                    })
                &&& forall|method: Seq<char>| #[trigger]
                    policy.public(method) == (if declares_public_method(public_routes@, method) {
                        Some(declared_public_for(public_routes@, method))
                    } else {
                        None
                    })
            },
            Err(RoutePolicyError::SecuredRoute { path, error }) => exists|i: int|
                0 <= i < requirements@.len() && secured_taken(requirements@, i) && secured_refusal(
                    requirements@,
                    i,
                ) == Some(error@) && (#[trigger] requirements@[i]).0.1@ == path@,
            Err(RoutePolicyError::PublicRoute { path, error }) => secured_taken(
                requirements@,
                requirements@.len() as int,
            ) && exists|i: int|
                0 <= i < public_routes@.len() && public_taken(public_routes@, i) && public_refusal(
                    public_routes@,
                    i,
                ) == Some(error@) && (#[trigger] public_routes@[i]).1@ == path@,
        },
        result is Ok <==> secured_taken(requirements@, requirements@.len() as int) && public_taken(
            public_routes@,
            public_routes@.len() as int,
        ),
{
    let route_matchers = match build_secured_matchers(&requirements) {
        Ok(matchers) => matchers,
        Err(error) => {
            return Err(error);
        },
    };
    let public_matchers = match build_public_matchers(&public_routes) {
        Ok(matchers) => matchers,
        Err(error) => {
            return Err(error);
        },
    };
    let policy = GatewayRoutePolicy::new(route_matchers, public_matchers, require_auth_by_default);
    proof {
        assert forall|method: Seq<char>| #[trigger]
            policy.secured(method) == (if declares_method(requirements@, method) {
                Some(declared_for(requirements@, method))
            } else {
                None
            }) by {
            lemma_last_named_in_range(route_matchers@, method);
            if declares_method(requirements@, method) {
                let i = choose|i: int|
                    0 <= i < requirements@.len() && (#[trigger] requirements@[i]).0.0@ == method;
                let k = choose|k: int|
                    0 <= k < route_matchers@.len() && (#[trigger] route_matchers@[k]).0@
                        == requirements@[i].0.0@;
                assert(route_matchers@[k].0@ == method);
            }
        }
        assert forall|method: Seq<char>| #[trigger]
            policy.public(method) == (if declares_public_method(public_routes@, method) {
                Some(declared_public_for(public_routes@, method))
            } else {
                None
            }) by {
            lemma_last_named_in_range(public_matchers@, method);
            if declares_public_method(public_routes@, method) {
                let i = choose|i: int|
                    0 <= i < public_routes@.len() && (#[trigger] public_routes@[i]).0@ == method;
                let k = choose|k: int|
                    0 <= k < public_matchers@.len() && (#[trigger] public_matchers@[k]).0@
                        == public_routes@[i].0@;
                assert(public_matchers@[k].0@ == method);
            }
        }
    }
    Ok(policy)
}

} // verus!
