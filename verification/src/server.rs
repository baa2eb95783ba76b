//! The table of routes and what a connection does with a request: which
//! handler serves it, and which response is written where none does.

use crate::error::{error_payload, spec_error_payload};
use crate::constants::OPEN_BRACE;
use crate::methods::{spec_method_of, HttpMethod};
use crate::request::handle::{HandleRequestError, HandleRequestErrorView};
use crate::request::options::Connection;
use crate::request::parser::model::spec_version_reason;
use crate::request::request::{
    spec_route_path, spec_text_of, spec_texts, Request, TextPair,
};
use crate::response::{spec_text, Response, ResponseBody};
use crate::route::Route;
use crate::utils::{count_byte, spec_count};
use vstd::prelude::*;
use vstd::string::StringSliceAdditionalSpecFns;

verus! {

/// The radix tree of `matchit` that finds the route of a path.
#[verifier::external_type_specification]
#[verifier::external_body]
#[verifier::reject_recursive_types(T)]
pub struct ExRouter<T>(matchit::Router<T>);

/// Why `matchit` refused a route pattern.
#[verifier::external_type_specification]
#[verifier::external_body]
pub struct ExInsertError(matchit::InsertError);

/// The routes that a router holds: the patterns under which it holds a
/// number, each with that number.
pub uninterp spec fn spec_router_routes(router: matchit::Router<usize>) -> Map<Seq<char>, usize>;

/// Whether `matchit::Router::insert` takes a pattern into a router.
pub uninterp spec fn spec_router_takes(router: matchit::Router<usize>, pattern: Seq<char>) -> bool;

/// What `matchit::Router::at` finds in a router for a path: the number
/// stored under the route that matches, and the parameters of the match.
pub uninterp spec fn spec_router_found(router: matchit::Router<usize>, path: Seq<char>) -> Option<
    (usize, Seq<TextPair>),
>;

/// Some pattern of the router stores `slot`.
pub open spec fn spec_router_stores(router: matchit::Router<usize>, slot: usize) -> bool {
    exists|pattern: Seq<char>| #[trigger]
        spec_router_routes(router).contains_key(pattern) && spec_router_routes(router)[pattern]
            == slot
}

/// No routes.
pub open spec fn spec_no_routes() -> Map<Seq<char>, usize> {
    Map::empty()
}

/// A pattern of this many named parameters makes `matchit` give up.
pub const PARAMETER_LIMIT: usize = 26;

/// The pattern has so many opening braces that it may hold as many
/// parameters as `matchit` gives up on. Every parameter takes an opening
/// brace, so a pattern with fewer braces has fewer parameters.
pub open spec fn spec_too_many_braces(pattern: Seq<u8>) -> bool {
    spec_count(pattern, OPEN_BRACE) >= PARAMETER_LIMIT
}

/// What a match is as a mathematical value.
pub open spec fn spec_found_view(found: Option<(usize, Vec<(String, String)>)>) -> Option<
    (usize, Seq<TextPair>),
> {
    match found {
        Some((slot, params)) => Some((slot, spec_texts(params@))),
        None => None,
    }
}

/// Calls `matchit::Router::new`: a router that holds no route.
#[verifier::external_body]
fn router_new() -> (r: matchit::Router<usize>)
    ensures
        spec_router_routes(r) == spec_no_routes(),
{
    matchit::Router::new()
}

/// Calls `matchit::Router::insert`. The `requires` keeps out the
/// patterns on which that function does not behave as a map: a pattern of
/// 26 named parameters, on which it panics, and the empty pattern, after
/// which it still takes its tree for empty. The contract claims that
/// whether the call succeeds depends on the router and the pattern alone;
/// that after a call that succeeds the router holds the pattern with
/// `slot`, every pattern that it held before with the number it had, and
/// nothing else; and that a call that fails adds nothing.
#[verifier::external_body]
fn router_insert(router: &mut matchit::Router<usize>, pattern: &str, slot: usize) -> (r: Result<
    (),
    matchit::InsertError,
>)
    requires
        pattern.spec_bytes().len() > 0,
        !spec_too_many_braces(pattern.spec_bytes()),
    ensures
        r is Ok <==> spec_router_takes(*old(router), pattern@),
        r is Ok ==> spec_router_routes(*final(router)).contains_key(pattern@),
        r is Ok ==> spec_router_routes(*final(router))[pattern@] == slot,
        r is Ok ==> spec_router_routes(*final(router)).remove(pattern@).submap_of(
            spec_router_routes(*old(router)),
        ),
        r is Ok ==> spec_router_routes(*old(router)).submap_of(
            spec_router_routes(*final(router)),
        ),
        r is Err ==> spec_router_routes(*final(router)).submap_of(
            spec_router_routes(*old(router)),
        ),
{
    router.insert(pattern, slot)
}

/// Calls `matchit::Router::at` and copies what it found: the number
/// stored under the route that matches `path`, and the parameters of the
/// match in the order of `matchit::Params::iter`. The contract claims that
/// what is found depends on the router and the path alone, and that a
/// number that is found is stored under some pattern of the router.
#[verifier::external_body]
fn router_at(router: &matchit::Router<usize>, path: &str) -> (r: Option<
    (usize, Vec<(String, String)>),
>)
    ensures
        spec_found_view(r) == spec_router_found(*router, path@),
        r matches Some(found) ==> spec_router_stores(*router, found.0),
{
    match router.at(path) {
        Ok(found) => Some(
            (*found.value, found.params.iter().map(|(k, v)| (k.to_owned(), v.to_owned())).collect()),
        ),
        Err(_) => None,
    }
}

/// What the server is started with.
#[derive(Debug, Clone, Copy, PartialEq, Eq)]
pub struct AouOptions {
    pub tracing: Option<bool>,
}

impl Default for AouOptions {
    fn default() -> (r: Self)
        ensures
            r.tracing is None,
    {
        AouOptions { tracing: None }
    }
}

/// A pattern already has a handler for the method, or cannot be a route.
#[derive(Debug, Clone, Copy, PartialEq, Eq, Structural)]
pub enum RouteConflict {
    /// The pattern has a handler for this method already.
    Taken,
    /// The router accepts the pattern neither as new nor as one it holds.
    Refused,
}

/// What a handler is registered for: one method, or all of them.
#[derive(Debug, Clone, Copy, PartialEq, Eq, Structural)]
pub enum Target {
    Method(HttpMethod),
    All,
}

/// The handlers of a route after a registration, or why there is none.
/// A handler is added where the target is free, and never replaced.
pub open spec fn spec_registered(route: Route<usize>, target: Target, handler: usize) -> Result<
    Route<usize>,
    RouteConflict,
> {
    match target {
        Target::Method(method) => if route.spec_method(method) is Some {
            Err(RouteConflict::Taken)
        } else {
            Ok(route.spec_with_method(method, handler))
        },
        Target::All => if route.spec_all() is Some {
            Err(RouteConflict::Taken)
        } else {
            Ok(route.spec_with_all(handler))
        },
    }
}

/// Adds a handler to a route where the target is free.
pub fn registered(route: Route<usize>, target: Target, handler: usize) -> (r: Result<
    Route<usize>,
    RouteConflict,
>)
    ensures
        r == spec_registered(route, target, handler),
{
    let mut route = route;
    match target {
        Target::Method(method) => {
            if route.has_method(method) {
                return Err(RouteConflict::Taken);
            }
            route.set_method(method, handler);
        },
        Target::All => {
            if route.has_all() {
                return Err(RouteConflict::Taken);
            }
            route.set_all(handler);
        },
    }
    Ok(route)
}

/// The table after a registration, given what the router answered:
/// whether it took the pattern as new, and otherwise where it finds the
/// pattern. A new pattern gets a route of its own at the end of the
/// table; a pattern that is found gets the handler added to its route if
/// the target is free; a pattern that is neither is refused.
pub open spec fn spec_register(
    routes: Seq<Route<usize>>,
    inserted: bool,
    found: Option<usize>,
    target: Target,
    handler: usize,
) -> Result<Seq<Route<usize>>, RouteConflict> {
    if inserted {
        Ok(routes.push(spec_registered(Route::spec_empty(), target, handler)->Ok_0))
    } else {
        match found {
            Some(slot) => if slot < routes.len() {
                match spec_registered(routes[slot as int], target, handler) {
                    Ok(route) => Ok(routes.update(slot as int, route)),
                    Err(e) => Err(e),
                }
            } else {
                Err(RouteConflict::Refused)
            },
            None => Err(RouteConflict::Refused),
        }
    }
}

/// Changes the table as `spec_register` says; on a conflict the table is
/// left as it is.
pub fn register(
    routes: &mut Vec<Route<usize>>,
    inserted: bool,
    found: Option<usize>,
    target: Target,
    handler: usize,
) -> (r: Result<(), RouteConflict>)
    ensures
        match spec_register(old(routes)@, inserted, found, target, handler) {
            Ok(table) => r is Ok && final(routes)@ == table,
            Err(e) => r == Err::<(), RouteConflict>(e) && final(routes)@ == old(routes)@,
        },
{
    proof {
        Route::<usize>::spec_empty().lemma_constructions(HttpMethod::GET, handler);
    }
    if inserted {
        match registered(Route::empty(), target, handler) {
            Ok(route) => {
                routes.push(route);
                Ok(())
            },
            Err(e) => Err(e),
        }
    } else {
        match found {
            Some(slot) => {
                if slot < routes.len() {
                    match registered(routes[slot], target, handler) {
                        Ok(route) => {
                            routes[slot] = route;
                            Ok(())
                        },
                        Err(e) => Err(e),
                    }
                } else {
                    Err(RouteConflict::Refused)
                }
            },
            None => Err(RouteConflict::Refused),
        }
    }
}

/// The handler that serves a request, given what the router found for
/// its path: the handler that the route found has for the method, or else
/// the one it has for all methods, with the parameters of the match.
pub open spec fn spec_serve(
    routes: Seq<Route<usize>>,
    found: Option<(usize, Seq<(String, String)>)>,
    method: HttpMethod,
) -> Option<(usize, Seq<(String, String)>)> {
    match found {
        Some((slot, params)) => if slot < routes.len() {
            match routes[slot as int].spec_serving(method) {
                Some(handler) => Some((handler, params)),
                None => None,
            }
        } else {
            None
        },
        None => None,
    }
}

/// Picks the handler as `spec_serve` says.
pub fn serve(
    routes: &Vec<Route<usize>>,
    found: Option<(usize, Vec<(String, String)>)>,
    method: HttpMethod,
) -> (r: Option<(usize, Vec<(String, String)>)>)
    ensures
        match r {
            Some((handler, params)) => found matches Some((slot, given)) && spec_serve(
                routes@,
                Some((slot, given@)),
                method,
            ) == Some((handler, given@)) && params == given,
            None => match found {
                Some((slot, given)) => spec_serve(routes@, Some((slot, given@)), method) is None,
                None => true,
            },
        },
{
    match found {
        Some((slot, params)) => {
            if slot < routes.len() {
                match routes[slot].serving(method) {
                    Some(handler) => Some((*handler, params)),
                    None => None,
                }
            } else {
                None
            }
        },
        None => None,
    }
}

/// The router took the pattern as new: it holds the pattern now, with
/// the place at the end of the table, every pattern that it held before
/// with the place it had, and no other; and at the new place a route of
/// the pattern's own stands that has `handler` for the target and nothing
/// else.
pub open spec fn spec_took_new(
    before: AouServer,
    after: AouServer,
    route: Seq<char>,
    target: Target,
    handler: usize,
) -> bool {
    &&& after.spec_patterns().contains_key(route)
    &&& after.spec_patterns()[route] == before.spec_routes().len()
    &&& after.spec_patterns().remove(route).submap_of(before.spec_patterns())
    &&& before.spec_patterns().submap_of(after.spec_patterns())
    &&& spec_registered(Route::<usize>::spec_empty(), target, handler) is Ok
    &&& after.spec_routes() == before.spec_routes().push(
        spec_registered(Route::<usize>::spec_empty(), target, handler)->Ok_0,
    )
}

/// The place of a match, without its parameters.
pub open spec fn spec_place(found: Option<(usize, Seq<TextPair>)>) -> Option<usize> {
    match found {
        Some((slot, _)) => Some(slot),
        None => None,
    }
}

/// What a registration does to a server and what it returns.
///
/// The empty pattern and a pattern with too many opening braces are
/// refused, and nothing changes. Every other pattern is handed to the
/// router with the number
/// of the place at the end of the table. Where the router takes the
/// pattern, the registration succeeds as `spec_took_new` says. Where it
/// does not, the router holds no pattern that it did not hold before, and
/// it is asked for the route that the pattern leads to when it is read as
/// a path; result and table are then what `spec_register` makes of that
/// place.
pub open spec fn spec_inserted(
    before: AouServer,
    after: AouServer,
    route: Seq<char>,
    target: Target,
    handler: usize,
    r: Result<(), RouteConflict>,
) -> bool {
    &&& after.wf()
    &&& after.spec_options() == before.spec_options()
    &&& if spec_text(route).len() == 0 || spec_too_many_braces(spec_text(route)) {
        &&& r == Err::<(), RouteConflict>(RouteConflict::Refused)
        &&& after.spec_routes() == before.spec_routes()
        &&& after.spec_patterns() == before.spec_patterns()
    } else if before.spec_takes(route) {
        r is Ok && spec_took_new(before, after, route, target, handler)
    } else {
        &&& after.spec_patterns().submap_of(before.spec_patterns())
        &&& match spec_register(
            before.spec_routes(),
            false,
            spec_place(after.spec_found(route)),
            target,
            handler,
        ) {
            Ok(table) => r is Ok && after.spec_routes() == table,
            Err(e) => r == Err::<(), RouteConflict>(e) && after.spec_routes()
                == before.spec_routes(),
        }
    }
}

/// The routes of a server. A handler is a number that whoever registers
/// it chooses.
#[derive(Debug)]
pub struct AouServer {
    router: matchit::Router<usize>,
    routes: Vec<Route<usize>>,
    options: AouOptions,
}

impl AouServer {
    /// The routes of the table, in the order in which their patterns were
    /// first registered.
    pub closed spec fn spec_routes(&self) -> Seq<Route<usize>> {
        self.routes@
    }

    /// The options the server was made with.
    pub closed spec fn spec_options(&self) -> AouOptions {
        self.options
    }

    /// The patterns that the router holds, each with the place that its
    /// route has in the table.
    pub closed spec fn spec_patterns(&self) -> Map<Seq<char>, usize> {
        spec_router_routes(self.router)
    }

    /// Whether the router takes `pattern` as a new pattern.
    pub closed spec fn spec_takes(&self, pattern: Seq<char>) -> bool {
        spec_router_takes(self.router, pattern)
    }

    /// What the router finds for `path`: the place of the route that
    /// matches, and the parameters of the match.
    pub closed spec fn spec_found(&self, path: Seq<char>) -> Option<(usize, Seq<TextPair>)> {
        spec_router_found(self.router, path)
    }

    /// The handler that serves `method` on `path`, with the parameters of
    /// the match: the handler that the route found for the path has for
    /// the method, or else the one it has for all methods.
    pub open spec fn spec_match(&self, path: Seq<char>, method: HttpMethod) -> Option<
        (usize, Seq<TextPair>),
    > {
        match self.spec_found(path) {
            Some((slot, params)) => if slot < self.spec_routes().len() {
                match self.spec_routes()[slot as int].spec_serving(method) {
                    Some(handler) => Some((handler, params)),
                    None => None,
                }
            } else {
                None
            },
            None => None,
        }
    }

    /// Some pattern of the router leads to the place `slot` of the table.
    pub open spec fn spec_stores(&self, slot: usize) -> bool {
        exists|pattern: Seq<char>| #[trigger]
            self.spec_patterns().contains_key(pattern) && self.spec_patterns()[pattern] == slot
    }

    /// Every number that the router stores is a place in the table.
    pub open spec fn wf(&self) -> bool {
        forall|pattern: Seq<char>| #[trigger]
            self.spec_patterns().contains_key(pattern) ==> self.spec_patterns()[pattern]
                < self.spec_routes().len()
    }

    /// `handler` serves some route of the table for the target.
    pub open spec fn spec_serves(&self, target: Target, handler: usize) -> bool {
        exists|i: int|
            0 <= i < self.spec_routes().len() && match target {
                Target::Method(method) => (#[trigger] self.spec_routes()[i]).spec_method(method)
                    == Some(handler),
                Target::All => (#[trigger] self.spec_routes()[i]).spec_all() == Some(handler),
            }
    }

    /// A server without routes.
    pub fn new(options: Option<AouOptions>) -> (r: Self)
        ensures
            r.wf(),
            r.spec_routes().len() == 0,
            r.spec_patterns() == spec_no_routes(),
            r.spec_options() == match options {
                Some(given) => given,
                None => (AouOptions { tracing: None }),
            },
    {
        AouServer {
            router: router_new(),
            routes: Vec::new(),
            options: match options {
                Some(given) => given,
                None => AouOptions::default(),
            },
        }
    }

    /// The options the server was made with.
    pub fn get_options(&self) -> (r: AouOptions)
        ensures
            r == self.spec_options(),
    {
        self.options
    }

    /// Registers `handler` under the pattern `route` for a method or for
    /// all methods, as `spec_inserted` says. A handler that is there
    /// stays: on a conflict the table is unchanged, and otherwise it
    /// differs in one route, which now has `handler` for the target.
    pub fn insert(&mut self, route: String, target: Target, handler: usize) -> (r: Result<
        (),
        RouteConflict,
    >)
        requires
            old(self).wf(),
        ensures
            spec_inserted(*old(self), *final(self), route@, target, handler, r),
            r is Err ==> final(self).spec_routes() == old(self).spec_routes(),
            r is Ok ==> final(self).spec_serves(target, handler),
    {
        if route.as_str().as_bytes().len() == 0 || count_byte(
            route.as_str().as_bytes(),
            OPEN_BRACE,
        ) >= PARAMETER_LIMIT {
            return Err(RouteConflict::Refused);
        }
        let slot: usize = self.routes.len();
        let ghost before = self.routes@;
        let inserted = router_insert(&mut self.router, route.as_str(), slot).is_ok();
        let found = if inserted {
            None
        } else {
            match router_at(&self.router, route.as_str()) {
                Some((slot, _)) => Some(slot),
                None => None,
            }
        };
        let ghost stored = self.spec_patterns();
        let r = register(&mut self.routes, inserted, found, target, handler);
        proof {
            Route::<usize>::spec_empty().lemma_constructions(HttpMethod::GET, handler);
            assert(self.routes@.len() >= before.len());
            assert(inserted ==> r is Ok && self.routes@.len() == before.len() + 1);
            assert forall|pattern: Seq<char>| #[trigger]
                stored.contains_key(pattern) implies stored[pattern] < self.routes@.len() by {
                if pattern != route@ || !inserted {
                    if inserted {
                        assert(stored.remove(route@).contains_key(pattern));
                    }
                    assert(old(self).spec_patterns().contains_key(pattern));
                    assert(old(self).spec_patterns()[pattern] < before.len());
                }
            }
            if r is Ok {
                let at = if inserted {
                    before.len() as int
                } else {
                    found->Some_0 as int
                };
                let earlier = if inserted {
                    Route::<usize>::spec_empty()
                } else {
                    before[at]
                };
                assert(self.routes@[at] == spec_registered(earlier, target, handler)->Ok_0);
                match target {
                    Target::Method(method) => {
                        earlier.lemma_constructions(method, handler);
                    },
                    Target::All => {
                        earlier.lemma_constructions(HttpMethod::GET, handler);
                    },
                }
            }
            if !inserted {
                assert(found == spec_place(self.spec_found(route@)));
            }
        }
        r
    }

    /// Registers `handler` under `route` for the method `GET`.
    pub fn get(&mut self, route: String, handler: usize) -> (r: Result<(), RouteConflict>)
        requires
            old(self).wf(),
        ensures
            spec_inserted(
                *old(self),
                *final(self),
                route@,
                Target::Method(HttpMethod::GET),
                handler,
                r,
            ),
            r is Err ==> final(self).spec_routes() == old(self).spec_routes(),
            r is Ok ==> final(self).spec_serves(Target::Method(HttpMethod::GET), handler),
    {
        self.insert(route, Target::Method(HttpMethod::GET), handler)
    }

    /// Registers `handler` under `route` for the method `HEAD`.
    pub fn head(&mut self, route: String, handler: usize) -> (r: Result<(), RouteConflict>)
        requires
            old(self).wf(),
        ensures
            spec_inserted(
                *old(self),
                *final(self),
                route@,
                Target::Method(HttpMethod::HEAD),
                handler,
                r,
            ),
            r is Err ==> final(self).spec_routes() == old(self).spec_routes(),
            r is Ok ==> final(self).spec_serves(Target::Method(HttpMethod::HEAD), handler),
    {
        self.insert(route, Target::Method(HttpMethod::HEAD), handler)
    }

    /// Registers `handler` under `route` for the method `POST`.
    pub fn post(&mut self, route: String, handler: usize) -> (r: Result<(), RouteConflict>)
        requires
            old(self).wf(),
        ensures
            spec_inserted(
                *old(self),
                *final(self),
                route@,
                Target::Method(HttpMethod::POST),
                handler,
                r,
            ),
            r is Err ==> final(self).spec_routes() == old(self).spec_routes(),
            r is Ok ==> final(self).spec_serves(Target::Method(HttpMethod::POST), handler),
    {
        self.insert(route, Target::Method(HttpMethod::POST), handler)
    }

    /// Registers `handler` under `route` for the method `PUT`.
    pub fn put(&mut self, route: String, handler: usize) -> (r: Result<(), RouteConflict>)
        requires
            old(self).wf(),
        ensures
            spec_inserted(
                *old(self),
                *final(self),
                route@,
                Target::Method(HttpMethod::PUT),
                handler,
                r,
            ),
            r is Err ==> final(self).spec_routes() == old(self).spec_routes(),
            r is Ok ==> final(self).spec_serves(Target::Method(HttpMethod::PUT), handler),
    {
        self.insert(route, Target::Method(HttpMethod::PUT), handler)
    }

    /// Registers `handler` under `route` for the method `DELETE`.
    pub fn delete(&mut self, route: String, handler: usize) -> (r: Result<(), RouteConflict>)
        requires
            old(self).wf(),
        ensures
            spec_inserted(
                *old(self),
                *final(self),
                route@,
                Target::Method(HttpMethod::DELETE),
                handler,
                r,
            ),
            r is Err ==> final(self).spec_routes() == old(self).spec_routes(),
            r is Ok ==> final(self).spec_serves(Target::Method(HttpMethod::DELETE), handler),
    {
        self.insert(route, Target::Method(HttpMethod::DELETE), handler)
    }

    /// Registers `handler` under `route` for the method `CONNECT`.
    pub fn connect(&mut self, route: String, handler: usize) -> (r: Result<(), RouteConflict>)
        requires
            old(self).wf(),
        ensures
            spec_inserted(
                *old(self),
                *final(self),
                route@,
                Target::Method(HttpMethod::CONNECT),
                handler,
                r,
            ),
            r is Err ==> final(self).spec_routes() == old(self).spec_routes(),
            r is Ok ==> final(self).spec_serves(Target::Method(HttpMethod::CONNECT), handler),
    {
        self.insert(route, Target::Method(HttpMethod::CONNECT), handler)
    }

    /// Registers `handler` under `route` for the method `OPTIONS`.
    pub fn options(&mut self, route: String, handler: usize) -> (r: Result<(), RouteConflict>)
        requires
            old(self).wf(),
        ensures
            spec_inserted(
                *old(self),
                *final(self),
                route@,
                Target::Method(HttpMethod::OPTIONS),
                handler,
                r,
            ),
            r is Err ==> final(self).spec_routes() == old(self).spec_routes(),
            r is Ok ==> final(self).spec_serves(Target::Method(HttpMethod::OPTIONS), handler),
    {
        self.insert(route, Target::Method(HttpMethod::OPTIONS), handler)
    }

    /// Registers `handler` under `route` for the method `TRACE`.
    pub fn trace(&mut self, route: String, handler: usize) -> (r: Result<(), RouteConflict>)
        requires
            old(self).wf(),
        ensures
            spec_inserted(
                *old(self),
                *final(self),
                route@,
                Target::Method(HttpMethod::TRACE),
                handler,
                r,
            ),
            r is Err ==> final(self).spec_routes() == old(self).spec_routes(),
            r is Ok ==> final(self).spec_serves(Target::Method(HttpMethod::TRACE), handler),
    {
        self.insert(route, Target::Method(HttpMethod::TRACE), handler)
    }

    /// Registers `handler` under `route` for the method `PATCH`.
    pub fn patch(&mut self, route: String, handler: usize) -> (r: Result<(), RouteConflict>)
        requires
            old(self).wf(),
        ensures
            spec_inserted(
                *old(self),
                *final(self),
                route@,
                Target::Method(HttpMethod::PATCH),
                handler,
                r,
            ),
            r is Err ==> final(self).spec_routes() == old(self).spec_routes(),
            r is Ok ==> final(self).spec_serves(Target::Method(HttpMethod::PATCH), handler),
    {
        self.insert(route, Target::Method(HttpMethod::PATCH), handler)
    }

    /// Registers `handler` under `route` for every method that has no
    /// handler of its own there.
    pub fn all(&mut self, route: String, handler: usize) -> (r: Result<(), RouteConflict>)
        requires
            old(self).wf(),
        ensures
            spec_inserted(*old(self), *final(self), route@, Target::All, handler, r),
            r is Err ==> final(self).spec_routes() == old(self).spec_routes(),
            r is Ok ==> final(self).spec_serves(Target::All, handler),
    {
        self.insert(route, Target::All, handler)
    }

    /// The handler that serves `method` on the path `route`, with the
    /// parameters of the match, as `spec_match` says: the router finds the
    /// route, and `serve` picks the handler.
    pub fn match_route(&self, route: &str, method: HttpMethod) -> (r: Option<
        (usize, Vec<(String, String)>),
    >)
        requires
            self.wf(),
        ensures
            spec_found_view(r) == self.spec_match(route@, method),
            r matches Some((handler, _)) ==> self.spec_serves(Target::Method(method), handler)
                || self.spec_serves(Target::All, handler),
    {
        let found = router_at(&self.router, route);
        let ghost slot = match found {
            Some((slot, _)) => slot as int,
            None => 0,
        };
        let r = serve(&self.routes, found, method);
        proof {
            if r is Some {
                assert(self.routes@[slot].spec_serving(method) == Some(r->Some_0.0));
            }
        }
        r
    }
}

/// What a connection does with a complete request.
#[derive(Debug)]
pub enum Dispatch {
    /// Call the handler of this number; the request holds the parameters
    /// of the match.
    Handler(usize),
    /// Write this response: no handler serves the request.
    Respond(Response),
}

/// A response of the given status and nothing else.
pub fn status_response(status: u16) -> (r: Response)
    ensures
        r.status == Some(status),
        r.status_message is None,
        r.headers is None,
        r.body@ == Seq::<u8>::empty(),
{
    let mut r = Response::default();
    r.status = Some(status);
    r
}

/// The response holds the status and nothing else.
pub open spec fn spec_bare(response: Response, status: u16) -> bool {
    &&& response.status == Some(status)
    &&& response.status_message is None
    &&& response.headers is None
    &&& response.body@ == Seq::<u8>::empty()
}

/// Who serves a request whose method and path are these bytes: the
/// handler that the table has for the method on the text of the path
/// without its query, with the parameters of the match. Where the method
/// is none of the nine the answer is 405, and where the table has no
/// handler it is 404.
pub open spec fn spec_dispatch(server: AouServer, method: Seq<u8>, path: Seq<u8>) -> Result<
    (usize, Seq<TextPair>),
    u16,
> {
    match spec_method_of(method) {
        Err(_) => Err(405u16),
        Ok(method) => match server.spec_match(spec_text_of(spec_route_path(path)), method) {
            Some(found) => Ok(found),
            None => Err(404u16),
        },
    }
}

impl AouServer {
    /// Decides who serves a request, as `spec_dispatch` says. Where a
    /// handler serves it, the request gets the parameters of the match;
    /// where none does, the request is unchanged and the response holds
    /// the status and nothing else.
    pub fn dispatch(&self, request: &mut Request) -> (r: Dispatch)
        requires
            self.wf(),
            old(request).wf(),
        ensures
            final(request).wf(),
            final(request).spec_buf() == old(request).spec_buf(),
            final(request).spec_head() == old(request).spec_head(),
            final(request).spec_headers() == old(request).spec_headers(),
            final(request).spec_body() == old(request).spec_body(),
            final(request).spec_options() == old(request).spec_options(),
            final(request).spec_query() == old(request).spec_query(),
            final(request).spec_context() == old(request).spec_context(),
            match spec_dispatch(
                *self,
                old(request).spec_part(old(request).spec_head().method),
                old(request).spec_part(old(request).spec_head().path),
            ) {
                Ok((handler, params)) => {
                    &&& r matches Dispatch::Handler(chosen)
                    &&& chosen == handler
                    &&& spec_texts(final(request).spec_params()) == params
                },
                Err(status) => {
                    &&& r matches Dispatch::Respond(response)
                    &&& spec_bare(response, status)
                    &&& final(request).spec_params() == old(request).spec_params()
                },
            },
            r matches Dispatch::Handler(handler) ==> spec_method_of(
                old(request).spec_part(old(request).spec_head().method),
            ) matches Ok(method) && (self.spec_serves(Target::Method(method), handler)
                || self.spec_serves(Target::All, handler)),
    {
        let method = match HttpMethod::from_byte_slice(request.method_bytes()) {
            Ok(method) => method,
            Err(_) => {
                return Dispatch::Respond(status_response(405));
            },
        };
        let path = request.route_path();
        match self.match_route(path.as_str(), method) {
            Some((handler, params)) => {
                request.set_params(params);
                Dispatch::Handler(handler)
            },
            None => Dispatch::Respond(status_response(404)),
        }
    }
}

/// The response that is written when no request came out of a
/// connection: 505 for a request of another protocol version, 400 for
/// every other refusal, and none at all after a timeout, the end of the
/// stream or its failure, where the connection is just closed.
pub open spec fn spec_refusal_status(e: HandleRequestErrorView) -> Option<u16> {
    match e {
        HandleRequestErrorView::Invalid(reason) => if reason == spec_version_reason() {
            Some(505u16)
        } else {
            Some(400u16)
        },
        _ => None,
    }
}

/// The response that is written when no request came out of a connection;
/// see `spec_refusal_status`.
pub fn refusal_response(e: &HandleRequestError) -> (r: Option<Response>)
    ensures
        match r {
            Some(response) => spec_refusal_status(e@) == response.status && response.status is Some
                && response.status_message is None && response.headers is None && response.body@
                == Seq::<u8>::empty(),
            None => spec_refusal_status(e@) is None,
        },
{
    match e {
        HandleRequestError::Invalid(reason) => {
            let other_version = "HTTP Version Not supported".to_owned();
            if *reason == other_version {
                Some(status_response(505))
            } else {
                Some(status_response(400))
            }
        },
        _ => None,
    }
}

/// What a connection does when a handler fails.
#[derive(Debug)]
pub enum HandlerFailure {
    /// The handler raised an `AouError`, and this is its JSON text: the
    /// response is the one that the error asks for.
    Raised(Vec<u8>),
    /// Write this response.
    Respond(Response),
}

/// Decides what follows the failure of a handler from the reason of the
/// failure: a reason tagged as an `AouError` carries the error, and every
/// other reason is the body of a response of status 500.
pub fn handler_failure(reason: String) -> (r: HandlerFailure)
    ensures
        match r {
            HandlerFailure::Raised(payload) => spec_error_payload(spec_text(reason@)) == Some(
                payload@,
            ),
            HandlerFailure::Respond(response) => {
                &&& spec_error_payload(spec_text(reason@)) is None
                &&& response.status == Some(500u16)
                &&& response.status_message is None
                &&& response.headers is None
                &&& response.body == ResponseBody::Text(reason)
            },
        },
{
    match error_payload(reason.as_str()) {
        Some(payload) => HandlerFailure::Raised(payload),
        None => HandlerFailure::Respond(
            Response {
                status: Some(500),
                status_message: None,
                headers: None,
                body: ResponseBody::Text(reason),
            },
        ),
    }
}

/// Whether the connection reads another request after the response to
/// this one: it does unless the request asked to close.
pub fn keep_alive(request: &Request) -> (r: bool)
    ensures
        r == (request.spec_options().connection == Connection::KeepAlive),
{
    match request.get_connection() {
        Connection::KeepAlive => true,
        Connection::Close => false,
    }
}

} // verus!
