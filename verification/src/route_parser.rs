//! Expansion of standard-route references in a route string.
//!
//! A token `$NAME` of a route stands for the standard route `NAME`, in the
//! version for the runway in use; every other token stands for itself.
use vstd::prelude::*;

use crate::airport::{RunwayRoute, StandardRoute};
use crate::text::{join, join_seq, owned, split_whitespace, split_ws, views};

verus! {

#[derive(Clone, Copy, PartialEq, Eq, Debug)]
pub enum RouteType {
    Filed,
    Flown,
}

/// A route reference that the airport data cannot resolve.
#[derive(Debug)]
pub enum RouteError {
    /// No standard route has this name.
    UnknownStandardRoute { name: String },
    /// The standard route has no version for this runway.
    NoRunwayRoute { runway: String },
}

/// What a [`RouteError`] says, over character sequences.
pub enum RouteFault {
    UnknownStandardRoute(Seq<char>),
    NoRunwayRoute(Seq<char>),
}

impl View for RouteError {
    type V = RouteFault;

    open spec fn view(&self) -> RouteFault {
        match self {
            RouteError::UnknownStandardRoute { name } => RouteFault::UnknownStandardRoute(name@),
            RouteError::NoRunwayRoute { runway } => RouteFault::NoRunwayRoute(runway@),
        }
    }
}

pub open spec fn route_fault_message(f: RouteFault) -> Seq<char> {
    match f {
        RouteFault::UnknownStandardRoute(name) => "no standard route named \""@ + name + "\""@,
        RouteFault::NoRunwayRoute(runway) => "standard route could not be found for "@ + runway,
    }
}

impl RouteError {
    /// The text of the configuration error.
    pub fn message(&self) -> (s: String)
        ensures
            s@ == route_fault_message(self@),
    {
        match self {
            RouteError::UnknownStandardRoute { name } => {
                let mut s = owned("no standard route named \"");
                s.append(name.as_str());
                s.append("\"");
                s
            },
            RouteError::NoRunwayRoute { runway } => {
                let mut s = owned("standard route could not be found for ");
                s.append(runway.as_str());
                s
            },
        }
    }
}

/// The first standard route at or after index `i` with this name.
pub open spec fn first_named(routes: Seq<StandardRoute>, name: Seq<char>, i: int) -> Option<int>
    decreases routes.len() - i,
{
    if i < 0 || i >= routes.len() {
        None
    } else if routes[i].name@ == name {
        Some(i)
    } else {
        first_named(routes, name, i + 1)
    }
}

/// Whether a runway route entry serves `runway`.
pub open spec fn serves_runway(e: RunwayRoute, runway: Seq<char>) -> bool {
    match e.runway {
        None => true,
        Some(r) => r@ == runway,
    }
}

/// The first entry at or after index `i` that serves `runway`.
pub open spec fn first_serving(entries: Seq<RunwayRoute>, runway: Seq<char>, i: int) -> Option<
    int,
>
    decreases entries.len() - i,
{
    if i < 0 || i >= entries.len() {
        None
    } else if serves_runway(entries[i], runway) {
        Some(i)
    } else {
        first_serving(entries, runway, i + 1)
    }
}

pub open spec fn runway_route_result(
    entries: Seq<RunwayRoute>,
    runway: Seq<char>,
    route_type: RouteType,
) -> Result<Seq<char>, RouteFault> {
    match first_serving(entries, runway, 0) {
        Some(i) => Ok(entries[i].route_text(route_type)),
        None => Err(RouteFault::NoRunwayRoute(runway)),
    }
}

pub open spec fn lookup_result(
    name: Seq<char>,
    route_type: RouteType,
    runway: Seq<char>,
    standard_routes: Seq<StandardRoute>,
) -> Result<Seq<char>, RouteFault> {
    match first_named(standard_routes, name, 0) {
        Some(i) => runway_route_result(standard_routes[i].routes@, runway, route_type),
        None => Err(RouteFault::UnknownStandardRoute(name)),
    }
}

/// What a single token of a route stands for.
pub open spec fn expand_token(
    token: Seq<char>,
    standard_routes: Seq<StandardRoute>,
    runway: Seq<char>,
    route_type: RouteType,
) -> Result<Seq<char>, RouteFault> {
    if token.len() > 0 && token[0] == '$' {
        lookup_result(token.subrange(1, token.len() as int), route_type, runway, standard_routes)
    } else {
        Ok(token)
    }
}

/// The expansions of the tokens, or the fault of the first token that fails.
pub open spec fn expand_tokens(
    tokens: Seq<Seq<char>>,
    standard_routes: Seq<StandardRoute>,
    runway: Seq<char>,
    route_type: RouteType,
) -> Result<Seq<Seq<char>>, RouteFault>
    decreases tokens.len(),
{
    if tokens.len() == 0 {
        Ok(seq![])
    } else {
        match expand_tokens(tokens.drop_last(), standard_routes, runway, route_type) {
            Err(e) => Err(e),
            Ok(done) => match expand_token(tokens.last(), standard_routes, runway, route_type) {
                Err(e) => Err(e),
                Ok(x) => Ok(done.push(x)),
            },
        }
    }
}

/// The expanded route: the expansions of its tokens, joined by single spaces.
pub open spec fn parsed_route(
    route: Seq<char>,
    standard_routes: Seq<StandardRoute>,
    runway: Seq<char>,
    route_type: RouteType,
) -> Result<Seq<char>, RouteFault> {
    match expand_tokens(split_ws(route), standard_routes, runway, route_type) {
        Err(e) => Err(e),
        Ok(parts) => Ok(join_seq(parts, " "@)),
    }
}

/// The version for `runway` of the standard route `name`, or the
/// configuration error that the lookup meets.
pub fn resolve_lookup(
    name: &str,
    route_type: &RouteType,
    runway: &str,
    standard_routes: &[StandardRoute],
) -> (res: Result<String, RouteError>)
    ensures
        match res {
            Ok(s) => lookup_result(name@, *route_type, runway@, standard_routes@) == Ok::<
                Seq<char>,
                RouteFault,
            >(s@),
            Err(e) => lookup_result(name@, *route_type, runway@, standard_routes@) == Err::<
                Seq<char>,
                RouteFault,
            >(e@),
        },
{
    let wanted = owned(name);
    let n = standard_routes.len();
    let mut i: usize = 0;
    while i < n
        invariant
            n == standard_routes@.len(),
            i <= n,
            wanted@ == name@,
            first_named(standard_routes@, name@, 0) == first_named(
                standard_routes@,
                name@,
                i as int,
            ),
        decreases n - i,
    {
        if standard_routes[i].name == wanted {
            return resolve_runway_route(standard_routes[i].routes.as_slice(), runway, route_type);
        }
        i = i + 1;
    }
    Err(RouteError::UnknownStandardRoute { name: wanted })
}

/// The first entry that serves `runway`, in the version for the route type,
/// or the configuration error when no entry serves it.
pub fn resolve_runway_route(
    route_entries: &[RunwayRoute],
    runway: &str,
    route_type: &RouteType,
) -> (res: Result<String, RouteError>)
    ensures
        match res {
            Ok(s) => runway_route_result(route_entries@, runway@, *route_type) == Ok::<
                Seq<char>,
                RouteFault,
            >(s@),
            Err(e) => runway_route_result(route_entries@, runway@, *route_type) == Err::<
                Seq<char>,
                RouteFault,
            >(e@),
        },
{
    let wanted = owned(runway);
    let n = route_entries.len();
    let mut i: usize = 0;
    while i < n
        invariant
            n == route_entries@.len(),
            i <= n,
            wanted@ == runway@,
            first_serving(route_entries@, runway@, 0) == first_serving(
                route_entries@,
                runway@,
                i as int,
            ),
        decreases n - i,
    {
        let e = &route_entries[i];
        let serves = match &e.runway {
            None => true,
            Some(r) => *r == wanted,
        };
        if serves {
            return Ok(e.route(route_type).clone());
        }
        i = i + 1;
    }
    Err(RouteError::NoRunwayRoute { runway: wanted })
}

/// Expands every `$NAME` token of `original_route` to the standard route
/// `NAME` for `runway`, and joins the tokens with single spaces; or gives
/// the configuration error of the first reference that does not resolve.
pub fn resolve_route(
    original_route: &str,
    standard_routes: &[StandardRoute],
    runway: &str,
    route_type: &RouteType,
) -> (res: Result<String, RouteError>)
    ensures
        match res {
            Ok(s) => parsed_route(original_route@, standard_routes@, runway@, *route_type)
                == Ok::<Seq<char>, RouteFault>(s@),
            Err(e) => parsed_route(original_route@, standard_routes@, runway@, *route_type)
                == Err::<Seq<char>, RouteFault>(e@),
        },
{
    let tokens = split_whitespace(original_route);
    let ghost toks = views(tokens@);
    let mut output: Vec<String> = Vec::new();
    let n = tokens.len();
    let mut i: usize = 0;
    assert(toks.take(0) == Seq::<Seq<char>>::empty());
    assert(views(output@) == Seq::<Seq<char>>::empty());
    while i < n
        invariant
            n == tokens@.len(),
            toks == views(tokens@),
            toks == split_ws(original_route@),
            i <= n,
            expand_tokens(toks.take(i as int), standard_routes@, runway@, *route_type) == Ok::<
                Seq<Seq<char>>,
                RouteFault,
            >(views(output@)),
        decreases n - i,
    {
        let token = tokens[i].as_str();
        assert(toks.take(i as int + 1).drop_last() == toks.take(i as int));
        assert(toks.take(i as int + 1).last() == token@);
        let len = token.unicode_len();
        if len > 0 && token.get_char(0) == '$' {
            let name = token.substring_char(1, len);
            match resolve_lookup(name, route_type, runway, standard_routes) {
                Ok(s) => {
                    let ghost before = output@;
                    output.push(s);
                    assert(views(output@) == views(before).push(s@));
                },
                Err(e) => {
                    assert(name@ == token@.subrange(1, token@.len() as int));
                    assert(expand_token(token@, standard_routes@, runway@, *route_type) == Err::<
                        Seq<char>,
                        RouteFault,
                    >(e@));
                    assert(expand_tokens(toks.take(i as int + 1), standard_routes@, runway@, *route_type) == Err::<
                        Seq<Seq<char>>,
                        RouteFault,
                    >(e@));
                    proof {
                        lemma_expand_error_persists(
                            toks,
                            i as int + 1,
                            standard_routes@,
                            runway@,
                            *route_type,
                        );
                    }
                    return Err(e);
                },
            }
        } else {
            let ghost before = output@;
            output.push(owned(token));
            assert(views(output@) == views(before).push(token@));
        }
        i = i + 1;
    }
    assert(toks.take(n as int) == toks);
    Ok(join(&output, " "))
}

/// Once a prefix of the tokens fails to expand, every longer prefix fails the same way.
proof fn lemma_expand_error_persists(
    toks: Seq<Seq<char>>,
    k: int,
    standard_routes: Seq<StandardRoute>,
    runway: Seq<char>,
    route_type: RouteType,
)
    requires
        0 <= k <= toks.len(),
        expand_tokens(toks.take(k), standard_routes, runway, route_type) is Err,
    ensures
        expand_tokens(toks, standard_routes, runway, route_type) == expand_tokens(
            toks.take(k),
            standard_routes,
            runway,
            route_type,
        ),
    decreases toks.len() - k,
{
    if k < toks.len() {
        assert(toks.take(k + 1).drop_last() == toks.take(k));
        lemma_expand_error_persists(toks, k + 1, standard_routes, runway, route_type);
    } else {
        assert(toks.take(k) == toks);
    }
}

/// The version for `runway` of the standard route `name`. A standard route
/// of that name, with an entry that serves the runway, must exist: see
/// [`resolve_lookup`] for the check.
pub fn lookup(
    name: &str,
    route_type: &RouteType,
    runway: &str,
    standard_routes: &[StandardRoute],
) -> (s: String)
    requires
        lookup_result(name@, *route_type, runway@, standard_routes@) is Ok,
    ensures
        lookup_result(name@, *route_type, runway@, standard_routes@) == Ok::<Seq<char>, RouteFault>(
            s@,
        ),
{
    match resolve_lookup(name, route_type, runway, standard_routes) {
        Ok(s) => s,
        Err(_) => {
            proof {
                assert(false);
            }
            String::new()
        },
    }
}

/// The first entry that serves `runway`, in the version for the route type.
/// An entry that serves the runway must exist: see [`resolve_runway_route`]
/// for the check.
pub fn find_runway_route(route_entries: &[RunwayRoute], runway: &str, route_type: &RouteType) -> (s:
    String)
    requires
        runway_route_result(route_entries@, runway@, *route_type) is Ok,
    ensures
        runway_route_result(route_entries@, runway@, *route_type) == Ok::<Seq<char>, RouteFault>(
            s@,
        ),
{
    match resolve_runway_route(route_entries, runway, route_type) {
        Ok(s) => s,
        Err(_) => {
            proof {
                assert(false);
            }
            String::new()
        },
    }
}

/// Expands every `$NAME` token of `original_route` to the standard route
/// `NAME` for `runway`, and joins the tokens with single spaces. Every
/// reference must resolve: see [`resolve_route`] for the check.
pub fn route_parser(
    original_route: &str,
    standard_routes: &[StandardRoute],
    runway: &str,
    route_type: &RouteType,
) -> (s: String)
    requires
        parsed_route(original_route@, standard_routes@, runway@, *route_type) is Ok,
    ensures
        parsed_route(original_route@, standard_routes@, runway@, *route_type) == Ok::<
            Seq<char>,
            RouteFault,
        >(s@),
{
    match resolve_route(original_route, standard_routes, runway, route_type) {
        Ok(s) => s,
        Err(_) => {
            proof {
                assert(false);
            }
            String::new()
        },
    }
}

} // verus!
