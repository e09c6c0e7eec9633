//! Properties of the library that span its functions.
use vstd::prelude::*;

use crate::airport::{Airline, StandardRoute};
use crate::aircraft::{FlightRule, FlightType};
use crate::airport::{controller_line, custom_route_line, hold_line, runway_line, Airport};
use crate::generator::{
    min_len, placed_departures, scenario_text, scheduled_app_departures, scheduled_arrivals,
    slots, traffic_text, vfr_configured, PseudoPilotCheck, StagedAircraft, StagedGroundVfr,
};
use crate::airport::LocalVfr;
use crate::aircraft::Aircraft;
use crate::text::{decimal, signed_decimal};
use crate::stands::{first_preferred_stand, preferred_terminal_ids, stand_allocation, DepartureStand};
use crate::update_check::{find_from, tag_version, tidied};
use crate::route_parser::{expand_token, expand_tokens, parsed_route, RouteFault, RouteType};
use crate::text::{is_ws, join_seq, split_ws, token_end, tokens_from, lemma_token_end_bounds};

verus! {

/// A token that refers to a standard route.
pub open spec fn is_reference(t: Seq<char>) -> bool {
    t.len() > 0 && t[0] == '$'
}

/// A token as `split_ws` yields them: not empty, without whitespace.
pub open spec fn is_plain_token(t: Seq<char>) -> bool {
    t.len() > 0 && forall|k: int| 0 <= k < t.len() ==> !is_ws(#[trigger] t[k])
}

proof fn lemma_token_end_plain(s: Seq<char>, i: int)
    requires
        0 <= i <= s.len(),
        forall|k: int| i <= k < s.len() ==> !is_ws(#[trigger] s[k]),
    ensures
        token_end(s, i) == s.len(),
    decreases s.len() - i,
{
    if i < s.len() {
        lemma_token_end_plain(s, i + 1);
    }
}

proof fn lemma_token_end_prefix(a: Seq<char>, s: Seq<char>, k: int)
    requires
        0 <= k <= a.len(),
        a.len() < s.len(),
        s.take(a.len() as int) == a,
        is_ws(s[a.len() as int]),
    ensures
        token_end(s, k) == token_end(a, k),
    decreases a.len() - k,
{
    if k < a.len() {
        assert(s[k] == a[k]);
        lemma_token_end_prefix(a, s, k + 1);
    }
}

/// Where whitespace follows `a` in `s`, the tokens of `s` from `i` on are
/// those of `a` and then those after `a`.
proof fn lemma_tokens_prefix(a: Seq<char>, s: Seq<char>, i: int)
    requires
        0 <= i <= a.len(),
        a.len() < s.len(),
        s.take(a.len() as int) == a,
        is_ws(s[a.len() as int]),
    ensures
        tokens_from(s, i) == tokens_from(a, i) + tokens_from(s, a.len() as int),
    decreases a.len() - i,
{
    if i < a.len() {
        assert(s[i] == a[i]);
        if is_ws(a[i]) {
            lemma_tokens_prefix(a, s, i + 1);
        } else {
            lemma_token_end_prefix(a, s, i + 1);
            lemma_token_end_bounds(a, i + 1);
            let e = token_end(a, i + 1);
            lemma_tokens_prefix(a, s, e);
            assert(s.subrange(i, e) == a.subrange(i, e));
            assert(tokens_from(s, i) == seq![s.subrange(i, e)] + tokens_from(s, e));
            assert(tokens_from(a, i) == seq![a.subrange(i, e)] + tokens_from(a, e));
            assert(seq![a.subrange(i, e)] + (tokens_from(a, e) + tokens_from(s, a.len() as int))
                == (seq![a.subrange(i, e)] + tokens_from(a, e)) + tokens_from(s, a.len() as int));
        }
    } else {
        assert(tokens_from(a, i) == Seq::<Seq<char>>::empty());
        assert(Seq::<Seq<char>>::empty() + tokens_from(s, i) == tokens_from(s, i));
    }
}

proof fn lemma_split_single(x: Seq<char>)
    requires
        is_plain_token(x),
    ensures
        split_ws(x) == seq![x],
{
    lemma_token_end_plain(x, 1);
    assert(x.subrange(0, x.len() as int) == x);
    assert(tokens_from(x, x.len() as int) == Seq::<Seq<char>>::empty());
}

proof fn lemma_split_append(a: Seq<char>, x: Seq<char>)
    requires
        is_plain_token(x),
    ensures
        split_ws(a + " "@ + x) == split_ws(a).push(x),
{
    reveal_strlit(" ");
    let s = a + " "@ + x;
    assert(s.take(a.len() as int) == a);
    assert(s[a.len() as int] == ' ');
    lemma_tokens_prefix(a, s, 0);
    let j: int = a.len() as int + 1;
    assert forall|k: int| j + 1 <= k < s.len() implies !is_ws(#[trigger] s[k]) by {
        assert(s[k] == x[k - j]);
    }
    assert(!is_ws(s[j])) by {
        assert(s[j] == x[0]);
    }
    lemma_token_end_plain(s, j + 1);
    assert(s.subrange(j, s.len() as int) == x);
    assert(tokens_from(s, s.len() as int) == Seq::<Seq<char>>::empty());
    assert(tokens_from(s, j) == seq![x]);
    assert(tokens_from(s, a.len() as int) == seq![x]);
}

/// Splitting a single-spaced join of plain tokens gives back the tokens.
pub proof fn law_split_join(tokens: Seq<Seq<char>>)
    requires
        forall|k: int| 0 <= k < tokens.len() ==> is_plain_token(#[trigger] tokens[k]),
    ensures
        split_ws(join_seq(tokens, " "@)) == tokens,
    decreases tokens.len(),
{
    if tokens.len() == 0 {
        assert(split_ws(Seq::<char>::empty()) == Seq::<Seq<char>>::empty());
    } else if tokens.len() == 1 {
        lemma_split_single(tokens[0]);
    } else {
        let init = tokens.drop_last();
        assert forall|k: int| 0 <= k < init.len() implies is_plain_token(#[trigger] init[k]) by {
            assert(init[k] == tokens[k]);
        }
        law_split_join(init);
        lemma_split_append(join_seq(init, " "@), tokens.last());
        assert(init.push(tokens.last()) == tokens);
    }
}

proof fn lemma_tokens_from_plain(s: Seq<char>, i: int)
    requires
        0 <= i,
    ensures
        forall|k: int|
            0 <= k < tokens_from(s, i).len() ==> is_plain_token(#[trigger] tokens_from(s, i)[k]),
    decreases s.len() - i,
{
    if i < s.len() {
        if is_ws(s[i]) {
            lemma_tokens_from_plain(s, i + 1);
            assert(tokens_from(s, i) == tokens_from(s, i + 1));
        } else {
            lemma_token_end_bounds(s, i + 1);
            let e = token_end(s, i + 1);
            lemma_tokens_from_plain(s, e);
            let t = s.subrange(i, e);
            assert(is_plain_token(t)) by {
                assert forall|k: int| 0 <= k < t.len() implies !is_ws(#[trigger] t[k]) by {
                    lemma_token_end_no_ws(s, i + 1, i + k);
                }
            }
            let rest = tokens_from(s, e);
            assert(tokens_from(s, i) == seq![t] + rest);
            assert forall|k: int|
                0 <= k < (seq![t] + rest).len() implies is_plain_token(
                #[trigger] (seq![t] + rest)[k],
            ) by {
                if k > 0 {
                    assert((seq![t] + rest)[k] == rest[k - 1]);
                }
            }
        }
    }
}

proof fn lemma_token_end_no_ws(s: Seq<char>, i: int, k: int)
    requires
        0 <= i,
        i - 1 <= k < token_end(s, i),
        i - 1 < s.len(),
        i - 1 == k ==> !is_ws(s[k]),
    ensures
        !is_ws(s[k]),
    decreases s.len() - i,
{
    if k >= i && i < s.len() && !is_ws(s[i]) {
        lemma_token_end_no_ws(s, i + 1, k);
    }
}

/// Every token of a split is plain.
pub proof fn law_split_tokens_plain(s: Seq<char>)
    ensures
        forall|k: int| 0 <= k < split_ws(s).len() ==> is_plain_token(#[trigger] split_ws(s)[k]),
{
    lemma_tokens_from_plain(s, 0);
}

proof fn lemma_expand_plain(
    tokens: Seq<Seq<char>>,
    standard_routes: Seq<StandardRoute>,
    runway: Seq<char>,
    route_type: RouteType,
)
    requires
        forall|k: int| 0 <= k < tokens.len() ==> !is_reference(#[trigger] tokens[k]),
    ensures
        expand_tokens(tokens, standard_routes, runway, route_type) == Ok::<
            Seq<Seq<char>>,
            RouteFault,
        >(tokens),
    decreases tokens.len(),
{
    if tokens.len() > 0 {
        let init = tokens.drop_last();
        assert forall|k: int| 0 <= k < init.len() implies !is_reference(#[trigger] init[k]) by {
            assert(init[k] == tokens[k]);
        }
        lemma_expand_plain(init, standard_routes, runway, route_type);
        assert(!is_reference(tokens[tokens.len() - 1]));
        assert(tokens.last() == tokens[tokens.len() - 1]);
        assert(expand_token(tokens.last(), standard_routes, runway, route_type) == Ok::<
            Seq<char>,
            RouteFault,
        >(tokens.last()));
        assert(init.push(tokens.last()) == tokens);
    } else {
        assert(tokens == Seq::<Seq<char>>::empty());
    }
}

/// A route without standard-route references expands to its own tokens,
/// single-spaced, whatever the standard routes, the runway and the route type.
pub proof fn law_plain_route_expands_to_itself(
    route: Seq<char>,
    standard_routes: Seq<StandardRoute>,
    runway: Seq<char>,
    route_type: RouteType,
)
    requires
        forall|k: int| 0 <= k < split_ws(route).len() ==> !is_reference(#[trigger] split_ws(route)[k]),
    ensures
        parsed_route(route, standard_routes, runway, route_type) == Ok::<Seq<char>, RouteFault>(
            join_seq(split_ws(route), " "@),
        ),
{
    lemma_expand_plain(split_ws(route), standard_routes, runway, route_type);
}

/// Expanding the expansion of a route without references changes nothing.
pub proof fn law_plain_route_expansion_idempotent(
    route: Seq<char>,
    standard_routes: Seq<StandardRoute>,
    runway: Seq<char>,
    route_type: RouteType,
)
    requires
        forall|k: int| 0 <= k < split_ws(route).len() ==> !is_reference(#[trigger] split_ws(route)[k]),
    ensures
        parsed_route(route, standard_routes, runway, route_type) matches Ok(r) && parsed_route(
            r,
            standard_routes,
            runway,
            route_type,
        ) == Ok::<Seq<char>, RouteFault>(r),
{
    let toks = split_ws(route);
    law_plain_route_expands_to_itself(route, standard_routes, runway, route_type);
    law_split_tokens_plain(route);
    law_split_join(toks);
    let r = join_seq(toks, " "@);
    law_plain_route_expands_to_itself(r, standard_routes, runway, route_type);
}

/// A reference token expands to the looked-up route; any other token to itself.
pub proof fn law_token_expansion(
    token: Seq<char>,
    standard_routes: Seq<StandardRoute>,
    runway: Seq<char>,
    route_type: RouteType,
)
    requires
        !is_reference(token),
    ensures
        expand_token(token, standard_routes, runway, route_type) == Ok::<Seq<char>, RouteFault>(
            token,
        ),
{
}

// ---------------------------------------------------------------------------
// Stands
// ---------------------------------------------------------------------------

proof fn lemma_first_preferred_stand(stands: Seq<DepartureStand>, terminals: Seq<u32>, i: int)
    requires
        0 <= i,
    ensures
        match first_preferred_stand(stands, terminals, i) {
            Some(j) => i <= j < stands.len() && terminals.contains(stands[j].terminal),
            None => forall|k: int|
                i <= k < stands.len() ==> !terminals.contains(#[trigger] stands[k].terminal),
        },
    decreases stands.len() - i,
{
    if i < stands.len() && !terminals.contains(stands[i].terminal) {
        lemma_first_preferred_stand(stands, terminals, i + 1);
    }
}

/// A departure gets a stand whenever one is left, and one of a terminal its
/// airline prefers whenever one of those is left; the stands left and the
/// stand given are, together, the stands there were.
pub proof fn law_stand_allocation(
    stands: Seq<DepartureStand>,
    callsign: Seq<char>,
    airlines: Seq<Airline>,
)
    ensures
        ({
            let (rest, got) = stand_allocation(stands, callsign, airlines);
            let preferred = preferred_terminal_ids(callsign, airlines);
            &&& got is Some <==> stands.len() > 0
            &&& (exists|k: int|
                0 <= k < stands.len() && preferred.contains(#[trigger] stands[k].terminal)) ==> (
            got matches Some(x) && preferred.contains(x.terminal))
            &&& got matches Some(x) ==> rest.push(x).to_multiset() == stands.to_multiset()
                && rest.len() + 1 == stands.len()
            &&& got is None ==> rest == stands
        }),
{
    broadcast use vstd::seq_lib::group_to_multiset_ensures;
    broadcast use vstd::multiset::group_multiset_axioms;

    let preferred = preferred_terminal_ids(callsign, airlines);
    lemma_first_preferred_stand(stands, preferred, 0);
    let (rest, got) = stand_allocation(stands, callsign, airlines);
    match first_preferred_stand(stands, preferred, 0) {
        Some(i) => {
            stands.to_multiset_ensures();
            assert(stands.remove(i).to_multiset() =~= stands.to_multiset().remove(stands[i]));
            assert(stands.to_multiset().count(stands[i]) > 0) by {
                assert(stands.contains(stands[i]));
            }
            assert(rest.push(stands[i]).to_multiset() =~= stands.to_multiset());
        },
        None => {
            if stands.len() > 0 {
                assert(stands.drop_last().push(stands.last()) == stands);
            }
        },
    }
}

/// No more departures get a stand than there are stands.
pub proof fn law_departures_fit_stands(
    staged: Seq<StagedAircraft>,
    stands: Seq<DepartureStand>,
    airlines: Seq<Airline>,
    icao: String,
    altitude: u16,
    pseudo: String,
)
    ensures
        placed_departures(staged, stands, airlines, icao, altitude, pseudo).len() <= stands.len(),
        placed_departures(staged, stands, airlines, icao, altitude, pseudo).len() <= staged.len(),
    decreases staged.len(),
{
    if staged.len() > 0 {
        let (rest, got) = stand_allocation(stands, staged[0].callsign@, airlines);
        law_stand_allocation(stands, staged[0].callsign@, airlines);
        law_departures_fit_stands(staged.drop_first(), rest, airlines, icao, altitude, pseudo);
    }
}

// ---------------------------------------------------------------------------
// Staging
// ---------------------------------------------------------------------------

pub open spec fn total(counts: Seq<nat>) -> nat
    decreases counts.len(),
{
    if counts.len() == 0 {
        0
    } else {
        total(counts.drop_last()) + counts.last()
    }
}

/// Staging yields one aircraft per callsign of the routes it stages from.
pub proof fn law_one_slot_per_callsign(counts: Seq<nat>)
    ensures
        slots(counts).len() == total(counts),
    decreases counts.len(),
{
    if counts.len() > 0 {
        law_one_slot_per_callsign(counts.drop_last());
    }
}

// ---------------------------------------------------------------------------
// Update check
// ---------------------------------------------------------------------------

proof fn lemma_find_from(s: Seq<char>, p: Seq<char>, k: int)
    requires
        0 <= k,
    ensures
        match find_from(s, p, k) {
            Some(i) => k <= i && i + p.len() <= s.len() && s.subrange(i, i + p.len() as int)
                == p && forall|j: int|
                k <= j < i ==> #[trigger] s.subrange(j, j + p.len() as int) != p,
            None => forall|j: int|
                k <= j && j + p.len() <= s.len() ==> #[trigger] s.subrange(j, j + p.len() as int)
                    != p,
        },
    decreases s.len() + 1 - k,
{
    if k + p.len() <= s.len() && s.subrange(k, k + p.len() as int) != p {
        lemma_find_from(s, p, k + 1);
    }
}

/// Tidying an error message that is already tidy changes nothing.
pub proof fn law_tidy_error_idempotent(error: Seq<char>)
    ensures
        tidied(tidied(error)) == tidied(error),
{
    let p = " for url ("@;
    lemma_find_from(error, p, 0);
    match find_from(error, p, 0) {
        Some(i) => {
            let t = error.take(i);
            lemma_find_from(t, p, 0);
            if find_from(t, p, 0) is Some {
                let j = find_from(t, p, 0)->0;
                assert(t.subrange(j, j + p.len() as int) == error.subrange(j, j + p.len() as int));
            }
        },
        None => {},
    }
}

/// A release tagged with the running version, with or without a leading
/// `v`, is no update.
pub proof fn law_same_version_is_no_update(version: Seq<char>)
    ensures
        tag_version(seq!['v'] + version) == version,
        version.len() == 0 || version[0] != 'v' ==> tag_version(version) == version,
{
    assert((seq!['v'] + version).subrange(1, version.len() as int + 1) == version);
}

// ---------------------------------------------------------------------------
// Mentor callsign
// ---------------------------------------------------------------------------

/// A mentor callsign that the check turned down passes when it is entered
/// again.
pub proof fn law_rejected_callsign_passes_next(check: PseudoPilotCheck, input: String)
    requires
        check.force == Some(input),
    ensures
        check.accepts(input@),
{
}

/// Each scheduled arrival is the staged aircraft of the same place, spawned
/// at the time of the same place: it keeps the callsign, type, outstation as
/// origin, filed route, flown route (the position route) and cruise level of
/// the staged aircraft, spawns at its spawn point and altitude, and flies to
/// the airport under IFR.
pub proof fn law_scheduled_arrival_fields(
    staged: Seq<StagedAircraft>,
    times: Seq<u16>,
    icao: String,
    pseudo: String,
)
    ensures
        scheduled_arrivals(staged, times, icao, pseudo).len() == min_len(staged.len(), times.len()),
        forall|k: int|
            0 <= k < min_len(staged.len(), times.len()) ==> {
                let a = #[trigger] scheduled_arrivals(staged, times, icao, pseudo)[k];
                &&& a.flight_type == FlightType::Arrival
                &&& a.flight_rule == FlightRule::I
                &&& a.callsign == staged[k].callsign
                &&& a.aircraft_type == staged[k].aircraft_type
                &&& a.origin == staged[k].outstation
                &&& a.dest == icao
                &&& a.filed_route == staged[k].filed_route
                &&& a.flown_route == staged[k].flown_route
                &&& a.rfl == Some(staged[k].rfl)
                &&& Some(a.spawn_coords) == staged[k].spawn_coords || staged[k].spawn_coords is None
                &&& Some(a.spawn_altitude) == staged[k].spawn_alt || staged[k].spawn_alt is None
                &&& a.start == times[k]
                &&& a.squawk is None
                &&& a.spawn_hdg is None
                &&& a.tas == Some(250u16)
                &&& a.delay is None
                &&& a.has_flight_plan
                &&& a.initial_pseudo_pilot == pseudo
            },
{
}

/// Each scheduled radar departure is the staged aircraft of the same place,
/// spawned at the time of the same place at the runway's departure point and
/// the given altitude: it keeps the callsign, type, filed route, flown route
/// and cruise level, leaves the airport and flies to the outstation under IFR.
pub proof fn law_scheduled_app_departure_fields(
    staged: Seq<StagedAircraft>,
    times: Seq<u16>,
    icao: String,
    dep_spawn: String,
    altitude: u16,
    pseudo: String,
)
    ensures
        scheduled_app_departures(staged, times, icao, dep_spawn, altitude, pseudo).len()
            == min_len(staged.len(), times.len()),
        forall|k: int|
            0 <= k < min_len(staged.len(), times.len()) ==> {
                let a = #[trigger] scheduled_app_departures(
                    staged,
                    times,
                    icao,
                    dep_spawn,
                    altitude,
                    pseudo,
                )[k];
                &&& a.flight_type == FlightType::Departure
                &&& a.flight_rule == FlightRule::I
                &&& a.callsign == staged[k].callsign
                &&& a.aircraft_type == staged[k].aircraft_type
                &&& a.origin == icao
                &&& a.dest == staged[k].outstation
                &&& a.filed_route == staged[k].filed_route
                &&& a.flown_route == staged[k].flown_route
                &&& a.rfl == Some(staged[k].rfl)
                &&& a.spawn_coords == dep_spawn
                &&& a.spawn_altitude == altitude
                &&& a.start == times[k]
                &&& a.squawk is None
                &&& a.spawn_hdg is None
                &&& a.tas == Some(250u16)
                &&& a.delay is None
                &&& a.has_flight_plan
                &&& a.initial_pseudo_pilot == pseudo
            },
{
}

/// `a` is the tower departure of staged aircraft `s`, waiting on a stand
/// with these coordinates and heading.
pub open spec fn departs_on_stand(
    a: Aircraft,
    s: StagedAircraft,
    stand: DepartureStand,
    icao: String,
    altitude: u16,
    pseudo: String,
) -> bool {
    &&& a.flight_type == FlightType::Departure
    &&& a.flight_rule == FlightRule::I
    &&& a.callsign == s.callsign
    &&& a.aircraft_type == s.aircraft_type
    &&& a.origin == icao
    &&& a.dest == s.outstation
    &&& a.filed_route == s.filed_route
    &&& a.flown_route == s.flown_route
    &&& a.rfl == Some(s.rfl)
    &&& a.spawn_coords == stand.coords
    &&& a.spawn_hdg == Some(stand.heading)
    &&& a.spawn_altitude == altitude
    &&& a.squawk == Some(0o2000u16)
    &&& a.start == 0
    &&& a.tas == Some(250u16)
    &&& a.delay is None
    &&& a.has_flight_plan
    &&& a.initial_pseudo_pilot == pseudo
}

/// `a` is the tower departure of staged aircraft `s`, on one of the stands.
pub open spec fn departs_from(
    a: Aircraft,
    s: StagedAircraft,
    stands: Seq<DepartureStand>,
    icao: String,
    altitude: u16,
    pseudo: String,
) -> bool {
    exists|j: int|
        0 <= j < stands.len() && #[trigger] departs_on_stand(a, s, stands[j], icao, altitude, pseudo)
}

proof fn lemma_placed_departures_len(
    staged: Seq<StagedAircraft>,
    stands: Seq<DepartureStand>,
    airlines: Seq<Airline>,
    icao: String,
    altitude: u16,
    pseudo: String,
)
    ensures
        placed_departures(staged, stands, airlines, icao, altitude, pseudo).len() == min_len(
            staged.len(),
            stands.len(),
        ),
    decreases staged.len(),
{
    if staged.len() > 0 {
        let (rest, got) = stand_allocation(stands, staged[0].callsign@, airlines);
        law_stand_allocation(stands, staged[0].callsign@, airlines);
        lemma_placed_departures_len(staged.drop_first(), rest, airlines, icao, altitude, pseudo);
    }
}

proof fn lemma_placed_departure_at(
    staged: Seq<StagedAircraft>,
    stands: Seq<DepartureStand>,
    airlines: Seq<Airline>,
    icao: String,
    altitude: u16,
    pseudo: String,
    k: int,
)
    requires
        0 <= k < placed_departures(staged, stands, airlines, icao, altitude, pseudo).len(),
    ensures
        departs_from(
            placed_departures(staged, stands, airlines, icao, altitude, pseudo)[k],
            staged[k],
            stands,
            icao,
            altitude,
            pseudo,
        ),
    decreases staged.len(),
{
    let v = placed_departures(staged, stands, airlines, icao, altitude, pseudo);
    let (rest, got) = stand_allocation(stands, staged[0].callsign@, airlines);
    let st = staged.drop_first();
    let tail = placed_departures(st, rest, airlines, icao, altitude, pseudo);
    let terminals = preferred_terminal_ids(staged[0].callsign@, airlines);
    lemma_first_preferred_stand(stands, terminals, 0);
    law_stand_allocation(stands, staged[0].callsign@, airlines);
    lemma_placed_departures_len(staged, stands, airlines, icao, altitude, pseudo);
    if k == 0 {
        let gi: int = match first_preferred_stand(stands, terminals, 0) {
            Some(i) => i,
            None => stands.len() - 1,
        };
        assert(stands[gi] == got->0);
        assert(departs_on_stand(v[0], staged[0], stands[gi], icao, altitude, pseudo));
        assert(departs_from(v[k], staged[k], stands, icao, altitude, pseudo));
    } else {
        assert(v[k] == tail[k - 1]);
        lemma_placed_departure_at(st, rest, airlines, icao, altitude, pseudo, k - 1);
        assert(departs_from(tail[k - 1], st[k - 1], rest, icao, altitude, pseudo));
        let j = choose|j: int|
            0 <= j < rest.len() && #[trigger] departs_on_stand(
                tail[k - 1],
                st[k - 1],
                rest[j],
                icao,
                altitude,
                pseudo,
            );
        let m: int = match first_preferred_stand(stands, terminals, 0) {
            Some(p) => if j < p { j } else { j + 1 },
            None => j,
        };
        assert(rest[j] == stands[m]);
        assert(st[k - 1] == staged[k]);
        assert(departs_on_stand(v[k], staged[k], stands[m], icao, altitude, pseudo));
        assert(departs_from(v[k], staged[k], stands, icao, altitude, pseudo));
    }
}

/// As many tower departures are placed as there are staged departures and
/// stands, whichever is fewer; the k-th is the k-th staged departure, filed
/// from the airport to its outstation with its routes, and waits on one of
/// the stands there were.
pub proof fn law_placed_departure_fields(
    staged: Seq<StagedAircraft>,
    stands: Seq<DepartureStand>,
    airlines: Seq<Airline>,
    icao: String,
    altitude: u16,
    pseudo: String,
)
    ensures
        placed_departures(staged, stands, airlines, icao, altitude, pseudo).len() == min_len(
            staged.len(),
            stands.len(),
        ),
        forall|k: int|
            0 <= k < placed_departures(staged, stands, airlines, icao, altitude, pseudo).len()
                ==> departs_from(
                #[trigger] placed_departures(staged, stands, airlines, icao, altitude, pseudo)[k],
                staged[k],
                stands,
                icao,
                altitude,
                pseudo,
            ),
{
    lemma_placed_departures_len(staged, stands, airlines, icao, altitude, pseudo);
    assert forall|k: int|
        0 <= k < placed_departures(staged, stands, airlines, icao, altitude, pseudo).len()
        implies departs_from(
        #[trigger] placed_departures(staged, stands, airlines, icao, altitude, pseudo)[k],
        staged[k],
        stands,
        icao,
        altitude,
        pseudo,
    ) by {
        lemma_placed_departure_at(staged, stands, airlines, icao, altitude, pseudo, k);
    }
}

/// `a` is the ground VFR aircraft `g` on the spawn point `coords` at
/// `altitude`: its callsign and type, its flight plan's departure,
/// destination, route and altitude, no route to fly, and the VFR code.
pub open spec fn flies_ground_plan(
    a: Aircraft,
    g: StagedGroundVfr,
    coords: String,
    altitude: u16,
    pseudo: Seq<char>,
) -> bool {
    &&& a.flight_type == FlightType::Local
    &&& a.flight_rule == FlightRule::V
    &&& a.callsign == g.callsign
    &&& a.aircraft_type == g.aircraft_type
    &&& a.spawn_coords == coords
    &&& a.spawn_altitude == altitude
    &&& a.origin == g.flight_plan.dep
    &&& a.dest == g.flight_plan.dest
    &&& a.filed_route == g.flight_plan.route
    &&& a.rfl == Some(g.flight_plan.alt)
    &&& a.flown_route@.len() == 0
    &&& a.squawk == Some(0o7000u16)
    &&& a.spawn_hdg is None
    &&& a.tas == Some(120u16)
    &&& a.start == 0
    &&& a.delay is None
    &&& a.has_flight_plan
    &&& a.initial_pseudo_pilot@ == pseudo
}

/// The VFR traffic keeps what the airport data and the user gave: the local
/// aircraft (where the airport has local traffic) come first, each with its
/// callsign, type, spawn point and altitude, route, and a flight plan from its
/// plan's departure to its destination along the plan's route at the plan's
/// altitude; then each configured ground aircraft, in order, on the spawn
/// point of the same place, at the airport elevation, with its flight plan's
/// departure, destination, route and altitude, and no route to fly.
pub proof fn law_vfr_traffic_fields(
    airport: Airport,
    local: Seq<LocalVfr>,
    ground: Seq<StagedGroundVfr>,
    pseudo: Seq<char>,
    v: Seq<Aircraft>,
)
    requires
        vfr_configured(airport, local, ground, pseudo, v),
    ensures
        airport.local_vfr is Some ==> forall|k: int|
            0 <= k < local.len() ==> {
                let a = #[trigger] v[k];
                &&& a.flight_type == FlightType::Local
                &&& a.flight_rule == FlightRule::V
                &&& a.callsign == local[k].callsign
                &&& a.aircraft_type == local[k].aircraft_type
                &&& a.spawn_coords == local[k].spawn_coords
                &&& a.spawn_altitude == local[k].spawn_alt
                &&& a.origin == local[k].flight_plan.dep
                &&& a.dest == local[k].flight_plan.dest
                &&& a.filed_route == local[k].flight_plan.route
                &&& a.rfl == Some(local[k].flight_plan.alt)
                &&& a.flown_route == local[k].route
                &&& a.squawk == Some(0o7000u16)
                &&& a.spawn_hdg is None
                &&& a.tas == Some(120u16)
                &&& a.start == 0
                &&& a.delay is None
                &&& a.has_flight_plan == (local[k].flight_plan.dep@.len() > 0)
                &&& a.initial_pseudo_pilot@ == pseudo
            },
        forall|m: int|
            #![trigger v[m]]
            (if airport.local_vfr is Some { local.len() as int } else { 0 }) <= m < v.len() ==> {
                let k = m - (if airport.local_vfr is Some { local.len() as int } else { 0 });
                &&& airport.ground_vfr is Some
                &&& 0 <= k < ground.len()
                &&& k < airport.ground_vfr->0.spawn_coords@.len()
                &&& flies_ground_plan(
                    v[m],
                    ground[k],
                    airport.ground_vfr->0.spawn_coords@[k],
                    airport.elevation_ft,
                    pseudo,
                )
            },
{
    let base = if airport.local_vfr is Some { local.len() as int } else { 0 };
    assert forall|m: int| #![trigger v[m]] base <= m < v.len() implies {
        let k = m - base;
        &&& airport.ground_vfr is Some
        &&& 0 <= k < ground.len()
        &&& k < airport.ground_vfr->0.spawn_coords@.len()
        &&& flies_ground_plan(
            v[m],
            ground[k],
            airport.ground_vfr->0.spawn_coords@[k],
            airport.elevation_ft,
            pseudo,
        )
    } by {
        let k = m - base;
        assert(v[base + k] == v[m]);
    }
}

/// The scenario file, section by section, as its lines are made of the
/// airport's fields: the banner, the elevation, one `ILS` line per runway,
/// one `HOLDING` line per hold, one `ROUTE` line per custom route, one
/// `CONTROLLER` entry per controller, each in order, then the traffic and the
/// aircraft performance data.
pub proof fn law_scenario_sections(airport: Airport, aircraft: Seq<Aircraft>, perf: Seq<char>)
    ensures
        scenario_text(airport, aircraft, perf) == "; ----- Made using https://github.com/frazerxyz/sb_scenario_generator -----"@
            + "\n\nPSEUDOPILOT:ALL\n\n"@ + "AIRPORT_ALT:"@ + airport.elevation_text@ + "\n\n"@
            + join_seq(
            Seq::new(
                airport.runways@.len(),
                |i: int|
                    "ILS"@ + airport.runways@[i].designator@ + ":"@ + airport.runways@[i].threshold@
                        + ":"@ + airport.runways@[i].track@,
            ),
            "\n"@,
        ) + "\n\n"@ + join_seq(
            Seq::new(
                airport.holds@.len(),
                |i: int|
                    "HOLDING:"@ + airport.holds@[i].fix@ + ":"@ + decimal(
                        airport.holds@[i].inbound as nat,
                    ) + ":"@ + signed_decimal(airport.holds@[i].direction.spec_to_i8() as int),
            ),
            "\n"@,
        ) + "\n\n"@ + join_seq(
            Seq::new(
                airport.custom_routes@.len(),
                |i: int|
                    "ROUTE:"@ + airport.custom_routes@[i].name@ + ":"@
                        + airport.custom_routes@[i].route@,
            ),
            "\n"@,
        ) + "\n\n"@ + join_seq(
            Seq::new(
                airport.controllers@.len(),
                |i: int|
                    "PSEUDOPILOT:ALL\nCONTROLLER:"@ + airport.controllers@[i].callsign@ + ":"@
                        + airport.controllers@[i].frequency@,
            ),
            "\n"@,
        ) + "\n\n"@ + traffic_text(aircraft) + "\n\n"@ + perf,
{
    assert(Seq::new(airport.runways@.len(), |i: int| runway_line(airport.runways@[i])) =~= Seq::new(
        airport.runways@.len(),
        |i: int|
            "ILS"@ + airport.runways@[i].designator@ + ":"@ + airport.runways@[i].threshold@ + ":"@
                + airport.runways@[i].track@,
    ));
    assert(Seq::new(airport.holds@.len(), |i: int| hold_line(airport.holds@[i])) =~= Seq::new(
        airport.holds@.len(),
        |i: int|
            "HOLDING:"@ + airport.holds@[i].fix@ + ":"@ + decimal(airport.holds@[i].inbound as nat)
                + ":"@ + signed_decimal(airport.holds@[i].direction.spec_to_i8() as int),
    ));
    assert(Seq::new(airport.custom_routes@.len(), |i: int| custom_route_line(airport.custom_routes@[i]))
        =~= Seq::new(
        airport.custom_routes@.len(),
        |i: int| "ROUTE:"@ + airport.custom_routes@[i].name@ + ":"@ + airport.custom_routes@[i].route@,
    ));
    assert(Seq::new(airport.controllers@.len(), |i: int| controller_line(airport.controllers@[i]))
        =~= Seq::new(
        airport.controllers@.len(),
        |i: int|
            "PSEUDOPILOT:ALL\nCONTROLLER:"@ + airport.controllers@[i].callsign@ + ":"@
                + airport.controllers@[i].frequency@,
    ));
}

} // verus!
