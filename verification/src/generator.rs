//! Scenario generation: the session configurations, the staging of the
//! traffic from the airport's routes, its scheduling, and the scenario file.
use vstd::prelude::*;

use crate::aircraft::{
    aircraft_entry, assign_squawks, ifr_count, squawks_assigned, Aircraft, FlightRule, FlightType,
    SQUAWK_POOL_SIZE,
};
use crate::airport::{
    controller_lines, custom_route_lines, elevation_line, hold_lines, runway_lines, Airline,
    Airport, ArrivalRoute, DepartureRoute, LocalVfr, PositionRoute, Runway, StandardRoute,
    VfrFlightPlan,
};
use crate::random::{pick, shuffle, thread_rng};
use crate::stands::{all_stands, allocate_stand, generate_stands, stand_allocation, DepartureStand};
use crate::route_parser::{
    parsed_route, resolve_route, route_fault_message, route_parser, RouteError, RouteFault,
    RouteType,
};
use crate::text::{contains_char, join, join_seq, owned, views};

verus! {

#[derive(Clone, Copy, PartialEq, Eq, Debug)]
pub enum SessionType {
    Adc,
    App,
}

impl SessionType {
    pub open spec fn text(self) -> Seq<char> {
        match self {
            SessionType::Adc => "ADC"@,
            SessionType::App => "APP"@,
        }
    }

    /// The name of the session type in the menu: `ADC` or `APP`.
    pub fn to_string(&self) -> (s: String)
        ensures
            s@ == self.text(),
    {
        match self {
            SessionType::Adc => owned("ADC"),
            SessionType::App => owned("APP"),
        }
    }
}

/// An aircraft taken from a route, before it gets a time and a position.
pub struct StagedAircraft {
    pub callsign: String,
    pub outstation: String,
    pub aircraft_type: String,
    pub filed_route: String,
    pub flown_route: String,
    pub spawn_coords: Option<String>,
    pub spawn_alt: Option<u16>,
    pub rfl: u16,
}

/// Why a scenario cannot be made from the airport data.
#[derive(Debug)]
pub enum ScenarioError {
    /// A route with callsigns lists no aircraft type.
    NoAircraftType,
    /// A route refers to a standard route that the data cannot resolve.
    Route(RouteError),
    /// More IFR aircraft than the transponder code pool holds.
    SquawkPoolExhausted,
}

pub enum ScenarioFault {
    NoAircraftType,
    Route(RouteFault),
    SquawkPoolExhausted,
}

impl View for ScenarioError {
    type V = ScenarioFault;

    open spec fn view(&self) -> ScenarioFault {
        match self {
            ScenarioError::NoAircraftType => ScenarioFault::NoAircraftType,
            ScenarioError::Route(e) => ScenarioFault::Route(e@),
            ScenarioError::SquawkPoolExhausted => ScenarioFault::SquawkPoolExhausted,
        }
    }
}

pub open spec fn scenario_fault_message(f: ScenarioFault) -> Seq<char> {
    match f {
        ScenarioFault::NoAircraftType => "No aircraft type provided for one or more routes"@,
        ScenarioFault::Route(e) => route_fault_message(e),
        ScenarioFault::SquawkPoolExhausted => "squawk pool exhausted"@,
    }
}

impl ScenarioError {
    /// The text that the error is reported with.
    pub fn message(&self) -> (s: String)
        ensures
            s@ == scenario_fault_message(self@),
    {
        match self {
            ScenarioError::NoAircraftType => owned("No aircraft type provided for one or more routes"),
            ScenarioError::Route(e) => e.message(),
            ScenarioError::SquawkPoolExhausted => owned("squawk pool exhausted"),
        }
    }
}

/// The settings of an approach radar session.
pub struct AppConfig {
    pub airport: Airport,
    pub selected_runway: usize,
    pub dep_interval: u8,
    pub arr_interval: u8,
    pub duration: u8,
    pub ramp_time: Option<u8>,
    pub name: String,
    pub initial_pseudo_pilot: String,
    pub vfr_traffic: Vec<Aircraft>,
}

impl AppConfig {
    /// The selected runway is one of the airport's, whose data is
    /// well formed.
    pub open spec fn wf(&self) -> bool {
        &&& self.selected_runway < self.airport.runways@.len()
        &&& self.airport.wf()
    }

    pub open spec fn spec_runway(&self) -> Runway {
        self.airport.runways@[self.selected_runway as int]
    }

    /// The runway in use.
    pub fn runway(&self) -> (r: &Runway)
        requires
            self.wf(),
        ensures
            *r == self.spec_runway(),
    {
        &self.airport.runways[self.selected_runway]
    }
}

/// The settings of a tower session.
pub struct AdcConfig {
    pub airport: Airport,
    pub arrival_runway: usize,
    pub departures: u8,
    pub arr_interval: u8,
    pub duration: u8,
    pub name: String,
    pub initial_pseudo_pilot: String,
    pub vfr_traffic: Vec<Aircraft>,
}

impl AdcConfig {
    /// The arrival runway is one of the airport's, whose data is well
    /// formed.
    pub open spec fn wf(&self) -> bool {
        &&& self.arrival_runway < self.airport.runways@.len()
        &&& self.airport.wf()
    }

    pub open spec fn spec_runway(&self) -> Runway {
        self.airport.runways@[self.arrival_runway as int]
    }

    /// The runway in use.
    pub fn runway(&self) -> (r: &Runway)
        requires
            self.wf(),
        ensures
            *r == self.spec_runway(),
    {
        &self.airport.runways[self.arrival_runway]
    }
}

// ---------------------------------------------------------------------------
// Staging
// ---------------------------------------------------------------------------

/// The (route, callsign) pairs, route by route, for routes with these
/// numbers of callsigns.
pub open spec fn slots(counts: Seq<nat>) -> Seq<(int, int)>
    decreases counts.len(),
{
    if counts.len() == 0 {
        seq![]
    } else {
        slots(counts.drop_last()) + Seq::new(
            counts.last(),
            |j: int| ((counts.len() - 1) as int, j),
        )
    }
}

pub proof fn lemma_slots_step(counts: Seq<nat>, i: int)
    requires
        0 <= i < counts.len(),
    ensures
        slots(counts.take(i + 1)) == slots(counts.take(i)) + Seq::new(
            counts[i],
            |j: int| (i, j),
        ),
{
    assert(counts.take(i + 1).drop_last() == counts.take(i));
}

/// What staging one callsign of a route needs of the route: an aircraft
/// type, and a filed and a flown route that expand.
pub open spec fn route_fault(
    types_len: nat,
    filed: Result<Seq<char>, RouteFault>,
    flown: Result<Seq<char>, RouteFault>,
) -> Option<ScenarioFault> {
    if types_len == 0 {
        Some(ScenarioFault::NoAircraftType)
    } else {
        match filed {
            Err(e) => Some(ScenarioFault::Route(e)),
            Ok(_) => match flown {
                Err(e) => Some(ScenarioFault::Route(e)),
                Ok(_) => None,
            },
        }
    }
}

pub open spec fn departure_counts(routes: Seq<DepartureRoute>) -> Seq<nat> {
    Seq::new(routes.len(), |i: int| routes[i].callsigns@.len())
}

pub open spec fn departure_fault(
    r: DepartureRoute,
    standard_routes: Seq<StandardRoute>,
    runway: Seq<char>,
) -> Option<ScenarioFault> {
    route_fault(
        r.types@.len(),
        parsed_route(r.filed_route@, standard_routes, runway, RouteType::Filed),
        parsed_route(r.flown_route@, standard_routes, runway, RouteType::Flown),
    )
}

/// The fault of the first route, at or after index `i`, that has callsigns
/// and cannot be staged.
pub open spec fn first_departure_fault(
    routes: Seq<DepartureRoute>,
    standard_routes: Seq<StandardRoute>,
    runway: Seq<char>,
    i: int,
) -> Option<ScenarioFault>
    decreases routes.len() - i,
{
    if i < 0 || i >= routes.len() {
        None
    } else if routes[i].callsigns@.len() > 0 && departure_fault(
        routes[i],
        standard_routes,
        runway,
    ) is Some {
        departure_fault(routes[i], standard_routes, runway)
    } else {
        first_departure_fault(routes, standard_routes, runway, i + 1)
    }
}

/// `s` is the departure staged for callsign `j` of route `r`.
pub open spec fn staged_departure(
    s: StagedAircraft,
    r: DepartureRoute,
    j: int,
    standard_routes: Seq<StandardRoute>,
    runway: Seq<char>,
) -> bool {
    &&& s.callsign == r.callsigns@[j]
    &&& s.outstation == r.dest
    &&& r.types@.contains(s.aircraft_type)
    &&& parsed_route(r.filed_route@, standard_routes, runway, RouteType::Filed) == Ok::<
        Seq<char>,
        RouteFault,
    >(s.filed_route@)
    &&& parsed_route(r.flown_route@, standard_routes, runway, RouteType::Flown) == Ok::<
        Seq<char>,
        RouteFault,
    >(s.flown_route@)
    &&& s.spawn_coords is None
    &&& s.spawn_alt is None
    &&& s.rfl == r.rfl
}

/// One staged departure per callsign, route by route, in order.
pub open spec fn departures_staged(
    routes: Seq<DepartureRoute>,
    standard_routes: Seq<StandardRoute>,
    runway: Seq<char>,
    staged: Seq<StagedAircraft>,
) -> bool {
    let sl = slots(departure_counts(routes));
    &&& staged.len() == sl.len()
    &&& forall|k: int|
        0 <= k < staged.len() ==> staged_departure(
            #[trigger] staged[k],
            routes[sl[k].0],
            sl[k].1,
            standard_routes,
            runway,
        )
}

fn stage_departures(
    routes: &[DepartureRoute],
    standard_routes: &[StandardRoute],
    runway: &str,
) -> (v: Vec<StagedAircraft>)
    requires
        first_departure_fault(routes@, standard_routes@, runway@, 0) is None,
    ensures
        departures_staged(routes@, standard_routes@, runway@, v@),
{
    let ghost counts = departure_counts(routes@);
    let ghost std = standard_routes@;
    let ghost rwy = runway@;
    let mut out: Vec<StagedAircraft> = Vec::new();
    let n = routes.len();
    let mut i: usize = 0;
    assert(counts.take(0) == Seq::<nat>::empty());
    while i < n
        invariant
            n == routes@.len(),
            i <= n,
            counts == departure_counts(routes@),
            std == standard_routes@,
            rwy == runway@,
            first_departure_fault(routes@, std, rwy, 0) == first_departure_fault(
                routes@,
                std,
                rwy,
                i as int,
            ),
            first_departure_fault(routes@, std, rwy, 0) is None,
            out@.len() == slots(counts.take(i as int)).len(),
            forall|k: int|
                0 <= k < out@.len() ==> staged_departure(
                    #[trigger] out@[k],
                    routes@[slots(counts.take(i as int))[k].0],
                    slots(counts.take(i as int))[k].1,
                    std,
                    rwy,
                ),
        decreases n - i,
    {
        let route = &routes[i];
        let m = route.callsigns.len();
        let ghost prev = out@;
        let ghost base = out@.len();
        let mut j: usize = 0;
        assert(m > 0 ==> departure_fault(*route, std, rwy) is None);
        while j < m
            invariant
                n == routes@.len(),
                i < n,
                *route == routes@[i as int],
                m == route.callsigns@.len(),
                j <= m,
                std == standard_routes@,
                rwy == runway@,
                out@.len() == base + j,
                forall|k: int| 0 <= k < base ==> #[trigger] out@[k] == prev[k],
                forall|k: int|
                    base <= k < out@.len() ==> staged_departure(
                        #[trigger] out@[k],
                        *route,
                        k - base,
                        std,
                        rwy,
                    ),
                m > 0 ==> departure_fault(*route, std, rwy) is None,
                first_departure_fault(routes@, std, rwy, 0) == first_departure_fault(
                    routes@,
                    std,
                    rwy,
                    i as int,
                ),
                first_departure_fault(routes@, std, rwy, 0) is None,
            decreases m - j,
        {
            let mut rng = thread_rng();
            let aircraft_type = match pick(&route.types, &mut rng) {
                Some(t) => t.clone(),
                None => {
                    proof {
                        assert(false);
                    }
                    String::new()
                },
            };
            let filed_route = route_parser(
                route.filed_route.as_str(),
                standard_routes,
                runway,
                &RouteType::Filed,
            );
            let flown_route = route_parser(
                route.flown_route.as_str(),
                standard_routes,
                runway,
                &RouteType::Flown,
            );
            out.push(
                StagedAircraft {
                    callsign: route.callsigns[j].clone(),
                    outstation: route.dest.clone(),
                    aircraft_type,
                    filed_route,
                    flown_route,
                    spawn_coords: None,
                    spawn_alt: None,
                    rfl: route.rfl,
                },
            );
            j = j + 1;
        }
        proof {
            lemma_slots_step(counts, i as int);
            let sl = slots(counts.take(i as int + 1));
            assert forall|k: int| 0 <= k < out@.len() implies staged_departure(
                #[trigger] out@[k],
                routes@[sl[k].0],
                sl[k].1,
                std,
                rwy,
            ) by {
                if k < base {
                    assert(out@[k] == prev[k]);
                }
            }
        }
        i = i + 1;
    }
    assert(counts.take(n as int) == counts);
    out
}

/// Which position route of an arrival route a session spawns arrivals at.
#[derive(Clone, Copy, PartialEq, Eq, Debug)]
pub enum ArrivalPosition {
    /// The approach position (`app_route`).
    App,
    /// The tower position (`adc_route`).
    Adc,
}

pub open spec fn position_route(r: ArrivalRoute, position: ArrivalPosition) -> Option<
    PositionRoute,
> {
    match position {
        ArrivalPosition::App => r.app_route,
        ArrivalPosition::Adc => r.adc_route,
    }
}

fn position_of(r: &ArrivalRoute, position: ArrivalPosition) -> (p: Option<&PositionRoute>)
    ensures
        p == match position_route(*r, position) {
            Some(x) => Some(&x),
            None => None::<&PositionRoute>,
        },
{
    match position {
        ArrivalPosition::App => match &r.app_route {
            Some(x) => Some(x),
            None => None,
        },
        ArrivalPosition::Adc => match &r.adc_route {
            Some(x) => Some(x),
            None => None,
        },
    }
}

/// The callsigns that a session stages from each arrival route: all of a
/// route with a position route for the session, none of the others.
pub open spec fn arrival_counts(routes: Seq<ArrivalRoute>, position: ArrivalPosition) -> Seq<nat> {
    Seq::new(
        routes.len(),
        |i: int|
            if position_route(routes[i], position) is Some {
                routes[i].callsigns@.len()
            } else {
                0
            },
    )
}

pub open spec fn arrival_fault(
    r: ArrivalRoute,
    position: ArrivalPosition,
    standard_routes: Seq<StandardRoute>,
    runway: Seq<char>,
) -> Option<ScenarioFault> {
    route_fault(
        r.types@.len(),
        parsed_route(r.filed_route@, standard_routes, runway, RouteType::Filed),
        parsed_route(
            position_route(r, position)->0.flown_route@,
            standard_routes,
            runway,
            RouteType::Flown,
        ),
    )
}

/// The fault of the first route, at or after index `i`, that the session
/// stages callsigns from and that cannot be staged.
pub open spec fn first_arrival_fault(
    routes: Seq<ArrivalRoute>,
    position: ArrivalPosition,
    standard_routes: Seq<StandardRoute>,
    runway: Seq<char>,
    i: int,
) -> Option<ScenarioFault>
    decreases routes.len() - i,
{
    if i < 0 || i >= routes.len() {
        None
    } else if position_route(routes[i], position) is Some && routes[i].callsigns@.len() > 0
        && arrival_fault(routes[i], position, standard_routes, runway) is Some {
        arrival_fault(routes[i], position, standard_routes, runway)
    } else {
        first_arrival_fault(routes, position, standard_routes, runway, i + 1)
    }
}

/// `s` is the arrival staged for callsign `j` of route `r`.
pub open spec fn staged_arrival(
    s: StagedAircraft,
    r: ArrivalRoute,
    position: ArrivalPosition,
    j: int,
    standard_routes: Seq<StandardRoute>,
    runway: Seq<char>,
) -> bool {
    let pos = position_route(r, position)->0;
    &&& position_route(r, position) is Some
    &&& s.callsign == r.callsigns@[j]
    &&& s.outstation == r.dep
    &&& r.types@.contains(s.aircraft_type)
    &&& parsed_route(r.filed_route@, standard_routes, runway, RouteType::Filed) == Ok::<
        Seq<char>,
        RouteFault,
    >(s.filed_route@)
    &&& parsed_route(pos.flown_route@, standard_routes, runway, RouteType::Flown) == Ok::<
        Seq<char>,
        RouteFault,
    >(s.flown_route@)
    &&& s.spawn_coords == Some(pos.spawn_coords)
    &&& s.spawn_alt == Some(pos.spawn_alt)
    &&& s.rfl == r.rfl
}

/// One staged arrival per callsign of each route with a position route for
/// the session, route by route, in order.
pub open spec fn arrivals_staged(
    routes: Seq<ArrivalRoute>,
    position: ArrivalPosition,
    standard_routes: Seq<StandardRoute>,
    runway: Seq<char>,
    staged: Seq<StagedAircraft>,
) -> bool {
    let sl = slots(arrival_counts(routes, position));
    &&& staged.len() == sl.len()
    &&& forall|k: int|
        0 <= k < staged.len() ==> staged_arrival(
            #[trigger] staged[k],
            routes[sl[k].0],
            position,
            sl[k].1,
            standard_routes,
            runway,
        )
}

fn stage_arrivals(
    routes: &[ArrivalRoute],
    position: ArrivalPosition,
    standard_routes: &[StandardRoute],
    runway: &str,
) -> (v: Vec<StagedAircraft>)
    requires
        first_arrival_fault(routes@, position, standard_routes@, runway@, 0) is None,
    ensures
        arrivals_staged(routes@, position, standard_routes@, runway@, v@),
{
    let ghost counts = arrival_counts(routes@, position);
    let ghost std = standard_routes@;
    let ghost rwy = runway@;
    let mut out: Vec<StagedAircraft> = Vec::new();
    let n = routes.len();
    let mut i: usize = 0;
    assert(counts.take(0) == Seq::<nat>::empty());
    while i < n
        invariant
            n == routes@.len(),
            i <= n,
            counts == arrival_counts(routes@, position),
            std == standard_routes@,
            rwy == runway@,
            first_arrival_fault(routes@, position, std, rwy, 0) == first_arrival_fault(
                routes@,
                position,
                std,
                rwy,
                i as int,
            ),
            first_arrival_fault(routes@, position, std, rwy, 0) is None,
            out@.len() == slots(counts.take(i as int)).len(),
            forall|k: int|
                0 <= k < out@.len() ==> staged_arrival(
                    #[trigger] out@[k],
                    routes@[slots(counts.take(i as int))[k].0],
                    position,
                    slots(counts.take(i as int))[k].1,
                    std,
                    rwy,
                ),
        decreases n - i,
    {
        let route = &routes[i];
        let ghost prev = out@;
        let ghost base = out@.len();
        if let Some(pos) = position_of(route, position) {
            let m = route.callsigns.len();
            let mut j: usize = 0;
            assert(m > 0 ==> arrival_fault(*route, position, std, rwy) is None);
            while j < m
                invariant
                    n == routes@.len(),
                    i < n,
                    *route == routes@[i as int],
                    position_route(*route, position) == Some(*pos),
                    m == route.callsigns@.len(),
                    j <= m,
                    std == standard_routes@,
                    rwy == runway@,
                    out@.len() == base + j,
                    forall|k: int| 0 <= k < base ==> #[trigger] out@[k] == prev[k],
                    forall|k: int|
                        base <= k < out@.len() ==> staged_arrival(
                            #[trigger] out@[k],
                            *route,
                            position,
                            k - base,
                            std,
                            rwy,
                        ),
                    m > 0 ==> arrival_fault(*route, position, std, rwy) is None,
                    first_arrival_fault(routes@, position, std, rwy, 0) == first_arrival_fault(
                        routes@,
                        position,
                        std,
                        rwy,
                        i as int,
                    ),
                    first_arrival_fault(routes@, position, std, rwy, 0) is None,
                decreases m - j,
            {
                let mut rng = thread_rng();
                let aircraft_type = match pick(&route.types, &mut rng) {
                    Some(t) => t.clone(),
                    None => {
                        proof {
                            assert(false);
                        }
                        String::new()
                    },
                };
                let filed_route = route_parser(
                    route.filed_route.as_str(),
                    standard_routes,
                    runway,
                    &RouteType::Filed,
                );
                let flown_route = route_parser(
                    pos.flown_route.as_str(),
                    standard_routes,
                    runway,
                    &RouteType::Flown,
                );
                out.push(
                    StagedAircraft {
                        callsign: route.callsigns[j].clone(),
                        outstation: route.dep.clone(),
                        aircraft_type,
                        filed_route,
                        flown_route,
                        spawn_coords: Some(pos.spawn_coords.clone()),
                        spawn_alt: Some(pos.spawn_alt),
                        rfl: route.rfl,
                    },
                );
                j = j + 1;
            }
        }
        proof {
            lemma_slots_step(counts, i as int);
            let sl = slots(counts.take(i as int + 1));
            assert forall|k: int| 0 <= k < out@.len() implies staged_arrival(
                #[trigger] out@[k],
                routes@[sl[k].0],
                position,
                sl[k].1,
                std,
                rwy,
            ) by {
                if k < base {
                    assert(out@[k] == prev[k]);
                }
            }
        }
        i = i + 1;
    }
    assert(counts.take(n as int) == counts);
    out
}

/// Whether staging can go through: `Ok` when every departure route with
/// callsigns has an aircraft type and filed and flown routes that expand for
/// `runway`, else the fault of the first route that has not, in route order.
pub fn check_departure_routes(
    routes: &[DepartureRoute],
    standard_routes: &[StandardRoute],
    runway: &str,
) -> (res: Result<(), ScenarioError>)
    ensures
        res is Ok <==> first_departure_fault(routes@, standard_routes@, runway@, 0) is None,
        res matches Err(e) ==> first_departure_fault(routes@, standard_routes@, runway@, 0)
            == Some(e@),
{
    let n = routes.len();
    let mut i: usize = 0;
    while i < n
        invariant
            n == routes@.len(),
            i <= n,
            first_departure_fault(routes@, standard_routes@, runway@, 0) == first_departure_fault(
                routes@,
                standard_routes@,
                runway@,
                i as int,
            ),
        decreases n - i,
    {
        let route = &routes[i];
        if route.callsigns.len() > 0 {
            if route.types.len() == 0 {
                return Err(ScenarioError::NoAircraftType);
            }
            match resolve_route(route.filed_route.as_str(), standard_routes, runway, &RouteType::Filed) {
                Err(e) => {
                    return Err(ScenarioError::Route(e));
                },
                Ok(_) => {},
            }
            match resolve_route(route.flown_route.as_str(), standard_routes, runway, &RouteType::Flown) {
                Err(e) => {
                    return Err(ScenarioError::Route(e));
                },
                Ok(_) => {},
            }
        }
        i = i + 1;
    }
    Ok(())
}

/// Whether staging for the position can go through: `Ok` when every arrival
/// route with a route for the position and with callsigns has an aircraft
/// type, a filed route and a flown route for the position that expand for
/// `runway`, else the fault of the first route that has not, in route order.
pub fn check_arrival_routes(
    routes: &[ArrivalRoute],
    position: ArrivalPosition,
    standard_routes: &[StandardRoute],
    runway: &str,
) -> (res: Result<(), ScenarioError>)
    ensures
        res is Ok <==> first_arrival_fault(routes@, position, standard_routes@, runway@, 0) is None,
        res matches Err(e) ==> first_arrival_fault(routes@, position, standard_routes@, runway@, 0)
            == Some(e@),
{
    let n = routes.len();
    let mut i: usize = 0;
    while i < n
        invariant
            n == routes@.len(),
            i <= n,
            first_arrival_fault(routes@, position, standard_routes@, runway@, 0)
                == first_arrival_fault(routes@, position, standard_routes@, runway@, i as int),
        decreases n - i,
    {
        let route = &routes[i];
        if let Some(pos) = position_of(route, position) {
            if route.callsigns.len() > 0 {
                if route.types.len() == 0 {
                    return Err(ScenarioError::NoAircraftType);
                }
                match resolve_route(route.filed_route.as_str(), standard_routes, runway, &RouteType::Filed) {
                    Err(e) => {
                        return Err(ScenarioError::Route(e));
                    },
                    Ok(_) => {},
                }
                match resolve_route(pos.flown_route.as_str(), standard_routes, runway, &RouteType::Flown) {
                    Err(e) => {
                        return Err(ScenarioError::Route(e));
                    },
                    Ok(_) => {},
                }
            }
        }
        i = i + 1;
    }
    Ok(())
}

/// Stages one departure per callsign of the routes, each with an aircraft
/// type drawn at random from its route. Every route with callsigns must have
/// an aircraft type and routes that expand: see [`check_departure_routes`].
pub fn stage_app_departures(departure_routes: &[DepartureRoute], config: &AppConfig) -> (v: Vec<
    StagedAircraft,
>)
    requires
        config.wf(),
        first_departure_fault(
            departure_routes@,
            config.airport.standard_routes@,
            config.spec_runway().designator@,
            0,
        ) is None,
    ensures
        departures_staged(
            departure_routes@,
            config.airport.standard_routes@,
            config.spec_runway().designator@,
            v@,
        ),
{
    stage_departures(
        departure_routes,
        config.airport.standard_routes.as_slice(),
        config.runway().designator.as_str(),
    )
}

/// Stages one arrival per callsign of each route that has an approach
/// position route, each with an aircraft type drawn at random from its route.
/// Every such route with callsigns must have an aircraft type and routes that
/// expand: see [`check_arrival_routes`].
pub fn stage_app_arrivals(arrival_routes: &[ArrivalRoute], config: &AppConfig) -> (v: Vec<
    StagedAircraft,
>)
    requires
        config.wf(),
        first_arrival_fault(
            arrival_routes@,
            ArrivalPosition::App,
            config.airport.standard_routes@,
            config.spec_runway().designator@,
            0,
        ) is None,
    ensures
        arrivals_staged(
            arrival_routes@,
            ArrivalPosition::App,
            config.airport.standard_routes@,
            config.spec_runway().designator@,
            v@,
        ),
{
    stage_arrivals(
        arrival_routes,
        ArrivalPosition::App,
        config.airport.standard_routes.as_slice(),
        config.runway().designator.as_str(),
    )
}

/// Stages one departure per callsign of the routes, each with an aircraft
/// type drawn at random from its route. Every route with callsigns must have
/// an aircraft type and routes that expand: see [`check_departure_routes`].
pub fn stage_adc_departures(departure_routes: &[DepartureRoute], config: &AdcConfig) -> (v: Vec<
    StagedAircraft,
>)
    requires
        config.wf(),
        first_departure_fault(
            departure_routes@,
            config.airport.standard_routes@,
            config.spec_runway().designator@,
            0,
        ) is None,
    ensures
        departures_staged(
            departure_routes@,
            config.airport.standard_routes@,
            config.spec_runway().designator@,
            v@,
        ),
{
    stage_departures(
        departure_routes,
        config.airport.standard_routes.as_slice(),
        config.runway().designator.as_str(),
    )
}

/// Stages one arrival per callsign of each route that has a tower position
/// route, each with an aircraft type drawn at random from its route. Every
/// such route with callsigns must have an aircraft type and routes that
/// expand: see [`check_arrival_routes`].
pub fn stage_adc_arrivals(arrival_routes: &[ArrivalRoute], config: &AdcConfig) -> (v: Vec<
    StagedAircraft,
>)
    requires
        config.wf(),
        first_arrival_fault(
            arrival_routes@,
            ArrivalPosition::Adc,
            config.airport.standard_routes@,
            config.spec_runway().designator@,
            0,
        ) is None,
    ensures
        arrivals_staged(
            arrival_routes@,
            ArrivalPosition::Adc,
            config.airport.standard_routes@,
            config.spec_runway().designator@,
            v@,
        ),
{
    stage_arrivals(
        arrival_routes,
        ArrivalPosition::Adc,
        config.airport.standard_routes.as_slice(),
        config.runway().designator.as_str(),
    )
}

// ---------------------------------------------------------------------------
// Scheduling
// ---------------------------------------------------------------------------

pub open spec fn min_len(a: nat, b: nat) -> nat {
    if a < b {
        a
    } else {
        b
    }
}

/// `p` holds the items of `s`, each as often, in some order.
pub open spec fn permuted<T>(p: Seq<T>, s: Seq<T>) -> bool {
    p.to_multiset() == s.to_multiset()
}

pub proof fn lemma_permuted_members<T>(p: Seq<T>, s: Seq<T>)
    requires
        permuted(p, s),
    ensures
        p.len() == s.len(),
        forall|k: int| 0 <= k < p.len() ==> s.contains(#[trigger] p[k]),
{
    p.to_multiset_ensures();
    s.to_multiset_ensures();
    assert forall|k: int| 0 <= k < p.len() implies s.contains(#[trigger] p[k]) by {
        assert(p.contains(p[k]));
        assert(p.to_multiset().count(p[k]) > 0);
        assert(s.to_multiset().count(p[k]) > 0);
    }
}

/// The arrival made of a staged aircraft that spawns at `start`.
pub open spec fn arrival_aircraft(s: StagedAircraft, start: u16, icao: String, pseudo: String) -> Aircraft {
    Aircraft {
        flight_type: FlightType::Arrival,
        flight_rule: FlightRule::I,
        callsign: s.callsign,
        aircraft_type: s.aircraft_type,
        squawk: None,
        spawn_coords: s.spawn_coords->0,
        spawn_altitude: s.spawn_alt->0,
        spawn_hdg: None,
        origin: s.outstation,
        dest: icao,
        filed_route: s.filed_route,
        tas: Some(250),
        rfl: Some(s.rfl),
        flown_route: s.flown_route,
        start,
        delay: None,
        initial_pseudo_pilot: pseudo,
        has_flight_plan: true,
    }
}

/// The staged arrivals paired in order with the spawn times, as far as both go.
pub open spec fn scheduled_arrivals(
    staged: Seq<StagedAircraft>,
    times: Seq<u16>,
    icao: String,
    pseudo: String,
) -> Seq<Aircraft> {
    Seq::new(
        min_len(staged.len(), times.len()),
        |k: int| arrival_aircraft(staged[k], times[k], icao, pseudo),
    )
}

/// Pairs the staged arrivals in order with the spawn times.
pub fn schedule_arrivals(
    staged: &Vec<StagedAircraft>,
    times: &[u16],
    icao: &String,
    initial_pseudo_pilot: &String,
) -> (v: Vec<Aircraft>)
    requires
        forall|k: int|
            0 <= k < staged@.len() ==> (#[trigger] staged@[k]).spawn_coords is Some
                && staged@[k].spawn_alt is Some,
    ensures
        v@ == scheduled_arrivals(staged@, times@, *icao, *initial_pseudo_pilot),
{
    let n = if staged.len() < times.len() {
        staged.len()
    } else {
        times.len()
    };
    let mut out: Vec<Aircraft> = Vec::new();
    for k in 0..n
        invariant
            n == min_len(staged@.len(), times@.len()),
            forall|m: int|
                0 <= m < staged@.len() ==> (#[trigger] staged@[m]).spawn_coords is Some
                    && staged@[m].spawn_alt is Some,
            out@ == scheduled_arrivals(staged@, times@, *icao, *initial_pseudo_pilot).take(
                k as int,
            ),
    {
        let a = &staged[k];
        let spawn_coords = match &a.spawn_coords {
            Some(c) => c.clone(),
            None => String::new(),
        };
        let spawn_altitude = match a.spawn_alt {
            Some(alt) => alt,
            None => 0,
        };
        out.push(
            Aircraft {
                flight_type: FlightType::Arrival,
                flight_rule: FlightRule::I,
                callsign: a.callsign.clone(),
                aircraft_type: a.aircraft_type.clone(),
                squawk: None,
                spawn_coords,
                spawn_altitude,
                spawn_hdg: None,
                origin: a.outstation.clone(),
                dest: icao.clone(),
                filed_route: a.filed_route.clone(),
                tas: Some(250),
                rfl: Some(a.rfl),
                flown_route: a.flown_route.clone(),
                start: times[k],
                delay: None,
                initial_pseudo_pilot: initial_pseudo_pilot.clone(),
                has_flight_plan: true,
            },
        );
        assert(out@ == scheduled_arrivals(staged@, times@, *icao, *initial_pseudo_pilot).take(
            k as int + 1,
        ));
    }
    assert(out@ == scheduled_arrivals(staged@, times@, *icao, *initial_pseudo_pilot));
    out
}

/// The radar departure made of a staged aircraft that spawns at `start` at
/// the runway's departure spawn point.
pub open spec fn app_departure_aircraft(
    s: StagedAircraft,
    start: u16,
    icao: String,
    dep_spawn: String,
    altitude: u16,
    pseudo: String,
) -> Aircraft {
    Aircraft {
        flight_type: FlightType::Departure,
        flight_rule: FlightRule::I,
        callsign: s.callsign,
        aircraft_type: s.aircraft_type,
        squawk: None,
        spawn_coords: dep_spawn,
        spawn_altitude: altitude,
        spawn_hdg: None,
        origin: icao,
        dest: s.outstation,
        filed_route: s.filed_route,
        tas: Some(250),
        rfl: Some(s.rfl),
        flown_route: s.flown_route,
        start,
        delay: None,
        initial_pseudo_pilot: pseudo,
        has_flight_plan: true,
    }
}

/// The staged departures paired in order with the spawn times, as far as both go.
pub open spec fn scheduled_app_departures(
    staged: Seq<StagedAircraft>,
    times: Seq<u16>,
    icao: String,
    dep_spawn: String,
    altitude: u16,
    pseudo: String,
) -> Seq<Aircraft> {
    Seq::new(
        min_len(staged.len(), times.len()),
        |k: int| app_departure_aircraft(staged[k], times[k], icao, dep_spawn, altitude, pseudo),
    )
}

/// Pairs the staged departures in order with the spawn times.
pub fn schedule_app_departures(
    staged: &Vec<StagedAircraft>,
    times: &[u16],
    icao: &String,
    dep_spawn: &String,
    altitude: u16,
    initial_pseudo_pilot: &String,
) -> (v: Vec<Aircraft>)
    ensures
        v@ == scheduled_app_departures(
            staged@,
            times@,
            *icao,
            *dep_spawn,
            altitude,
            *initial_pseudo_pilot,
        ),
{
    let n = if staged.len() < times.len() {
        staged.len()
    } else {
        times.len()
    };
    let ghost target = scheduled_app_departures(
        staged@,
        times@,
        *icao,
        *dep_spawn,
        altitude,
        *initial_pseudo_pilot,
    );
    let mut out: Vec<Aircraft> = Vec::new();
    for k in 0..n
        invariant
            n == min_len(staged@.len(), times@.len()),
            target == scheduled_app_departures(
                staged@,
                times@,
                *icao,
                *dep_spawn,
                altitude,
                *initial_pseudo_pilot,
            ),
            out@ == target.take(k as int),
    {
        let a = &staged[k];
        out.push(
            Aircraft {
                flight_type: FlightType::Departure,
                flight_rule: FlightRule::I,
                callsign: a.callsign.clone(),
                aircraft_type: a.aircraft_type.clone(),
                squawk: None,
                spawn_coords: dep_spawn.clone(),
                spawn_altitude: altitude,
                spawn_hdg: None,
                origin: icao.clone(),
                dest: a.outstation.clone(),
                filed_route: a.filed_route.clone(),
                tas: Some(250),
                rfl: Some(a.rfl),
                flown_route: a.flown_route.clone(),
                start: times[k],
                delay: None,
                initial_pseudo_pilot: initial_pseudo_pilot.clone(),
                has_flight_plan: true,
            },
        );
        assert(out@ == target.take(k as int + 1));
    }
    assert(out@ == target);
    out
}

/// `v` is what scheduling the arrivals staged from the routes, in some
/// order, at the spawn times gives.
pub open spec fn arrivals_made(
    routes: Seq<ArrivalRoute>,
    position: ArrivalPosition,
    standard_routes: Seq<StandardRoute>,
    runway: Seq<char>,
    times: Seq<u16>,
    icao: String,
    pseudo: String,
    v: Seq<Aircraft>,
) -> bool {
    exists|s: Seq<StagedAircraft>, p: Seq<StagedAircraft>|
        #![trigger arrivals_staged(routes, position, standard_routes, runway, s), permuted(p, s)]
        arrivals_staged(routes, position, standard_routes, runway, s) && permuted(p, s) && v
            == scheduled_arrivals(p, times, icao, pseudo)
}

/// All the aircraft fly IFR.
pub open spec fn all_ifr(v: Seq<Aircraft>) -> bool {
    forall|k: int| 0 <= k < v.len() ==> (#[trigger] v[k]).flight_rule == FlightRule::I
}

fn arrivals_for(
    routes: &[ArrivalRoute],
    position: ArrivalPosition,
    standard_routes: &[StandardRoute],
    runway: &str,
    times: &[u16],
    icao: &String,
    initial_pseudo_pilot: &String,
) -> (v: Vec<Aircraft>)
    requires
        first_arrival_fault(routes@, position, standard_routes@, runway@, 0) is None,
    ensures
        arrivals_made(
            routes@,
            position,
            standard_routes@,
            runway@,
            times@,
            *icao,
            *initial_pseudo_pilot,
            v@,
        ),
        v@.len() == min_len(slots(arrival_counts(routes@, position)).len(), times@.len()),
        all_ifr(v@),
{
    let mut staged = stage_arrivals(routes, position, standard_routes, runway);
    let ghost s = staged@;
    let mut rng = thread_rng();
    shuffle(&mut staged, &mut rng);
    let ghost p = staged@;
    proof {
        lemma_permuted_members(p, s);
        assert forall|k: int| 0 <= k < p.len() implies (#[trigger] p[k]).spawn_coords is Some
            && p[k].spawn_alt is Some by {
            let m = choose|m: int| 0 <= m < s.len() && s[m] == p[k];
            assert(s[m] == p[k]);
        }
    }
    let v = schedule_arrivals(&staged, times, icao, initial_pseudo_pilot);
    assert(arrivals_staged(routes@, position, standard_routes@, runway@, s) && permuted(p, s)
        && v@ == scheduled_arrivals(p, times@, *icao, *initial_pseudo_pilot));
    v
}

/// The arrivals of an approach session: staged, shuffled, and paired with
/// the spawn times as far as both go. Every arrival route staged from must
/// have an aircraft type and routes that expand: see [`check_arrival_routes`].
pub fn app_arrivals(config: &AppConfig, times: &[u16]) -> (v: Vec<Aircraft>)
    requires
        config.wf(),
        first_arrival_fault(
            config.airport.arrival_routes@,
            ArrivalPosition::App,
            config.airport.standard_routes@,
            config.spec_runway().designator@,
            0,
        ) is None,
    ensures
        arrivals_made(
            config.airport.arrival_routes@,
            ArrivalPosition::App,
            config.airport.standard_routes@,
            config.spec_runway().designator@,
            times@,
            config.airport.icao,
            config.initial_pseudo_pilot,
            v@,
        ),
        v@.len() == min_len(
            slots(arrival_counts(config.airport.arrival_routes@, ArrivalPosition::App)).len(),
            times@.len(),
        ),
        all_ifr(v@),
{
    arrivals_for(
        config.airport.arrival_routes.as_slice(),
        ArrivalPosition::App,
        config.airport.standard_routes.as_slice(),
        config.runway().designator.as_str(),
        times,
        &config.airport.icao,
        &config.initial_pseudo_pilot,
    )
}

/// The arrivals of a tower session: staged, shuffled, and paired with the
/// spawn times as far as both go. Every arrival route staged from must have
/// an aircraft type and routes that expand: see [`check_arrival_routes`].
pub fn adc_arrivals(config: &AdcConfig, times: &[u16]) -> (v: Vec<Aircraft>)
    requires
        config.wf(),
        first_arrival_fault(
            config.airport.arrival_routes@,
            ArrivalPosition::Adc,
            config.airport.standard_routes@,
            config.spec_runway().designator@,
            0,
        ) is None,
    ensures
        arrivals_made(
            config.airport.arrival_routes@,
            ArrivalPosition::Adc,
            config.airport.standard_routes@,
            config.spec_runway().designator@,
            times@,
            config.airport.icao,
            config.initial_pseudo_pilot,
            v@,
        ),
        v@.len() == min_len(
            slots(arrival_counts(config.airport.arrival_routes@, ArrivalPosition::Adc)).len(),
            times@.len(),
        ),
        all_ifr(v@),
{
    arrivals_for(
        config.airport.arrival_routes.as_slice(),
        ArrivalPosition::Adc,
        config.airport.standard_routes.as_slice(),
        config.runway().designator.as_str(),
        times,
        &config.airport.icao,
        &config.initial_pseudo_pilot,
    )
}

/// `v` is what scheduling the departures staged from the routes, in some
/// order, at the spawn times gives.
pub open spec fn app_departures_made(config: AppConfig, times: Seq<u16>, v: Seq<Aircraft>) -> bool {
    let routes = config.airport.departure_routes@;
    let std = config.airport.standard_routes@;
    let rwy = config.spec_runway();
    exists|s: Seq<StagedAircraft>, p: Seq<StagedAircraft>|
        #![trigger departures_staged(routes, std, rwy.designator@, s), permuted(p, s)]
        departures_staged(routes, std, rwy.designator@, s) && permuted(p, s) && v
            == scheduled_app_departures(
            p,
            times,
            config.airport.icao,
            rwy.dep_spawn,
            config.airport.elevation_rounded,
            config.initial_pseudo_pilot,
        )
}

/// The departures of an approach session: staged, shuffled, and paired with
/// the spawn times as far as both go; they spawn at the runway's departure
/// point at the rounded airport elevation. Every departure route with callsigns
/// must have an aircraft type and routes that expand: see
/// [`check_departure_routes`].
pub fn app_departures(config: &AppConfig, times: &[u16]) -> (v: Vec<Aircraft>)
    requires
        config.wf(),
        first_departure_fault(
            config.airport.departure_routes@,
            config.airport.standard_routes@,
            config.spec_runway().designator@,
            0,
        ) is None,
    ensures
        app_departures_made(*config, times@, v@),
        v@.len() == min_len(
            slots(departure_counts(config.airport.departure_routes@)).len(),
            times@.len(),
        ),
        all_ifr(v@),
{
    let mut staged = stage_app_departures(config.airport.departure_routes.as_slice(), config);
    let ghost s = staged@;
    let mut rng = thread_rng();
    shuffle(&mut staged, &mut rng);
    let ghost p = staged@;
    proof {
        lemma_permuted_members(p, s);
    }
    let runway = config.runway();
    let v = schedule_app_departures(
        &staged,
        times,
        &config.airport.icao,
        &runway.dep_spawn,
        config.airport.elevation_rounded,
        &config.initial_pseudo_pilot,
    );
    assert(departures_staged(
        config.airport.departure_routes@,
        config.airport.standard_routes@,
        config.spec_runway().designator@,
        s,
    ) && permuted(p, s));
    v
}

/// The transponder code of a departure waiting on its stand.
pub const GROUND_SQUAWK: u16 = 0o2000;

/// The tower departure made of a staged aircraft on its stand.
pub open spec fn adc_departure_aircraft(
    s: StagedAircraft,
    stand: DepartureStand,
    icao: String,
    altitude: u16,
    pseudo: String,
) -> Aircraft {
    Aircraft {
        flight_type: FlightType::Departure,
        flight_rule: FlightRule::I,
        callsign: s.callsign,
        aircraft_type: s.aircraft_type,
        squawk: Some(GROUND_SQUAWK),
        spawn_coords: stand.coords,
        spawn_altitude: altitude,
        spawn_hdg: Some(stand.heading),
        origin: icao,
        dest: s.outstation,
        filed_route: s.filed_route,
        tas: Some(250),
        rfl: Some(s.rfl),
        flown_route: s.flown_route,
        start: 0,
        delay: None,
        initial_pseudo_pilot: pseudo,
        has_flight_plan: true,
    }
}

/// The departures that get a stand, in order: each staged departure takes
/// its stand from what the earlier ones left, and one that finds no stand
/// is left out.
pub open spec fn placed_departures(
    staged: Seq<StagedAircraft>,
    stands: Seq<DepartureStand>,
    airlines: Seq<Airline>,
    icao: String,
    altitude: u16,
    pseudo: String,
) -> Seq<Aircraft>
    decreases staged.len(),
{
    if staged.len() == 0 {
        seq![]
    } else {
        let (rest, got) = stand_allocation(stands, staged[0].callsign@, airlines);
        let tail = placed_departures(staged.drop_first(), rest, airlines, icao, altitude, pseudo);
        match got {
            Some(stand) => seq![adc_departure_aircraft(staged[0], stand, icao, altitude, pseudo)]
                + tail,
            None => tail,
        }
    }
}

pub proof fn lemma_placed_departures_ifr(
    staged: Seq<StagedAircraft>,
    stands: Seq<DepartureStand>,
    airlines: Seq<Airline>,
    icao: String,
    altitude: u16,
    pseudo: String,
)
    ensures
        all_ifr(placed_departures(staged, stands, airlines, icao, altitude, pseudo)),
        placed_departures(staged, stands, airlines, icao, altitude, pseudo).len() <= staged.len(),
    decreases staged.len(),
{
    if staged.len() > 0 {
        let (rest, got) = stand_allocation(stands, staged[0].callsign@, airlines);
        lemma_placed_departures_ifr(staged.drop_first(), rest, airlines, icao, altitude, pseudo);
        let tail = placed_departures(staged.drop_first(), rest, airlines, icao, altitude, pseudo);
        if got is Some {
            let head = seq![adc_departure_aircraft(staged[0], got->0, icao, altitude, pseudo)];
            assert forall|k: int| 0 <= k < (head + tail).len() implies (#[trigger] (head
                + tail)[k]).flight_rule == FlightRule::I by {
                if k > 0 {
                    assert((head + tail)[k] == tail[k - 1]);
                }
            }
        }
    }
}

/// Gives each staged departure, in order, a stand taken from `stands`.
pub fn place_departures(
    staged: &Vec<StagedAircraft>,
    stands: Vec<DepartureStand>,
    airlines: &[Airline],
    icao: &String,
    altitude: u16,
    initial_pseudo_pilot: &String,
) -> (v: Vec<Aircraft>)
    ensures
        v@ == placed_departures(
            staged@,
            stands@,
            airlines@,
            *icao,
            altitude,
            *initial_pseudo_pilot,
        ),
{
    let mut stands = stands;
    let ghost target = placed_departures(
        staged@,
        stands@,
        airlines@,
        *icao,
        altitude,
        *initial_pseudo_pilot,
    );
    let mut out: Vec<Aircraft> = Vec::new();
    let n = staged.len();
    let mut i: usize = 0;
    assert(staged@.skip(0) == staged@);
    assert(out@ + target == target);
    while i < n
        invariant
            n == staged@.len(),
            i <= n,
            target == out@ + placed_departures(
                staged@.skip(i as int),
                stands@,
                airlines@,
                *icao,
                altitude,
                *initial_pseudo_pilot,
            ),
        decreases n - i,
    {
        let a = &staged[i];
        let ghost sk = staged@.skip(i as int);
        assert(sk[0] == staged@[i as int]);
        assert(sk.drop_first() == staged@.skip(i as int + 1));
        let ghost before = out@;
        match allocate_stand(&mut stands, a.callsign.as_str(), airlines) {
            Some(stand) => {
                out.push(
                    Aircraft {
                        flight_type: FlightType::Departure,
                        flight_rule: FlightRule::I,
                        callsign: a.callsign.clone(),
                        aircraft_type: a.aircraft_type.clone(),
                        squawk: Some(GROUND_SQUAWK),
                        spawn_coords: stand.coords,
                        spawn_altitude: altitude,
                        spawn_hdg: Some(stand.heading),
                        origin: icao.clone(),
                        dest: a.outstation.clone(),
                        filed_route: a.filed_route.clone(),
                        tas: Some(250),
                        rfl: Some(a.rfl),
                        flown_route: a.flown_route.clone(),
                        start: 0,
                        delay: None,
                        initial_pseudo_pilot: initial_pseudo_pilot.clone(),
                        has_flight_plan: true,
                    },
                );
                assert(out@ == before.push(out@.last()));
            },
            None => {},
        }
        proof {
            let tail = placed_departures(
                staged@.skip(i as int + 1),
                stands@,
                airlines@,
                *icao,
                altitude,
                *initial_pseudo_pilot,
            );
            assert(target == out@ + tail);
        }
        i = i + 1;
    }
    assert(staged@.skip(n as int) == Seq::<StagedAircraft>::empty());
    assert(out@ + Seq::<Aircraft>::empty() == out@);
    out
}

/// `v` is what placing the departures staged from the routes, shuffled and
/// cut to the number the session asks for, on the shuffled stands gives.
pub open spec fn adc_departures_made(config: AdcConfig, v: Seq<Aircraft>) -> bool {
    let routes = config.airport.departure_routes@;
    let std = config.airport.standard_routes@;
    let rwy = config.spec_runway().designator@;
    exists|s: Seq<StagedAircraft>, p: Seq<StagedAircraft>, st: Seq<DepartureStand>|
        #![trigger departures_staged(routes, std, rwy, s), permuted(p, s), permuted(st, all_stands(config.airport.terminals@))]
        departures_staged(routes, std, rwy, s) && permuted(p, s) && permuted(
            st,
            all_stands(config.airport.terminals@),
        ) && v == placed_departures(
            p.take(min_len(config.departures as nat, p.len()) as int),
            st,
            config.airport.airlines@,
            config.airport.icao,
            config.airport.elevation_ft,
            config.initial_pseudo_pilot,
        )
}

/// The departures of a tower session: staged, shuffled, cut to the number
/// asked for, and each put on a stand as long as stands are left. Every
/// departure route with callsigns must have an aircraft type and routes that
/// expand: see [`check_departure_routes`].
pub fn adc_departures(config: &AdcConfig) -> (v: Vec<Aircraft>)
    requires
        config.wf(),
        first_departure_fault(
            config.airport.departure_routes@,
            config.airport.standard_routes@,
            config.spec_runway().designator@,
            0,
        ) is None,
    ensures
        adc_departures_made(*config, v@),
        v@.len() <= config.departures,
        all_ifr(v@),
{
    let mut staged = stage_adc_departures(config.airport.departure_routes.as_slice(), config);
    let ghost s = staged@;
    let mut rng = thread_rng();
    shuffle(&mut staged, &mut rng);
    let ghost p = staged@;
    staged.truncate(config.departures as usize);
    assert(staged@ == p.take(min_len(config.departures as nat, p.len()) as int));
    let stands = generate_stands(&config.airport);
    let ghost st = stands@;
    let v = place_departures(
        &staged,
        stands,
        config.airport.airlines.as_slice(),
        &config.airport.icao,
        config.airport.elevation_ft,
        &config.initial_pseudo_pilot,
    );
    proof {
        lemma_placed_departures_ifr(
            staged@,
            st,
            config.airport.airlines@,
            config.airport.icao,
            config.airport.elevation_ft,
            config.initial_pseudo_pilot,
        );
    }
    assert(departures_staged(
        config.airport.departure_routes@,
        config.airport.standard_routes@,
        config.spec_runway().designator@,
        s,
    ) && permuted(p, s) && permuted(st, all_stands(config.airport.terminals@)));
    v
}

// ---------------------------------------------------------------------------
// The scenario file
// ---------------------------------------------------------------------------

/// The entries of the aircraft, a blank line between each two.
pub open spec fn traffic_text(aircraft: Seq<Aircraft>) -> Seq<char> {
    join_seq(Seq::new(aircraft.len(), |i: int| aircraft_entry(aircraft[i])), "\n\n"@)
}

/// The scenario file: a banner, the airport sections, the traffic and the
/// aircraft performance data, a blank line between each two.
pub open spec fn scenario_text(airport: Airport, aircraft: Seq<Aircraft>, perf: Seq<char>) -> Seq<
    char,
> {
    "; ----- Made using https://github.com/frazerxyz/sb_scenario_generator -----"@
        + "\n\nPSEUDOPILOT:ALL\n\n"@ + elevation_line(airport) + "\n\n"@ + runway_lines(
        airport.runways@,
    ) + "\n\n"@ + hold_lines(airport.holds@) + "\n\n"@ + custom_route_lines(
        airport.custom_routes@,
    ) + "\n\n"@ + controller_lines(airport.controllers@) + "\n\n"@ + traffic_text(aircraft)
        + "\n\n"@ + perf
}

/// The scenario file for the airport, the aircraft and the aircraft
/// performance data.
pub fn format_scenario(airport: &Airport, aircraft: &Vec<Aircraft>, aircraft_perf: &str) -> (s:
    String)
    ensures
        s@ == scenario_text(*airport, aircraft@, aircraft_perf@),
{
    let mut entries: Vec<String> = Vec::new();
    let n = aircraft.len();
    for i in 0..n
        invariant
            n == aircraft@.len(),
            entries@.len() == i,
            forall|k: int| 0 <= k < i ==> #[trigger] entries@[k]@ == aircraft_entry(aircraft@[k]),
    {
        entries.push(aircraft[i].to_string());
    }
    assert(views(entries@) == Seq::new(aircraft@.len(), |i: int| aircraft_entry(aircraft@[i])));
    let traffic = join(&entries, "\n\n");
    let mut s = owned("; ----- Made using https://github.com/frazerxyz/sb_scenario_generator -----");
    s.append("\n\nPSEUDOPILOT:ALL\n\n");
    s.append(airport.format_elevation().as_str());
    s.append("\n\n");
    s.append(airport.format_runways().as_str());
    s.append("\n\n");
    s.append(airport.format_holds().as_str());
    s.append("\n\n");
    s.append(airport.format_custom_routes().as_str());
    s.append("\n\n");
    s.append(airport.format_controllers().as_str());
    s.append("\n\n");
    s.append(traffic.as_str());
    s.append("\n\n");
    s.append(aircraft_perf);
    s
}

pub proof fn lemma_all_ifr_count(v: Seq<Aircraft>)
    requires
        all_ifr(v),
    ensures
        ifr_count(v) == v.len(),
    decreases v.len(),
{
    if v.len() > 0 {
        assert(v.last() == v[v.len() - 1]);
        lemma_all_ifr_count(v.drop_last());
    }
}

/// Why an approach session cannot be made, if it cannot: a departure route
/// that cannot be staged, else an arrival route that cannot, else more IFR
/// traffic than the code pool holds.
pub open spec fn app_scenario_fault(config: AppConfig, dep_times: Seq<u16>, arr_times: Seq<u16>) -> Option<
    ScenarioFault,
> {
    let std = config.airport.standard_routes@;
    let rwy = config.spec_runway().designator@;
    let df = first_departure_fault(config.airport.departure_routes@, std, rwy, 0);
    let af = first_arrival_fault(config.airport.arrival_routes@, ArrivalPosition::App, std, rwy, 0);
    let nd = min_len(slots(departure_counts(config.airport.departure_routes@)).len(), dep_times.len());
    let na = min_len(
        slots(arrival_counts(config.airport.arrival_routes@, ArrivalPosition::App)).len(),
        arr_times.len(),
    );
    if df is Some {
        df
    } else if af is Some {
        af
    } else if nd + na > SQUAWK_POOL_SIZE {
        Some(ScenarioFault::SquawkPoolExhausted)
    } else {
        None
    }
}

/// The scenario file of an approach session: the departures, then the
/// arrivals, with transponder codes, then the VFR traffic.
pub fn app_scenario(
    config: AppConfig,
    dep_times: &[u16],
    arr_times: &[u16],
    aircraft_perf: &str,
) -> (res: Result<String, ScenarioError>)
    requires
        config.wf(),
    ensures
        match res {
            Err(e) => app_scenario_fault(config, dep_times@, arr_times@) == Some(e@),
            Ok(s) => app_scenario_fault(config, dep_times@, arr_times@) is None && exists|
                d: Seq<Aircraft>,
                a: Seq<Aircraft>,
                t: Seq<Aircraft>,
            |
                #![trigger app_departures_made(config, dep_times@, d), arrivals_made(config.airport.arrival_routes@, ArrivalPosition::App, config.airport.standard_routes@, config.spec_runway().designator@, arr_times@, config.airport.icao, config.initial_pseudo_pilot, a), squawks_assigned(d + a, t)]
                app_departures_made(config, dep_times@, d) && arrivals_made(
                    config.airport.arrival_routes@,
                    ArrivalPosition::App,
                    config.airport.standard_routes@,
                    config.spec_runway().designator@,
                    arr_times@,
                    config.airport.icao,
                    config.initial_pseudo_pilot,
                    a,
                ) && squawks_assigned(d + a, t) && s@ == scenario_text(
                    config.airport,
                    t + config.vfr_traffic@,
                    aircraft_perf@,
                ),
        },
{
    let ghost cfg = config;
    let runway = config.runway().designator.as_str();
    match check_departure_routes(
        config.airport.departure_routes.as_slice(),
        config.airport.standard_routes.as_slice(),
        runway,
    ) {
        Err(e) => {
            return Err(e);
        },
        Ok(()) => {},
    }
    match check_arrival_routes(
        config.airport.arrival_routes.as_slice(),
        ArrivalPosition::App,
        config.airport.standard_routes.as_slice(),
        runway,
    ) {
        Err(e) => {
            return Err(e);
        },
        Ok(()) => {},
    }
    let deps = app_departures(&config, dep_times);
    let mut arrs = app_arrivals(&config, arr_times);
    let ghost d = deps@;
    let ghost a = arrs@;
    let mut aircraft = deps;
    aircraft.append(&mut arrs);
    if aircraft.len() > SQUAWK_POOL_SIZE {
        return Err(ScenarioError::SquawkPoolExhausted);
    }
    proof {
        assert(all_ifr(d + a)) by {
            assert forall|k: int| 0 <= k < (d + a).len() implies (#[trigger] (d + a)[k]).flight_rule
                == FlightRule::I by {
                if k >= d.len() {
                    assert((d + a)[k] == a[k - d.len()]);
                }
            }
        }
        lemma_all_ifr_count(d + a);
    }
    assign_squawks(&mut aircraft);
    let ghost t = aircraft@;
    let AppConfig { airport, mut vfr_traffic, .. } = config;
    aircraft.append(&mut vfr_traffic);
    let s = format_scenario(&airport, &aircraft, aircraft_perf);
    assert(app_departures_made(cfg, dep_times@, d) && arrivals_made(
        cfg.airport.arrival_routes@,
        ArrivalPosition::App,
        cfg.airport.standard_routes@,
        cfg.spec_runway().designator@,
        arr_times@,
        cfg.airport.icao,
        cfg.initial_pseudo_pilot,
        a,
    ) && squawks_assigned(d + a, t));
    Ok(s)
}

/// Why a tower session cannot be made, if it cannot: an arrival route that
/// cannot be staged, else more arrivals than the code pool holds, else a
/// departure route that cannot be staged.
pub open spec fn adc_scenario_fault(config: AdcConfig, arr_times: Seq<u16>) -> Option<
    ScenarioFault,
> {
    let std = config.airport.standard_routes@;
    let rwy = config.spec_runway().designator@;
    let af = first_arrival_fault(config.airport.arrival_routes@, ArrivalPosition::Adc, std, rwy, 0);
    let na = min_len(
        slots(arrival_counts(config.airport.arrival_routes@, ArrivalPosition::Adc)).len(),
        arr_times.len(),
    );
    let df = first_departure_fault(config.airport.departure_routes@, std, rwy, 0);
    if af is Some {
        af
    } else if na > SQUAWK_POOL_SIZE {
        Some(ScenarioFault::SquawkPoolExhausted)
    } else if df is Some {
        df
    } else {
        None
    }
}

/// The scenario file of a tower session: the arrivals, with transponder
/// codes, then the departures on their stands, then the VFR traffic.
pub fn adc_scenario(config: AdcConfig, arr_times: &[u16], aircraft_perf: &str) -> (res: Result<
    String,
    ScenarioError,
>)
    requires
        config.wf(),
    ensures
        match res {
            Err(e) => adc_scenario_fault(config, arr_times@) == Some(e@),
            Ok(s) => adc_scenario_fault(config, arr_times@) is None && exists|
                a: Seq<Aircraft>,
                t: Seq<Aircraft>,
                d: Seq<Aircraft>,
            |
                #![trigger arrivals_made(config.airport.arrival_routes@, ArrivalPosition::Adc, config.airport.standard_routes@, config.spec_runway().designator@, arr_times@, config.airport.icao, config.initial_pseudo_pilot, a), squawks_assigned(a, t), adc_departures_made(config, d)]
                arrivals_made(
                    config.airport.arrival_routes@,
                    ArrivalPosition::Adc,
                    config.airport.standard_routes@,
                    config.spec_runway().designator@,
                    arr_times@,
                    config.airport.icao,
                    config.initial_pseudo_pilot,
                    a,
                ) && squawks_assigned(a, t) && adc_departures_made(config, d) && s@
                    == scenario_text(config.airport, t + d + config.vfr_traffic@, aircraft_perf@),
        },
{
    let ghost cfg = config;
    match check_arrival_routes(
        config.airport.arrival_routes.as_slice(),
        ArrivalPosition::Adc,
        config.airport.standard_routes.as_slice(),
        config.runway().designator.as_str(),
    ) {
        Err(e) => {
            return Err(e);
        },
        Ok(()) => {},
    }
    let mut aircraft = adc_arrivals(&config, arr_times);
    let ghost a = aircraft@;
    if aircraft.len() > SQUAWK_POOL_SIZE {
        return Err(ScenarioError::SquawkPoolExhausted);
    }
    proof {
        lemma_all_ifr_count(a);
    }
    assign_squawks(&mut aircraft);
    let ghost t = aircraft@;
    match check_departure_routes(
        config.airport.departure_routes.as_slice(),
        config.airport.standard_routes.as_slice(),
        config.runway().designator.as_str(),
    ) {
        Err(e) => {
            return Err(e);
        },
        Ok(()) => {},
    }
    let mut deps = adc_departures(&config);
    let ghost d = deps@;
    aircraft.append(&mut deps);
    let AdcConfig { airport, mut vfr_traffic, .. } = config;
    aircraft.append(&mut vfr_traffic);
    let s = format_scenario(&airport, &aircraft, aircraft_perf);
    assert(arrivals_made(
        cfg.airport.arrival_routes@,
        ArrivalPosition::Adc,
        cfg.airport.standard_routes@,
        cfg.spec_runway().designator@,
        arr_times@,
        cfg.airport.icao,
        cfg.initial_pseudo_pilot,
        a,
    ) && squawks_assigned(a, t) && adc_departures_made(cfg, d));
    Ok(s)
}

// ---------------------------------------------------------------------------
// VFR traffic
// ---------------------------------------------------------------------------

/// The transponder code of the VFR traffic that the session sets up.
pub const LOCAL_VFR_SQUAWK: u16 = 0o7000;

/// A ground VFR aircraft that the user configured.
pub struct StagedGroundVfr {
    pub callsign: String,
    pub aircraft_type: String,
    pub flight_plan: VfrFlightPlan,
}

/// The aircraft made of a local VFR aircraft of the airport data; it has a
/// flight plan when the plan names a departure aerodrome.
pub open spec fn local_vfr_aircraft(l: LocalVfr, pseudo: String) -> Aircraft {
    Aircraft {
        flight_type: FlightType::Local,
        flight_rule: FlightRule::V,
        callsign: l.callsign,
        aircraft_type: l.aircraft_type,
        squawk: Some(LOCAL_VFR_SQUAWK),
        spawn_coords: l.spawn_coords,
        spawn_altitude: l.spawn_alt,
        spawn_hdg: None,
        origin: l.flight_plan.dep,
        dest: l.flight_plan.dest,
        filed_route: l.flight_plan.route,
        tas: Some(120),
        rfl: Some(l.flight_plan.alt),
        flown_route: l.route,
        start: 0,
        delay: None,
        initial_pseudo_pilot: pseudo,
        has_flight_plan: l.flight_plan.dep@.len() > 0,
    }
}

/// The aircraft made of a configured ground VFR aircraft on a spawn point.
pub open spec fn ground_vfr_aircraft(
    g: StagedGroundVfr,
    coords: String,
    altitude: u16,
    pseudo: String,
    flown: String,
) -> Aircraft {
    Aircraft {
        flight_type: FlightType::Local,
        flight_rule: FlightRule::V,
        callsign: g.callsign,
        aircraft_type: g.aircraft_type,
        squawk: Some(LOCAL_VFR_SQUAWK),
        spawn_coords: coords,
        spawn_altitude: altitude,
        spawn_hdg: None,
        origin: g.flight_plan.dep,
        dest: g.flight_plan.dest,
        filed_route: g.flight_plan.route,
        tas: Some(120),
        rfl: Some(g.flight_plan.alt),
        flown_route: flown,
        start: 0,
        delay: None,
        initial_pseudo_pilot: pseudo,
        has_flight_plan: true,
    }
}

/// The local VFR aircraft that count: the selected ones, where the airport has local VFR traffic.
pub open spec fn counted_local(airport: Airport, local: Seq<LocalVfr>) -> Seq<LocalVfr> {
    if airport.local_vfr is Some {
        local
    } else {
        seq![]
    }
}

/// The number of ground VFR aircraft that get a spawn point.
pub open spec fn counted_ground(airport: Airport, ground: Seq<StagedGroundVfr>) -> nat {
    match airport.ground_vfr {
        Some(g) => min_len(ground.len(), g.spawn_coords@.len()),
        None => 0,
    }
}

/// `v` holds the local VFR aircraft, then the ground VFR aircraft paired in
/// order with the airport's spawn points, all with the pseudo pilot.
pub open spec fn vfr_configured(
    airport: Airport,
    local: Seq<LocalVfr>,
    ground: Seq<StagedGroundVfr>,
    pseudo: Seq<char>,
    v: Seq<Aircraft>,
) -> bool {
    let ls = counted_local(airport, local);
    let gn = counted_ground(airport, ground);
    &&& v.len() == ls.len() + gn
    &&& forall|k: int| 0 <= k < v.len() ==> (#[trigger] v[k]).initial_pseudo_pilot@ == pseudo
    &&& forall|k: int|
        0 <= k < ls.len() ==> #[trigger] v[k] == local_vfr_aircraft(
            ls[k],
            v[k].initial_pseudo_pilot,
        )
    &&& forall|k: int|
        0 <= k < gn ==> #[trigger] v[ls.len() + k] == ground_vfr_aircraft(
            ground[k],
            airport.ground_vfr->0.spawn_coords@[k],
            airport.elevation_ft,
            v[ls.len() + k].initial_pseudo_pilot,
            v[ls.len() + k].flown_route,
        ) && v[ls.len() + k].flown_route@.len() == 0
}

/// The VFR traffic of a session: the selected local VFR aircraft, where the
/// airport has any, then the configured ground VFR aircraft on the airport's
/// ground spawn points, as far as there are spawn points.
pub fn configure_vfr(
    airport: &Airport,
    local_selection: &Vec<LocalVfr>,
    ground: &Vec<StagedGroundVfr>,
    initial_pseudo_pilot: &str,
) -> (v: Vec<Aircraft>)
    ensures
        vfr_configured(*airport, local_selection@, ground@, initial_pseudo_pilot@, v@),
{
    let mut out: Vec<Aircraft> = Vec::new();
    let ghost ls = counted_local(*airport, local_selection@);
    if airport.local_vfr.is_some() {
        let n = local_selection.len();
        for i in 0..n
            invariant
                n == local_selection@.len(),
                ls == local_selection@,
                out@.len() == i,
                forall|k: int|
                    0 <= k < i ==> (#[trigger] out@[k]).initial_pseudo_pilot@
                        == initial_pseudo_pilot@ && out@[k] == local_vfr_aircraft(
                        ls[k],
                        out@[k].initial_pseudo_pilot,
                    ),
        {
            let l = &local_selection[i];
            out.push(
                Aircraft {
                    flight_type: FlightType::Local,
                    flight_rule: FlightRule::V,
                    callsign: l.callsign.clone(),
                    aircraft_type: l.aircraft_type.clone(),
                    squawk: Some(LOCAL_VFR_SQUAWK),
                    spawn_coords: l.spawn_coords.clone(),
                    spawn_altitude: l.spawn_alt,
                    spawn_hdg: None,
                    origin: l.flight_plan.dep.clone(),
                    dest: l.flight_plan.dest.clone(),
                    filed_route: l.flight_plan.route.clone(),
                    tas: Some(120),
                    rfl: Some(l.flight_plan.alt),
                    flown_route: l.route.clone(),
                    start: 0,
                    delay: None,
                    initial_pseudo_pilot: owned(initial_pseudo_pilot),
                    has_flight_plan: !l.flight_plan.dep.as_str().is_empty(),
                },
            );
        }
    }
    let ghost base = out@.len();
    let ghost prev = out@;
    if let Some(g) = &airport.ground_vfr {
        let n = if ground.len() < g.spawn_coords.len() {
            ground.len()
        } else {
            g.spawn_coords.len()
        };
        for i in 0..n
            invariant
                n == min_len(ground@.len(), g.spawn_coords@.len()),
                airport.ground_vfr == Some(*g),
                base == ls.len(),
                out@.len() == base + i,
                forall|k: int| 0 <= k < base ==> #[trigger] out@[k] == prev[k],
                forall|k: int|
                    0 <= k < i ==> (#[trigger] out@[base + k]).initial_pseudo_pilot@
                        == initial_pseudo_pilot@ && out@[base + k] == ground_vfr_aircraft(
                        ground@[k],
                        g.spawn_coords@[k],
                        airport.elevation_ft,
                        out@[base + k].initial_pseudo_pilot,
                        out@[base + k].flown_route,
                    ) && out@[base + k].flown_route@.len() == 0,
        {
            let s = &ground[i];
            let flown = owned("");
            proof {
                reveal_strlit("");
            }
            out.push(
                Aircraft {
                    flight_type: FlightType::Local,
                    flight_rule: FlightRule::V,
                    callsign: s.callsign.clone(),
                    aircraft_type: s.aircraft_type.clone(),
                    squawk: Some(LOCAL_VFR_SQUAWK),
                    spawn_coords: g.spawn_coords[i].clone(),
                    spawn_altitude: airport.elevation_ft,
                    spawn_hdg: None,
                    origin: s.flight_plan.dep.clone(),
                    dest: s.flight_plan.dest.clone(),
                    filed_route: s.flight_plan.route.clone(),
                    tas: Some(120),
                    rfl: Some(s.flight_plan.alt),
                    flown_route: flown,
                    start: 0,
                    delay: None,
                    initial_pseudo_pilot: owned(initial_pseudo_pilot),
                    has_flight_plan: true,
                },
            );
            assert(out@[base + i as int] == out@.last());
        }
    }
    proof {
        let gn = counted_ground(*airport, ground@);
        assert forall|k: int| 0 <= k < out@.len() implies (#[trigger] out@[k]).initial_pseudo_pilot@
            == initial_pseudo_pilot@ by {
            if k >= base {
                assert(out@[base + (k - base)] == out@[k]);
            } else {
                assert(out@[k] == prev[k]);
            }
        }
    }
    out
}

/// The question before each further ground VFR aircraft, while spawn points
/// are left: `None` once every spawn point has an aircraft.
pub open spec fn ground_vfr_question(configured: nat, spawn_points: nat) -> Option<Seq<char>> {
    if configured >= spawn_points {
        None
    } else if configured == 0 {
        Some("Would you like to configure any ground VFR aircraft?"@)
    } else {
        Some("Would you like to configure another ground VFR aircraft?"@)
    }
}

pub fn ground_vfr_prompt(configured: usize, spawn_points: usize) -> (q: Option<String>)
    ensures
        match q {
            Some(s) => ground_vfr_question(configured as nat, spawn_points as nat) == Some(s@),
            None => ground_vfr_question(configured as nat, spawn_points as nat) is None,
        },
{
    if configured >= spawn_points {
        None
    } else if configured == 0 {
        Some(owned("Would you like to configure any ground VFR aircraft?"))
    } else {
        Some(owned("Would you like to configure another ground VFR aircraft?"))
    }
}

// ---------------------------------------------------------------------------
// Answers of the session wizards
// ---------------------------------------------------------------------------

pub open spec fn default_pseudo_pilot_text(icao: Seq<char>, session: SessionType) -> Seq<char> {
    match session {
        SessionType::App => icao + "_M_APP"@,
        SessionType::Adc => icao + "_M_TWR"@,
    }
}

/// The mentor callsign that a session starts with unless the user gives another.
pub fn default_pseudo_pilot(icao: &str, session: SessionType) -> (s: String)
    ensures
        s@ == default_pseudo_pilot_text(icao@, session),
{
    let mut s = owned(icao);
    match session {
        SessionType::App => s.append("_M_APP"),
        SessionType::Adc => s.append("_M_TWR"),
    }
    s
}

/// A departure interval is at least 2 minutes.
pub fn validate_dep_interval(val: u8) -> (r: Result<(), &'static str>)
    ensures
        r is Ok <==> val >= 2,
        r matches Err(m) ==> m@ == "Departure interval must be at least 2 minutes"@,
{
    if val >= 2 {
        Ok(())
    } else {
        Err("Departure interval must be at least 2 minutes")
    }
}

/// An arrival interval is at least 1 minute.
pub fn validate_arr_interval(val: u8) -> (r: Result<(), &'static str>)
    ensures
        r is Ok <==> val >= 1,
        r matches Err(m) ==> m@ == "Arrival interval cannot be 0"@,
{
    if val >= 1 {
        Ok(())
    } else {
        Err("Arrival interval cannot be 0")
    }
}

/// A ground VFR callsign is not empty and has at most 7 bytes.
pub fn validate_callsign(callsign: &str) -> (r: Result<(), &'static str>)
    ensures
        r is Ok <==> callsign@.len() > 0 && callsign.len() <= 7,
        r matches Err(m) ==> m@ == (if callsign.len() > 7 {
            "Callsign too long. Max 7 characters"@
        } else {
            "Please enter a callsign"@
        }),
{
    if callsign.len() <= 7 {
        if callsign.is_empty() {
            Err("Please enter a callsign")
        } else {
            Ok(())
        }
    } else {
        Err("Callsign too long. Max 7 characters")
    }
}

/// An aircraft type code is not empty and has at most 4 bytes.
pub fn validate_type_code(code: &str) -> (r: Result<(), &'static str>)
    ensures
        r is Ok <==> code@.len() > 0 && code.len() <= 4,
        r matches Err(m) ==> m@ == (if code.len() > 4 {
            "Type code length too long. Max 4 characters"@
        } else {
            "Please enter a type code"@
        }),
{
    if code.len() <= 4 {
        if code.is_empty() {
            Err("Please enter a type code")
        } else {
            Ok(())
        }
    } else {
        Err("Type code length too long. Max 4 characters")
    }
}

/// The check on a mentor callsign that overrides the default pseudo pilot:
/// one with an underscore passes, and so does one entered a second time in
/// a row to force it through.
pub struct PseudoPilotCheck {
    pub force: Option<String>,
}

impl PseudoPilotCheck {
    pub fn new() -> (c: PseudoPilotCheck)
        ensures
            c.force is None,
    {
        PseudoPilotCheck { force: None }
    }

    pub open spec fn accepts(&self, input: Seq<char>) -> bool {
        input.contains('_') || (self.force matches Some(f) && f@ == input)
    }

    pub fn check(&mut self, input: &String) -> (r: Result<(), &'static str>)
        ensures
            r is Ok <==> old(self).accepts(input@),
            r is Ok ==> final(self).force == old(self).force,
            r matches Err(m) ==> m@
                == "That doesn't look like a mentor callsign. Enter again to force proceed"@
                && final(self).force == Some(*input),
    {
        let forced = match &self.force {
            Some(f) => *f == *input,
            None => false,
        };
        if contains_char(input.as_str(), '_') || forced {
            Ok(())
        } else {
            self.force = Some(input.clone());
            Err("That doesn't look like a mentor callsign. Enter again to force proceed")
        }
    }
}

} // verus!
