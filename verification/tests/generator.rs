use sb_scenario_generator::aircraft::{Aircraft, FlightRule, FlightType};
use sb_scenario_generator::airport::{
    Airline, Airport, ArrivalRoute, DepartureRoute, GroundVfr, LocalVfr, PositionRoute,
    ReferenceCode, Runway, RunwayRoute, Stand, StandardRoute, Terminal, VfrFlightPlan,
};
use sb_scenario_generator::generator::{
    adc_arrivals, adc_departures, adc_scenario, app_arrivals, app_departures, app_scenario,
    check_arrival_routes, check_departure_routes, configure_vfr, default_pseudo_pilot, format_scenario, ground_vfr_prompt, place_departures,
    schedule_app_departures, schedule_arrivals, stage_adc_arrivals, stage_adc_departures,
    stage_app_arrivals, stage_app_departures, validate_arr_interval, validate_callsign,
    validate_dep_interval, validate_type_code, AdcConfig, AppConfig, PseudoPilotCheck,
    ArrivalPosition, ScenarioError, SessionType, StagedAircraft, StagedGroundVfr,
};
use sb_scenario_generator::route_parser::RouteError;
use sb_scenario_generator::stands::{
    allocate_stand, generate_stands, preferred_terminals, DepartureStand,
};

fn s(x: &str) -> String {
    x.to_string()
}

fn position(coords: &str, alt: u16, route: &str) -> PositionRoute {
    PositionRoute { spawn_coords: s(coords), spawn_alt: alt, flown_route: s(route) }
}

fn airport() -> Airport {
    Airport {
        icao: s("EGKK"),
        update_url: None,
        elevation_text: s("203.2"),
        elevation_ft: 203,
        elevation_rounded: 203,
        runways: vec![Runway {
            designator: s("26L"),
            threshold: s("N1:W1"),
            track: s("257.8"),
            dep_spawn: s("N2:W2"),
        }],
        holds: vec![],
        custom_routes: vec![],
        controllers: vec![],
        airlines: vec![
            Airline { icao: s("BAW"), terminals: vec![2], types: vec![s("A320")] },
            Airline { icao: s("EZY"), terminals: vec![1], types: vec![s("A319")] },
        ],
        terminals: vec![
            Terminal {
                id: 1,
                label: s("South"),
                stands: vec![
                    Stand { id: 1, coords: s("S1:C"), heading: 100, max_size: ReferenceCode::C },
                    Stand { id: 2, coords: s("S2:C"), heading: 200, max_size: ReferenceCode::C },
                ],
            },
            Terminal {
                id: 2,
                label: s("North"),
                stands: vec![Stand {
                    id: 50,
                    coords: s("N50:C"),
                    heading: 300,
                    max_size: ReferenceCode::E,
                }],
            },
        ],
        standard_routes: vec![StandardRoute {
            name: s("LAM"),
            routes: vec![RunwayRoute {
                runway: Some(s("26L")),
                filed_route: s("LAM1X LAM"),
                flown_route: Some(s("KK26L LAM")),
            }],
        }],
        departure_routes: vec![
            DepartureRoute {
                dest: s("LFPG"),
                callsigns: vec![s("BAW301"), s("EZY801")],
                types: vec![s("A320"), s("A319")],
                filed_route: s("$LAM DCT BNN"),
                flown_route: s("$LAM"),
                rfl: 240,
            },
            DepartureRoute {
                dest: s("EHAM"),
                callsigns: vec![s("KLM1000")],
                types: vec![s("E190")],
                filed_route: s("DVR UL9"),
                flown_route: s("DVR"),
                rfl: 310,
            },
        ],
        arrival_routes: vec![
            ArrivalRoute {
                dep: s("EGPH"),
                callsigns: vec![s("EZY60"), s("BAW1442")],
                types: vec![s("A320")],
                filed_route: s("TIMBA"),
                rfl: 350,
                ctr_route: None,
                app_route: Some(position("A:B", 7000, "TIMBA $LAM")),
                adc_route: Some(position("C:D", 2000, "KK26L")),
            },
            ArrivalRoute {
                dep: s("LEMD"),
                callsigns: vec![s("IBE3170")],
                types: vec![s("A321")],
                filed_route: s("WILLO"),
                rfl: 370,
                ctr_route: None,
                app_route: None,
                adc_route: Some(position("E:F", 2500, "KK26L")),
            },
        ],
        local_vfr: Some(vec![LocalVfr {
            callsign: s("GABCD"),
            aircraft_type: s("C172"),
            spawn_coords: s("L:V"),
            spawn_alt: 1500,
            route: s("CIRCUIT"),
            flight_plan: VfrFlightPlan { dep: s(""), dest: s(""), route: s(""), alt: 15 },
        }]),
        ground_vfr: Some(GroundVfr {
            spawn_coords: vec![s("G1:X"), s("G2:X")],
            default_flight_plan: VfrFlightPlan {
                dep: s("EGKK"),
                dest: s("EGKA"),
                route: s("VFR"),
                alt: 20,
            },
        }),
    }
}

fn app_config() -> AppConfig {
    AppConfig {
        airport: airport(),
        selected_runway: 0,
        dep_interval: 3,
        arr_interval: 2,
        duration: 60,
        ramp_time: None,
        name: s("test"),
        initial_pseudo_pilot: s("EGKK_M_APP"),
        vfr_traffic: vec![],
    }
}

fn adc_config(departures: u8) -> AdcConfig {
    AdcConfig {
        airport: airport(),
        arrival_runway: 0,
        departures,
        arr_interval: 3,
        duration: 30,
        name: s("tower"),
        initial_pseudo_pilot: s("EGKK_M_TWR"),
        vfr_traffic: vec![],
    }
}

#[test]
fn session_type_names() {
    assert_eq!(SessionType::Adc.to_string(), "ADC");
    assert_eq!(SessionType::App.to_string(), "APP");
}

#[test]
fn staging_departures_one_per_callsign_in_order() {
    let c = app_config();
    let staged = stage_app_departures(&c.airport.departure_routes, &c);
    let callsigns: Vec<&str> = staged.iter().map(|a| a.callsign.as_str()).collect();
    assert_eq!(callsigns, vec!["BAW301", "EZY801", "KLM1000"]);
    assert_eq!(staged[0].filed_route, "LAM1X LAM DCT BNN");
    assert_eq!(staged[0].flown_route, "KK26L LAM");
    assert_eq!(staged[0].outstation, "LFPG");
    assert!(staged[0].aircraft_type == "A320" || staged[0].aircraft_type == "A319");
    assert_eq!(staged[2].aircraft_type, "E190");
    assert_eq!(staged[2].rfl, 310);
    assert!(staged.iter().all(|a| a.spawn_coords.is_none() && a.spawn_alt.is_none()));
    let adc = adc_config(5);
    assert_eq!(stage_adc_departures(&adc.airport.departure_routes, &adc).len(), 3);
}

#[test]
fn staging_arrivals_uses_the_session_position() {
    let c = app_config();
    let staged = stage_app_arrivals(&c.airport.arrival_routes, &c);
    assert_eq!(staged.len(), 2);
    assert_eq!(staged[0].callsign, "EZY60");
    assert_eq!(staged[0].spawn_coords, Some(s("A:B")));
    assert_eq!(staged[0].spawn_alt, Some(7000));
    assert_eq!(staged[0].flown_route, "TIMBA KK26L LAM");
    let adc = adc_config(1);
    let staged = stage_adc_arrivals(&adc.airport.arrival_routes, &adc);
    let callsigns: Vec<&str> = staged.iter().map(|a| a.callsign.as_str()).collect();
    assert_eq!(callsigns, vec!["EZY60", "BAW1442", "IBE3170"]);
    assert_eq!(staged[2].spawn_coords, Some(s("E:F")));
}

#[test]
fn staging_reports_the_first_bad_route() {
    let mut c = app_config();
    let rwy = c.runway().designator.clone();
    assert!(check_departure_routes(&c.airport.departure_routes, &c.airport.standard_routes, &rwy)
        .is_ok());
    c.airport.departure_routes[1].filed_route = s("$NOPE");
    c.airport.departure_routes[0].types.clear();
    match check_departure_routes(&c.airport.departure_routes, &c.airport.standard_routes, &rwy) {
        Err(ScenarioError::NoAircraftType) => {}
        _ => panic!("expected no aircraft type"),
    }
    c.airport.departure_routes[0].callsigns.clear();
    match check_departure_routes(&c.airport.departure_routes, &c.airport.standard_routes, &rwy) {
        Err(ScenarioError::Route(RouteError::UnknownStandardRoute { name })) => {
            assert_eq!(name, "NOPE")
        }
        _ => panic!("expected an unknown route"),
    }
    assert_eq!(
        ScenarioError::NoAircraftType.message(),
        "No aircraft type provided for one or more routes"
    );
}

#[test]
fn arrival_checks_follow_the_session_position() {
    let mut c = app_config();
    let rwy = c.runway().designator.clone();
    for position in [ArrivalPosition::App, ArrivalPosition::Adc] {
        assert!(check_arrival_routes(
            &c.airport.arrival_routes,
            position,
            &c.airport.standard_routes,
            &rwy
        )
        .is_ok());
    }
    c.airport.arrival_routes[1].types.clear();
    match check_arrival_routes(
        &c.airport.arrival_routes,
        ArrivalPosition::Adc,
        &c.airport.standard_routes,
        &rwy,
    ) {
        Err(e) => assert_eq!(e.message(), "No aircraft type provided for one or more routes"),
        Ok(()) => panic!("expected no aircraft type"),
    }
}

fn staged(callsign: &str, coords: Option<&str>) -> StagedAircraft {
    StagedAircraft {
        callsign: s(callsign),
        outstation: s("LFPG"),
        aircraft_type: s("A320"),
        filed_route: s("F"),
        flown_route: s("W"),
        spawn_coords: coords.map(s),
        spawn_alt: coords.map(|_| 5000),
        rfl: 300,
    }
}

#[test]
fn arrivals_are_paired_with_times() {
    let st = vec![staged("A1", Some("X:Y")), staged("A2", Some("Z:W")), staged("A3", Some("Q:R"))];
    let out = schedule_arrivals(&st, &[0, 5], &s("EGKK"), &s("PP"));
    assert_eq!(out.len(), 2);
    assert_eq!(out[1].callsign, "A2");
    assert_eq!(out[1].start, 5);
    assert_eq!(out[1].spawn_coords, "Z:W");
    assert_eq!(out[1].spawn_altitude, 5000);
    assert_eq!(out[1].origin, "LFPG");
    assert_eq!(out[1].dest, "EGKK");
    assert_eq!(out[1].tas, Some(250));
    assert_eq!(out[1].rfl, Some(300));
    assert_eq!(out[1].squawk, None);
    assert_eq!(out[1].flight_type, FlightType::Arrival);
    let none = schedule_arrivals(&st, &[], &s("EGKK"), &s("PP"));
    assert!(none.is_empty());
}

#[test]
fn radar_departures_spawn_at_the_runway() {
    let st = vec![staged("D1", None)];
    let out = schedule_app_departures(&st, &[0, 3, 6], &s("EGKK"), &s("N2:W2"), 203, &s("PP"));
    assert_eq!(out.len(), 1);
    assert_eq!(out[0].spawn_coords, "N2:W2");
    assert_eq!(out[0].spawn_altitude, 203);
    assert_eq!(out[0].origin, "EGKK");
    assert_eq!(out[0].dest, "LFPG");
    assert_eq!(out[0].flight_type, FlightType::Departure);
}

#[test]
fn app_traffic_is_cut_to_the_times() {
    let c = app_config();
    let deps = app_departures(&c, &[0, 3]);
    assert_eq!(deps.len(), 2);
    assert_eq!(deps[0].start, 0);
    assert_eq!(deps[1].start, 3);
    let arrs = app_arrivals(&c, &[0, 2, 4, 6]);
    assert_eq!(arrs.len(), 2);
    assert!(arrs.iter().all(|a| a.flight_rule == FlightRule::I && a.dest == "EGKK"));
    let adc = adc_config(1);
    assert_eq!(adc_arrivals(&adc, &[0, 3, 6, 9]).len(), 3);
}

#[test]
fn preferred_terminals_follow_the_airline() {
    let a = airport();
    assert_eq!(preferred_terminals("BAW301", &a.airlines), &[2]);
    assert_eq!(preferred_terminals("EZY801", &a.airlines), &[1]);
    assert!(preferred_terminals("KLM1000", &a.airlines).is_empty());
    assert!(preferred_terminals("BA", &a.airlines).is_empty());
    assert!(preferred_terminals("BAé", &a.airlines).is_empty());
}

fn stand(number: u32, terminal: u32) -> DepartureStand {
    DepartureStand {
        number,
        terminal,
        max_size: ReferenceCode::C,
        coords: format!("S{number}"),
        heading: 0,
    }
}

#[test]
fn stand_allocation_prefers_airline_terminal() {
    let a = airport();
    let mut stands = vec![stand(1, 1), stand(2, 1), stand(50, 2), stand(3, 1)];
    let got = allocate_stand(&mut stands, "BAW301", &a.airlines).unwrap();
    assert_eq!(got.number, 50);
    assert_eq!(stands.iter().map(|s| s.number).collect::<Vec<_>>(), vec![1, 2, 3]);
    let got = allocate_stand(&mut stands, "BAW302", &a.airlines).unwrap();
    assert_eq!(got.number, 3);
    let got = allocate_stand(&mut stands, "EZY1", &a.airlines).unwrap();
    assert_eq!(got.number, 1);
    let got = allocate_stand(&mut stands, "KLM1", &a.airlines).unwrap();
    assert_eq!(got.number, 2);
    assert!(allocate_stand(&mut stands, "KLM2", &a.airlines).is_none());
}

#[test]
fn generated_stands_are_all_stands() {
    let a = airport();
    let mut numbers: Vec<(u32, u32)> =
        generate_stands(&a).iter().map(|s| (s.number, s.terminal)).collect();
    numbers.sort();
    assert_eq!(numbers, vec![(1, 1), (2, 1), (50, 2)]);
}

#[test]
fn departures_without_a_stand_are_left_out() {
    let a = airport();
    let st = vec![staged("BAW1", None), staged("EZY2", None), staged("KLM3", None)];
    let stands = vec![stand(1, 1), stand(50, 2)];
    let out = place_departures(&st, stands, &a.airlines, &s("EGKK"), 203, &s("PP"));
    assert_eq!(out.len(), 2);
    assert_eq!(out[0].callsign, "BAW1");
    assert_eq!(out[0].spawn_coords, "S50");
    assert_eq!(out[0].squawk, Some(0o2000));
    assert_eq!(out[0].spawn_hdg, Some(0));
    assert_eq!(out[1].callsign, "EZY2");
    assert_eq!(out[1].spawn_coords, "S1");
    assert_eq!(out[1].start, 0);
}

#[test]
fn tower_departures_are_cut_to_the_count() {
    let c = adc_config(2);
    let deps = adc_departures(&c);
    assert_eq!(deps.len(), 2);
    assert!(deps.iter().all(|d| d.spawn_altitude == 203 && d.origin == "EGKK"));
    let c = adc_config(10);
    assert_eq!(adc_departures(&c).len(), 3);
}

#[test]
fn vfr_traffic_from_local_and_ground() {
    let a = airport();
    let local = a.local_vfr.clone().unwrap();
    let mut ground = Vec::new();
    for _ in 0..3 {
        ground.push(StagedGroundVfr {
            callsign: s("GXYZ"),
            aircraft_type: s("PA28"),
            flight_plan: a.ground_vfr.as_ref().unwrap().default_flight_plan.clone(),
        });
    }
    let v = configure_vfr(&a, &local, &ground, "EGKK_M_TWR");
    assert_eq!(v.len(), 3);
    assert_eq!(v[0].callsign, "GABCD");
    assert!(!v[0].has_flight_plan);
    assert_eq!(v[0].flown_route, "CIRCUIT");
    assert_eq!(v[0].squawk, Some(0o7000));
    assert_eq!(v[1].spawn_coords, "G1:X");
    assert_eq!(v[2].spawn_coords, "G2:X");
    assert_eq!(v[2].spawn_altitude, 203);
    assert_eq!(v[2].flown_route, "");
    assert!(v[2].has_flight_plan);
    assert_eq!(v[2].origin, "EGKK");
    assert!(v.iter().all(|x| x.initial_pseudo_pilot == "EGKK_M_TWR"
        && x.flight_rule == FlightRule::V
        && x.flight_type == FlightType::Local));
    let mut bare = airport();
    bare.local_vfr = None;
    bare.ground_vfr = None;
    assert!(configure_vfr(&bare, &local, &ground, "X").is_empty());
}

#[test]
fn ground_vfr_questions() {
    assert_eq!(
        ground_vfr_prompt(0, 2).unwrap(),
        "Would you like to configure any ground VFR aircraft?"
    );
    assert_eq!(
        ground_vfr_prompt(1, 2).unwrap(),
        "Would you like to configure another ground VFR aircraft?"
    );
    assert!(ground_vfr_prompt(2, 2).is_none());
    assert!(ground_vfr_prompt(0, 0).is_none());
}

#[test]
fn wizard_answers() {
    assert_eq!(default_pseudo_pilot("EGKK", SessionType::App), "EGKK_M_APP");
    assert_eq!(default_pseudo_pilot("EGLL", SessionType::Adc), "EGLL_M_TWR");
    assert_eq!(validate_dep_interval(2), Ok(()));
    assert_eq!(
        validate_dep_interval(1),
        Err("Departure interval must be at least 2 minutes")
    );
    assert_eq!(validate_arr_interval(1), Ok(()));
    assert_eq!(validate_arr_interval(0), Err("Arrival interval cannot be 0"));
    assert_eq!(validate_callsign("GABCDEF"), Ok(()));
    assert_eq!(validate_callsign(""), Err("Please enter a callsign"));
    assert_eq!(
        validate_callsign("GABCDEFG"),
        Err("Callsign too long. Max 7 characters")
    );
    assert_eq!(validate_type_code("C172"), Ok(()));
    assert_eq!(validate_type_code(""), Err("Please enter a type code"));
    assert_eq!(
        validate_type_code("C1720"),
        Err("Type code length too long. Max 4 characters")
    );
}

#[test]
fn mentor_callsign_forced_on_second_entry() {
    let mut check = PseudoPilotCheck::new();
    assert_eq!(check.check(&s("EGKK_M_APP")), Ok(()));
    assert!(check.check(&s("MENTOR")).is_err());
    assert_eq!(check.check(&s("MENTOR")), Ok(()));
    assert!(check.check(&s("OTHER")).is_err());
    assert!(check.check(&s("MENTOR")).is_err());
}

#[test]
fn scenario_file_layout() {
    let mut a = airport();
    a.runways.clear();
    let plane = Aircraft {
        flight_type: FlightType::Arrival,
        flight_rule: FlightRule::I,
        callsign: s("X1"),
        aircraft_type: s("A320"),
        squawk: Some(2048),
        spawn_coords: s("A:B"),
        spawn_altitude: 5000,
        spawn_hdg: None,
        origin: s("EGPH"),
        dest: s("EGKK"),
        filed_route: s("F"),
        tas: Some(250),
        rfl: Some(300),
        flown_route: s("W"),
        start: 0,
        delay: None,
        initial_pseudo_pilot: s("PP"),
        has_flight_plan: true,
    };
    let text = format_scenario(&a, &vec![plane], "PERF");
    assert_eq!(
        text,
        "; ----- Made using https://github.com/frazerxyz/sb_scenario_generator -----\n\n\
         PSEUDOPILOT:ALL\n\nAIRPORT_ALT:203.2\n\n\n\n\n\n\n\n\n\n\
         @N:X1:2048:1:A:B:5000:0::0\n\
         $FPX1:*A:I:A320:250:EGPH:0000:0000:300:EGKK:00:00:0:0::/v/:F\n\
         $ROUTE:X1:W\nSTART:0\nINITIALPSEUDOPILOT:PP\n\nPERF"
    );
}

#[test]
fn app_scenario_has_all_traffic() {
    let c = app_config();
    let text = app_scenario(c, &[0, 3, 6], &[0, 2], "").unwrap();
    assert!(text.starts_with("; ----- Made using"));
    assert_eq!(text.matches("$FP").count(), 5);
    assert!(text.contains("AIRPORT_ALT:203.2"));
}

#[test]
fn adc_scenario_has_all_traffic() {
    let c = adc_config(2);
    let text = adc_scenario(c, &[0, 3, 6], "PERF").unwrap();
    assert_eq!(text.matches("$FP").count(), 5);
    assert!(text.ends_with("\n\nPERF"));
}

#[test]
fn scenario_stops_at_a_route_without_types() {
    let mut c = app_config();
    c.airport.arrival_routes[0].types.clear();
    match app_scenario(c, &[0], &[0], "") {
        Err(ScenarioError::NoAircraftType) => {}
        _ => panic!("expected no aircraft type"),
    }
    let mut c = adc_config(1);
    c.airport.departure_routes[1].flown_route = s("$GONE");
    match adc_scenario(c, &[0], "") {
        Err(ScenarioError::Route(e)) => {
            assert_eq!(e.message(), "no standard route named \"GONE\"")
        }
        _ => panic!("expected a route error"),
    }
}

#[test]
fn elevation_forms_agree() {
    let mut a = airport();
    assert!(a.elevation_consistent());
    a.elevation_rounded = 204;
    assert!(a.elevation_consistent());
    a.elevation_rounded = 205;
    assert!(!a.elevation_consistent());
    a.elevation_rounded = 202;
    assert!(!a.elevation_consistent());
}

#[test]
fn only_data_with_an_update_url_is_replaced() {
    let mut newer = airport();
    newer.elevation_text = s("204.0");
    let (kept, overwrite) = airport().refreshed(Some(newer));
    assert!(!overwrite);
    assert_eq!(kept.elevation_text, "203.2");

    let mut current = airport();
    current.update_url = Some(s("https://example.org/EGKK.json"));
    let mut newer = airport();
    newer.elevation_text = s("204.0");
    let (used, overwrite) = current.refreshed(Some(newer));
    assert!(overwrite);
    assert_eq!(used.elevation_text, "204.0");

    let mut current = airport();
    current.update_url = Some(s("https://example.org/EGKK.json"));
    let (used, overwrite) = current.refreshed(None);
    assert!(!overwrite);
    assert_eq!(used.elevation_text, "203.2");
}

#[test]
fn scenario_errors() {
    let mut c = app_config();
    c.airport.arrival_routes[0].filed_route = s("$NONE");
    match app_scenario(c, &[0], &[0], "") {
        Err(ScenarioError::Route(e)) => {
            assert_eq!(e.message(), "no standard route named \"NONE\"")
        }
        _ => panic!("expected a route error"),
    }
    let mut c = adc_config(1);
    let many: Vec<String> = (0..1537).map(|i| format!("C{i}")).collect();
    c.airport.arrival_routes[1].callsigns = many;
    let times: Vec<u16> = (0..1600).collect();
    match adc_scenario(c, &times, "") {
        Err(ScenarioError::SquawkPoolExhausted) => {}
        _ => panic!("expected an exhausted pool"),
    }
    assert_eq!(ScenarioError::SquawkPoolExhausted.message(), "squawk pool exhausted");
}

#[test]
fn all_route_references_resolve_in_fixture() {
    let a = airport();
    assert!(sb_scenario_generator::data_checks::route_reference_problems(&a, "EGKK.json").is_empty());
}

#[test]
fn unresolved_references_are_reported_in_order() {
    let mut a = airport();
    a.departure_routes[1].flown_route = s("$DVR1 $LAM");
    a.arrival_routes[0].adc_route = Some(position("C:D", 2000, "$KK"));
    a.arrival_routes[0].filed_route = s("$TIMBA");
    let problems = sb_scenario_generator::data_checks::route_reference_problems(&a, "f.json");
    assert_eq!(
        problems,
        vec![
            s("f.json: departure to EHAM references unknown standard route \"$DVR1\""),
            s("f.json: arrival from EGPH references unknown standard route \"$KK\""),
            s("f.json: arrival from EGPH references unknown standard route \"$TIMBA\""),
        ]
    );
}

#[test]
fn spawn_coords_contain_colon_in_fixture() {
    let a = airport();
    assert!(sb_scenario_generator::data_checks::coordinate_problems(&a, "EGKK.json").is_empty());
}

#[test]
fn malformed_coordinates_are_reported() {
    let mut a = airport();
    a.terminals[1].stands[0].coords = s("N50");
    a.runways[0].dep_spawn = s("N2W2");
    a.arrival_routes[1].adc_route = Some(position("EF", 2500, "KK26L"));
    a.ground_vfr.as_mut().unwrap().spawn_coords[1] = s("G2");
    let problems = sb_scenario_generator::data_checks::coordinate_problems(&a, "f.json");
    assert_eq!(
        problems,
        vec![
            s("f.json: Stand number 50 coordinates are incorectly formatted. Must be \"LATITUDE:LONGITUDE\""),
            s("f.json: Runway 26L spawn coordiantes are incorectly formatted. Must be \"LATITUDE:LONGITUDE\""),
            s("f.json: One or more position route spawn coordiantes are incorectly formatted. Must be \"LATITUDE:LONGITUDE\""),
            s("f.json: One or more ground VFR spawn coordinates are formatted incorrectly. Must be \"LATITUDE:LONGITUDE\""),
        ]
    );
}
