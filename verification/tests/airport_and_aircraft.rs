use sb_scenario_generator::aircraft::{
    assign_squawks, string_if_none, Aircraft, FlightRule, FlightType, SquawkPool,
};
use sb_scenario_generator::airport::{
    Airport, CustomRoute, Direction, Hold, Runway,
};
use sb_scenario_generator::controller::Controller;

fn airport() -> Airport {
    Airport {
        icao: "EGKK".to_string(),
        update_url: None,
        elevation_text: "203.2".to_string(),
        elevation_ft: 203,
        elevation_rounded: 203,
        runways: vec![
            Runway {
                designator: "26L".to_string(),
                threshold: "N051.09.00.000:W000.10.00.000".to_string(),
                track: "257.8".to_string(),
                dep_spawn: "N051.09.10.000:W000.09.00.000".to_string(),
            },
            Runway {
                designator: "08R".to_string(),
                threshold: "N051.08.00.000:W000.12.00.000".to_string(),
                track: "77.8".to_string(),
                dep_spawn: "N051.08.10.000:W000.13.00.000".to_string(),
            },
        ],
        holds: vec![
            Hold { fix: "TIMBA".to_string(), inbound: 309, direction: Direction::R },
            Hold { fix: "WILLO".to_string(), inbound: 284, direction: Direction::L },
        ],
        custom_routes: vec![CustomRoute {
            name: "VFR1".to_string(),
            route: "N051 W000".to_string(),
        }],
        controllers: vec![
            Controller::new("EGKK_TWR", "124.225"),
            Controller::new("EGKK_APP", "126.825"),
        ],
        airlines: vec![],
        terminals: vec![],
        standard_routes: vec![],
        departure_routes: vec![],
        arrival_routes: vec![],
        local_vfr: None,
        ground_vfr: None,
    }
}

fn aircraft(callsign: &str, rule: FlightRule) -> Aircraft {
    Aircraft {
        flight_type: FlightType::Arrival,
        flight_rule: rule,
        callsign: callsign.to_string(),
        aircraft_type: "A320".to_string(),
        squawk: None,
        spawn_coords: "N051:W000".to_string(),
        spawn_altitude: 7000,
        spawn_hdg: None,
        origin: "LFPG".to_string(),
        dest: "EGKK".to_string(),
        filed_route: "TIMBA".to_string(),
        tas: Some(250),
        rfl: Some(350),
        flown_route: "TIMBA KK26L".to_string(),
        start: 12,
        delay: None,
        initial_pseudo_pilot: "EGKK_M_APP".to_string(),
        has_flight_plan: true,
    }
}

#[test]
fn direction_signs() {
    assert_eq!(Direction::L.to_i8(), -1);
    assert_eq!(Direction::R.to_i8(), 1);
}

#[test]
fn controller_new_copies_fields() {
    let c = Controller::new("EGKK_TWR", "124.225");
    assert_eq!(c.callsign, "EGKK_TWR");
    assert_eq!(c.frequency, "124.225");
}

#[test]
fn airport_sections() {
    let a = airport();
    assert_eq!(a.format_elevation(), "AIRPORT_ALT:203.2");
    assert_eq!(
        a.format_holds(),
        "HOLDING:TIMBA:309:1\nHOLDING:WILLO:284:-1"
    );
    assert_eq!(
        a.format_runways(),
        "ILS26L:N051.09.00.000:W000.10.00.000:257.8\nILS08R:N051.08.00.000:W000.12.00.000:77.8"
    );
    assert_eq!(a.format_custom_routes(), "ROUTE:VFR1:N051 W000");
    assert_eq!(
        a.format_controllers(),
        "PSEUDOPILOT:ALL\nCONTROLLER:EGKK_TWR:124.225\nPSEUDOPILOT:ALL\nCONTROLLER:EGKK_APP:126.825"
    );
}

#[test]
fn empty_sections_are_empty() {
    let mut a = airport();
    a.holds.clear();
    a.runways.clear();
    a.controllers.clear();
    a.custom_routes.clear();
    assert_eq!(a.format_holds(), "");
    assert_eq!(a.format_runways(), "");
    assert_eq!(a.format_controllers(), "");
    assert_eq!(a.format_custom_routes(), "");
}

#[test]
fn string_if_none_renders_value_or_default() {
    assert_eq!(string_if_none(Some(2048), "x"), "2048");
    assert_eq!(string_if_none(None, "2000"), "2000");
    assert_eq!(string_if_none(None, ""), "");
}

#[test]
fn flight_rule_text() {
    assert_eq!(FlightRule::I.to_string(), "I");
    assert_eq!(FlightRule::V.to_string(), "V");
}

#[test]
fn aircraft_entry_format() {
    let mut a = aircraft("BAW123", FlightRule::I);
    a.squawk = Some(2100);
    assert_eq!(
        a.to_string(),
        "@N:BAW123:2100:1:N051:W000:7000:0::0\n\
         $FPBAW123:*A:I:A320:250:LFPG:0000:0000:350:EGKK:00:00:0:0::/v/:TIMBA\n\
         $ROUTE:BAW123:TIMBA KK26L\nSTART:12\n\
         INITIALPSEUDOPILOT:EGKK_M_APP"
    );
}

#[test]
fn aircraft_entry_defaults() {
    let mut a = aircraft("G-ABCD", FlightRule::V);
    a.tas = None;
    a.rfl = None;
    a.spawn_hdg = Some(1036);
    assert_eq!(
        a.to_string(),
        "@N:G-ABCD::1:N051:W000:7000:0:1036:0\n\
         $FPG-ABCD:*A:V:A320:0:LFPG:0000:0000:2000:EGKK:00:00:0:0::/v/:TIMBA\n\
         $ROUTE:G-ABCD:TIMBA KK26L\nSTART:12\n\
         INITIALPSEUDOPILOT:EGKK_M_APP"
    );
}

#[test]
fn squawks_vfr_fixed_ifr_distinct_in_pool() {
    let mut list = Vec::new();
    for i in 0..40 {
        let rule = if i % 3 == 0 { FlightRule::V } else { FlightRule::I };
        list.push(aircraft(&format!("AC{i}"), rule));
    }
    assign_squawks(&mut list);
    let mut seen = std::collections::HashSet::new();
    for a in &list {
        match a.flight_rule {
            FlightRule::V => assert_eq!(a.squawk, Some(7000)),
            FlightRule::I => {
                let s = a.squawk.unwrap();
                assert!((0o4000..0o7000).contains(&s));
                assert!(seen.insert(s), "duplicate squawk {s}");
            }
        }
        assert_eq!(a.aircraft_type, "A320");
    }
}

#[test]
fn squawk_pool_can_serve_every_code_once() {
    let mut list = Vec::new();
    for i in 0..1536 {
        list.push(aircraft(&format!("AC{i}"), FlightRule::I));
    }
    assign_squawks(&mut list);
    let mut codes: Vec<u16> = list.iter().map(|a| a.squawk.unwrap()).collect();
    codes.sort();
    let expected: Vec<u16> = (0o4000..0o7000).collect();
    assert_eq!(codes, expected);
}

#[test]
fn squawk_pool_struct_holds_codes() {
    let pool = SquawkPool { available: vec![0o4000, 0o4001] };
    assert_eq!(pool.available.len(), 2);
}

#[test]
fn squawk_pool_is_shuffled() {
    let mut list = Vec::new();
    for i in 0..1536 {
        list.push(aircraft(&format!("AC{i}"), FlightRule::I));
    }
    assign_squawks(&mut list);
    let codes: Vec<u16> = list.iter().map(|a| a.squawk.unwrap()).collect();
    let unshuffled: Vec<u16> = (0o4000..0o7000).rev().collect();
    assert_ne!(codes, unshuffled);
}
