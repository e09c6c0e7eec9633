use sb_scenario_generator::airport::{RunwayRoute, StandardRoute};
use sb_scenario_generator::data_checks::missing_references;
use sb_scenario_generator::route::Route;
use sb_scenario_generator::route_parser::{
    find_runway_route, lookup, resolve_lookup, resolve_route, resolve_runway_route, route_parser,
    RouteError, RouteType,
};
use sb_scenario_generator::text::{i8_to_string, join, split_whitespace, u16_to_string};

fn standard_routes() -> Vec<StandardRoute> {
    vec![
        StandardRoute {
            name: "LAM".to_string(),
            routes: vec![
                RunwayRoute {
                    runway: Some("26L".to_string()),
                    filed_route: "LAM1X LAM".to_string(),
                    flown_route: Some("KK26L LAM".to_string()),
                },
                RunwayRoute {
                    runway: None,
                    filed_route: "LAM1Z LAM".to_string(),
                    flown_route: None,
                },
            ],
        },
        StandardRoute {
            name: "SFD".to_string(),
            routes: vec![RunwayRoute {
                runway: Some("08R".to_string()),
                filed_route: "SFD4Z SFD".to_string(),
                flown_route: None,
            }],
        },
    ]
}

#[test]
fn split_whitespace_drops_all_whitespace() {
    assert_eq!(
        split_whitespace("  DCT\tOCK \n L9  "),
        vec!["DCT".to_string(), "OCK".to_string(), "L9".to_string()]
    );
    assert!(split_whitespace("").is_empty());
    assert!(split_whitespace(" \u{3000}\u{a0} ").is_empty());
    assert_eq!(split_whitespace("A\u{2003}B"), vec!["A".to_string(), "B".to_string()]);
}

#[test]
fn join_puts_separator_between_parts() {
    let parts = vec!["A".to_string(), "B".to_string(), "C".to_string()];
    assert_eq!(join(&parts, " "), "A B C");
    assert_eq!(join(&vec![], "\n"), "");
    assert_eq!(join(&vec!["X".to_string()], "\n"), "X");
}

#[test]
fn decimal_rendering() {
    assert_eq!(u16_to_string(0), "0");
    assert_eq!(u16_to_string(7), "7");
    assert_eq!(u16_to_string(2048), "2048");
    assert_eq!(u16_to_string(65535), "65535");
    assert_eq!(i8_to_string(-1), "-1");
    assert_eq!(i8_to_string(1), "1");
    assert_eq!(i8_to_string(-128), "-128");
    assert_eq!(i8_to_string(0), "0");
}

#[test]
fn route_new_copies_fields() {
    let r = Route::new("OCK1", "OCK DCT BIG");
    assert_eq!(r.name, "OCK1");
    assert_eq!(r.route, "OCK DCT BIG");
}

#[test]
fn references_expand_for_the_runway() {
    let std = standard_routes();
    assert_eq!(
        route_parser("$LAM  DCT   BNN", &std, "26L", &RouteType::Filed),
        "LAM1X LAM DCT BNN"
    );
    assert_eq!(
        route_parser("$LAM DCT BNN", &std, "26L", &RouteType::Flown),
        "KK26L LAM DCT BNN"
    );
}

#[test]
fn entry_without_runway_serves_any_runway_and_flown_falls_back_to_filed() {
    let std = standard_routes();
    assert_eq!(
        route_parser("$LAM", &std, "08R", &RouteType::Filed),
        "LAM1Z LAM"
    );
    assert_eq!(
        route_parser("$LAM", &std, "08R", &RouteType::Flown),
        "LAM1Z LAM"
    );
}

#[test]
fn unknown_standard_route_is_an_error() {
    let std = standard_routes();
    match resolve_route("DCT $BOGUS $ALSO", &std, "26L", &RouteType::Filed) {
        Err(RouteError::UnknownStandardRoute { name }) => assert_eq!(name, "BOGUS"),
        _ => panic!("expected an unknown route"),
    }
    let e = resolve_lookup("BOGUS", &RouteType::Filed, "26L", &std).unwrap_err();
    assert_eq!(e.message(), "no standard route named \"BOGUS\"");
}

#[test]
fn standard_route_without_runway_version_is_an_error() {
    let std = standard_routes();
    let e = resolve_route("$SFD", &std, "26L", &RouteType::Filed).unwrap_err();
    match &e {
        RouteError::NoRunwayRoute { runway } => assert_eq!(runway, "26L"),
        _ => panic!("expected a missing runway route"),
    }
    assert_eq!(e.message(), "standard route could not be found for 26L");
}

#[test]
fn find_runway_route_takes_first_serving_entry() {
    let std = standard_routes();
    assert_eq!(
        find_runway_route(&std[0].routes, "26L", &RouteType::Filed),
        "LAM1X LAM"
    );
    assert_eq!(
        find_runway_route(&std[0].routes, "09", &RouteType::Flown),
        "LAM1Z LAM"
    );
    assert!(resolve_runway_route(&std[1].routes, "09", &RouteType::Filed).is_err());
    let e = resolve_runway_route(&[], "09", &RouteType::Filed).unwrap_err();
    assert_eq!(e.message(), "standard route could not be found for 09");
}

#[test]
fn lookup_finds_route_by_name() {
    let std = standard_routes();
    assert_eq!(
        lookup("SFD", &RouteType::Flown, "08R", &std),
        "SFD4Z SFD"
    );
}

#[test]
fn plain_route_expansion_is_idempotent() {
    let std = standard_routes();
    let once = route_parser("  OCK  L9\tBIG ", &std, "26L", &RouteType::Filed);
    assert_eq!(once, "OCK L9 BIG");
    let twice = route_parser(&once, &std, "26L", &RouteType::Filed);
    assert_eq!(twice, once);
}

#[test]
fn checked_expansion_agrees_with_expansion() {
    let std = standard_routes();
    assert_eq!(
        resolve_route("$LAM DCT BNN", &std, "26L", &RouteType::Flown).unwrap(),
        route_parser("$LAM DCT BNN", &std, "26L", &RouteType::Flown)
    );
    assert_eq!(
        resolve_lookup("SFD", &RouteType::Flown, "08R", &std).unwrap(),
        lookup("SFD", &RouteType::Flown, "08R", &std)
    );
    assert_eq!(
        resolve_runway_route(&std[0].routes, "26L", &RouteType::Filed).unwrap(),
        find_runway_route(&std[0].routes, "26L", &RouteType::Filed)
    );
}

#[test]
fn a_lone_dollar_is_an_empty_reference() {
    let std = standard_routes();
    match resolve_route("$", &std, "26L", &RouteType::Filed) {
        Err(RouteError::UnknownStandardRoute { name }) => assert_eq!(name, ""),
        _ => panic!("expected an unknown route"),
    }
}

#[test]
fn missing_references_lists_unknown_names_in_order() {
    let known = vec!["LAM".to_string(), "SFD".to_string()];
    assert_eq!(
        missing_references("$LAM DCT $FOO $SFD $BAR $FOO", &known),
        vec!["FOO".to_string(), "BAR".to_string(), "FOO".to_string()]
    );
    assert!(missing_references("A B C", &known).is_empty());
}
