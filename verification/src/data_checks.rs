//! Consistency checks on airport data.
use vstd::prelude::*;

use crate::airport::{
    Airport, ArrivalRoute, DepartureRoute, LocalVfr, PositionRoute, Runway, Stand, Terminal,
};
use crate::text::{contains_char, decimal, owned, split_whitespace, split_ws, u32_to_string, views};

verus! {

/// The standard-route names that the tokens refer to (`$NAME`) and that
/// `known` lacks, in the order of the tokens.
pub open spec fn missing_names(tokens: Seq<Seq<char>>, known: Seq<Seq<char>>) -> Seq<Seq<char>>
    decreases tokens.len(),
{
    if tokens.len() == 0 {
        seq![]
    } else {
        let rest = missing_names(tokens.drop_last(), known);
        let t = tokens.last();
        if t.len() > 0 && t[0] == '$' && !known.contains(t.subrange(1, t.len() as int)) {
            rest.push(t.subrange(1, t.len() as int))
        } else {
            rest
        }
    }
}

fn is_known(known: &[String], name: &String) -> (b: bool)
    ensures
        b == views(known@).contains(name@),
{
    let n = known.len();
    let mut i: usize = 0;
    while i < n
        invariant
            n == known@.len(),
            i <= n,
            forall|k: int| 0 <= k < i ==> known@[k]@ != name@,
        decreases n - i,
    {
        if known[i] == *name {
            assert(views(known@)[i as int] == name@);
            return true;
        }
        i = i + 1;
    }
    assert forall|k: int| 0 <= k < views(known@).len() implies views(known@)[k] != name@ by {
        assert(views(known@)[k] == known@[k]@);
    }
    false
}

/// The standard routes that a route refers to and that no standard route of
/// `known` names.
pub fn missing_references(route: &str, known: &[String]) -> (out: Vec<String>)
    ensures
        views(out@) == missing_names(split_ws(route@), views(known@)),
{
    let tokens = split_whitespace(route);
    let ghost toks = views(tokens@);
    let mut out: Vec<String> = Vec::new();
    let n = tokens.len();
    assert(toks.take(0) == Seq::<Seq<char>>::empty());
    for i in 0..n
        invariant
            n == tokens@.len(),
            toks == views(tokens@),
            views(out@) == missing_names(toks.take(i as int), views(known@)),
    {
        let token = tokens[i].as_str();
        assert(toks.take(i as int + 1).drop_last() == toks.take(i as int));
        assert(toks.take(i as int + 1).last() == token@);
        let len = token.unicode_len();
        if len > 0 && token.get_char(0) == '$' {
            let name = owned(token.substring_char(1, len));
            if !is_known(known, &name) {
                let ghost before = out@;
                out.push(name);
                assert(views(out@) == views(before).push(name@));
            }
        }
    }
    assert(toks.take(n as int) == toks);
    out
}

/// The names of the airport's standard routes.
pub open spec fn known_names(airport: Airport) -> Seq<Seq<char>> {
    Seq::new(airport.standard_routes@.len(), |i: int| airport.standard_routes@[i].name@)
}

/// One problem line per missing name, naming the file and the route.
pub open spec fn reference_messages(file: Seq<char>, what: Seq<char>, names: Seq<Seq<char>>) -> Seq<
    Seq<char>,
> {
    Seq::new(
        names.len(),
        |i: int|
            file + ": "@ + what + " references unknown standard route \"$"@ + names[i] + "\""@,
    )
}

pub open spec fn route_messages(
    file: Seq<char>,
    what: Seq<char>,
    route: Seq<char>,
    known: Seq<Seq<char>>,
) -> Seq<Seq<char>> {
    reference_messages(file, what, missing_names(split_ws(route), known))
}

pub open spec fn departure_problems(file: Seq<char>, d: DepartureRoute, known: Seq<Seq<char>>) -> Seq<
    Seq<char>,
> {
    let what = "departure to "@ + d.dest@;
    route_messages(file, what, d.filed_route@, known) + route_messages(
        file,
        what,
        d.flown_route@,
        known,
    )
}

pub open spec fn position_problems(
    file: Seq<char>,
    what: Seq<char>,
    p: Option<PositionRoute>,
    known: Seq<Seq<char>>,
) -> Seq<Seq<char>> {
    match p {
        Some(r) => route_messages(file, what, r.flown_route@, known),
        None => seq![],
    }
}

/// The flown routes of the en-route, approach and tower positions, then the filed route.
pub open spec fn arrival_problems(file: Seq<char>, a: ArrivalRoute, known: Seq<Seq<char>>) -> Seq<
    Seq<char>,
> {
    let what = "arrival from "@ + a.dep@;
    position_problems(file, what, a.ctr_route, known) + position_problems(
        file,
        what,
        a.app_route,
        known,
    ) + position_problems(file, what, a.adc_route, known) + route_messages(
        file,
        what,
        a.filed_route@,
        known,
    )
}

pub open spec fn departures_problems(
    file: Seq<char>,
    ds: Seq<DepartureRoute>,
    known: Seq<Seq<char>>,
) -> Seq<Seq<char>>
    decreases ds.len(),
{
    if ds.len() == 0 {
        seq![]
    } else {
        departures_problems(file, ds.drop_last(), known) + departure_problems(
            file,
            ds.last(),
            known,
        )
    }
}

pub open spec fn arrivals_problems(file: Seq<char>, arrs: Seq<ArrivalRoute>, known: Seq<Seq<char>>) -> Seq<
    Seq<char>,
>
    decreases arrs.len(),
{
    if arrs.len() == 0 {
        seq![]
    } else {
        arrivals_problems(file, arrs.drop_last(), known) + arrival_problems(
            file,
            arrs.last(),
            known,
        )
    }
}

/// The problem lines of an airport file: its route references that no
/// standard route resolves, departures first, then arrivals.
pub open spec fn reference_problems(file: Seq<char>, airport: Airport) -> Seq<Seq<char>> {
    departures_problems(file, airport.departure_routes@, known_names(airport)) + arrivals_problems(
        file,
        airport.arrival_routes@,
        known_names(airport),
    )
}

fn push_route_messages(
    out: &mut Vec<String>,
    file: &str,
    what: &String,
    route: &str,
    known: &[String],
)
    ensures
        views(final(out)@) == views(old(out)@) + route_messages(
            file@,
            what@,
            route@,
            views(known@),
        ),
{
    let names = missing_references(route, known);
    let ghost start = views(out@);
    let ghost target = route_messages(file@, what@, route@, views(known@));
    let n = names.len();
    for i in 0..n
        invariant
            n == names@.len(),
            views(names@) == missing_names(split_ws(route@), views(known@)),
            target == route_messages(file@, what@, route@, views(known@)),
            views(out@) == start + target.take(i as int),
    {
        let mut m = owned(file);
        m.append(": ");
        m.append(what.as_str());
        m.append(" references unknown standard route \"$");
        m.append(names[i].as_str());
        m.append("\"");
        let ghost before = views(out@);
        out.push(m);
        assert(views(out@) == before.push(m@));
        assert(views(names@)[i as int] == names@[i as int]@);
        assert(target.take(i as int + 1) == target.take(i as int).push(m@));
        assert(start + target.take(i as int + 1) == (start + target.take(i as int)).push(m@));
    }
    assert(target.take(n as int) == target);
}

fn push_arrival_problems(out: &mut Vec<String>, file: &str, a: &ArrivalRoute, known: &[String])
    ensures
        views(final(out)@) == views(old(out)@) + arrival_problems(file@, *a, views(known@)),
{
    let ghost kn = views(known@);
    let ghost before = views(out@);
    let mut what = owned("arrival from ");
    what.append(a.dep.as_str());
    if let Some(r) = &a.ctr_route {
        push_route_messages(out, file, &what, r.flown_route.as_str(), known);
    }
    let ghost after_ctr = views(out@);
    if let Some(r) = &a.app_route {
        push_route_messages(out, file, &what, r.flown_route.as_str(), known);
    }
    let ghost after_app = views(out@);
    if let Some(r) = &a.adc_route {
        push_route_messages(out, file, &what, r.flown_route.as_str(), known);
    }
    let ghost after_adc = views(out@);
    push_route_messages(out, file, &what, a.filed_route.as_str(), known);
    proof {
        assert(after_ctr == before + position_problems(file@, what@, a.ctr_route, kn));
        assert(after_app == after_ctr + position_problems(file@, what@, a.app_route, kn));
        assert(after_adc == after_app + position_problems(file@, what@, a.adc_route, kn));
    }
}

/// The route references of an airport that no standard route of it
/// resolves, one problem line each.
pub fn route_reference_problems(airport: &Airport, file: &str) -> (out: Vec<String>)
    ensures
        views(out@) == reference_problems(file@, *airport),
{
    let mut known: Vec<String> = Vec::new();
    let sr = &airport.standard_routes;
    for i in 0..sr.len()
        invariant
            *sr == airport.standard_routes,
            views(known@) == known_names(*airport).take(i as int),
    {
        known.push(sr[i].name.clone());
        assert(known_names(*airport).take(i as int + 1) == known_names(*airport).take(i as int).push(
            sr@[i as int].name@,
        ));
    }
    assert(known_names(*airport).take(sr@.len() as int) == known_names(*airport));
    let ghost kn = known_names(*airport);
    let mut out: Vec<String> = Vec::new();
    let ds = &airport.departure_routes;
    assert(ds@.take(0) == Seq::<DepartureRoute>::empty());
    for i in 0..ds.len()
        invariant
            *ds == airport.departure_routes,
            views(known@) == kn,
            views(out@) == departures_problems(file@, ds@.take(i as int), kn),
    {
        let d = &ds[i];
        let mut what = owned("departure to ");
        what.append(d.dest.as_str());
        push_route_messages(&mut out, file, &what, d.filed_route.as_str(), known.as_slice());
        push_route_messages(&mut out, file, &what, d.flown_route.as_str(), known.as_slice());
        assert(ds@.take(i as int + 1).drop_last() == ds@.take(i as int));
        assert(ds@.take(i as int + 1).last() == *d);
    }
    assert(ds@.take(ds@.len() as int) == ds@);
    let ghost dep_part = views(out@);
    let arrs = &airport.arrival_routes;
    assert(arrs@.take(0) == Seq::<ArrivalRoute>::empty());
    for i in 0..arrs.len()
        invariant
            *arrs == airport.arrival_routes,
            views(known@) == kn,
            dep_part == departures_problems(file@, airport.departure_routes@, kn),
            views(out@) == dep_part + arrivals_problems(file@, arrs@.take(i as int), kn),
    {
        let a = &arrs[i];
        push_arrival_problems(&mut out, file, a, known.as_slice());
        assert(arrs@.take(i as int + 1).drop_last() == arrs@.take(i as int));
        assert(arrs@.take(i as int + 1).last() == *a);
    }
    assert(arrs@.take(arrs@.len() as int) == arrs@);
    out
}

// ---------------------------------------------------------------------------
// Spawn coordinates
// ---------------------------------------------------------------------------

/// The problem lines of the items, in order: one for each item that `line` flags.
pub open spec fn flag_lines<T>(items: Seq<T>, line: spec_fn(T) -> Option<Seq<char>>) -> Seq<
    Seq<char>,
>
    decreases items.len(),
{
    if items.len() == 0 {
        seq![]
    } else {
        let rest = flag_lines(items.drop_last(), line);
        match line(items.last()) {
            Some(l) => rest.push(l),
            None => rest,
        }
    }
}

pub proof fn lemma_flag_lines_step<T>(items: Seq<T>, line: spec_fn(T) -> Option<Seq<char>>, i: int)
    requires
        0 <= i < items.len(),
    ensures
        flag_lines(items.take(i + 1), line) == match line(items[i]) {
            Some(l) => flag_lines(items.take(i), line).push(l),
            None => flag_lines(items.take(i), line),
        },
{
    assert(items.take(i + 1).drop_last() == items.take(i));
    assert(items.take(i + 1).last() == items[i]);
}

/// Coordinates are written `LATITUDE:LONGITUDE`.
pub open spec fn well_formed_coords(coords: Seq<char>) -> bool {
    coords.contains(':')
}

pub open spec fn stand_line(file: Seq<char>) -> spec_fn(Stand) -> Option<Seq<char>> {
    |s: Stand|
        if well_formed_coords(s.coords@) {
            None
        } else {
            Some(
                file + ": Stand number "@ + decimal(s.id as nat)
                    + " coordinates are incorectly formatted. Must be \"LATITUDE:LONGITUDE\""@,
            )
        }
}

pub open spec fn terminals_lines(file: Seq<char>, ts: Seq<Terminal>) -> Seq<Seq<char>>
    decreases ts.len(),
{
    if ts.len() == 0 {
        seq![]
    } else {
        terminals_lines(file, ts.drop_last()) + flag_lines(ts.last().stands@, stand_line(file))
    }
}

pub open spec fn runway_line(file: Seq<char>) -> spec_fn(Runway) -> Option<Seq<char>> {
    |r: Runway|
        if well_formed_coords(r.dep_spawn@) {
            None
        } else {
            Some(
                file + ": Runway "@ + r.designator@
                    + " spawn coordiantes are incorectly formatted. Must be \"LATITUDE:LONGITUDE\""@,
            )
        }
}

pub open spec fn position_line(file: Seq<char>) -> spec_fn(PositionRoute) -> Option<Seq<char>> {
    |p: PositionRoute|
        if well_formed_coords(p.spawn_coords@) {
            None
        } else {
            Some(
                file
                    + ": One or more position route spawn coordiantes are incorectly formatted. Must be \"LATITUDE:LONGITUDE\""@,
            )
        }
}

/// The position routes of the arrivals: tower, approach, en-route, route by route.
pub open spec fn position_routes(arrs: Seq<ArrivalRoute>) -> Seq<PositionRoute>
    decreases arrs.len(),
{
    if arrs.len() == 0 {
        seq![]
    } else {
        let a = arrs.last();
        position_routes(arrs.drop_last()) + option_seq(a.adc_route) + option_seq(a.app_route)
            + option_seq(a.ctr_route)
    }
}

pub open spec fn option_seq<T>(o: Option<T>) -> Seq<T> {
    match o {
        Some(x) => seq![x],
        None => seq![],
    }
}

pub open spec fn local_vfr_line(file: Seq<char>) -> spec_fn(LocalVfr) -> Option<Seq<char>> {
    |l: LocalVfr|
        if well_formed_coords(l.spawn_coords@) {
            None
        } else {
            Some(
                file + ": "@ + l.callsign@
                    + " has incorrectly formatted spawn coordinates. Must be \"LATITUDE:LONGITUDE\""@,
            )
        }
}

pub open spec fn ground_line(file: Seq<char>) -> spec_fn(String) -> Option<Seq<char>> {
    |c: String|
        if well_formed_coords(c@) {
            None
        } else {
            Some(
                file
                    + ": One or more ground VFR spawn coordinates are formatted incorrectly. Must be \"LATITUDE:LONGITUDE\""@,
            )
        }
}

/// The problem lines of an airport file: its spawn coordinates that are not
/// written `LATITUDE:LONGITUDE`: stands, runways, position routes, local VFR
/// aircraft, ground VFR spawn points.
pub open spec fn coordinate_lines(file: Seq<char>, airport: Airport) -> Seq<Seq<char>> {
    terminals_lines(file, airport.terminals@) + flag_lines(airport.runways@, runway_line(file))
        + flag_lines(position_routes(airport.arrival_routes@), position_line(file)) + match airport.local_vfr {
        Some(l) => flag_lines(l@, local_vfr_line(file)),
        None => seq![],
    } + match airport.ground_vfr {
        Some(g) => flag_lines(g.spawn_coords@, ground_line(file)),
        None => seq![],
    }
}

fn line_with(file: &str, middle: &str, end: &str) -> (s: String)
    ensures
        s@ == file@ + middle@ + end@,
{
    let mut s = owned(file);
    s.append(middle);
    s.append(end);
    s
}

fn push_stand_lines(out: &mut Vec<String>, file: &str, stands: &Vec<Stand>)
    ensures
        views(final(out)@) == views(old(out)@) + flag_lines(stands@, stand_line(file@)),
{
    let ghost start = views(out@);
    let ghost f = stand_line(file@);
    assert(stands@.take(0) == Seq::<Stand>::empty());
    for i in 0..stands.len()
        invariant
            f == stand_line(file@),
            views(out@) == start + flag_lines(stands@.take(i as int), f),
    {
        proof {
            lemma_flag_lines_step(stands@, f, i as int);
        }
        let s = &stands[i];
        if !contains_char(s.coords.as_str(), ':') {
            let mut m = owned(file);
            m.append(": Stand number ");
            m.append(u32_to_string(s.id).as_str());
            m.append(" coordinates are incorectly formatted. Must be \"LATITUDE:LONGITUDE\"");
            let ghost before = views(out@);
            out.push(m);
            assert(views(out@) == before.push(m@));
        }
    }
    assert(stands@.take(stands@.len() as int) == stands@);
}

/// The spawn coordinates of an airport that are not written
/// `LATITUDE:LONGITUDE`, one problem line each.
pub fn coordinate_problems(airport: &Airport, file: &str) -> (out: Vec<String>)
    ensures
        views(out@) == coordinate_lines(file@, *airport),
{
    let mut out: Vec<String> = Vec::new();
    let ts = &airport.terminals;
    assert(ts@.take(0) == Seq::<Terminal>::empty());
    for i in 0..ts.len()
        invariant
            *ts == airport.terminals,
            views(out@) == terminals_lines(file@, ts@.take(i as int)),
    {
        push_stand_lines(&mut out, file, &ts[i].stands);
        assert(ts@.take(i as int + 1).drop_last() == ts@.take(i as int));
    }
    assert(ts@.take(ts@.len() as int) == ts@);

    let ghost part = views(out@);
    let rs = &airport.runways;
    let ghost rf = runway_line(file@);
    assert(rs@.take(0) == Seq::<Runway>::empty());
    for i in 0..rs.len()
        invariant
            *rs == airport.runways,
            rf == runway_line(file@),
            views(out@) == part + flag_lines(rs@.take(i as int), rf),
    {
        proof {
            lemma_flag_lines_step(rs@, rf, i as int);
        }
        let r = &rs[i];
        if !contains_char(r.dep_spawn.as_str(), ':') {
            let mut m = line_with(file, ": Runway ", r.designator.as_str());
            m.append(" spawn coordiantes are incorectly formatted. Must be \"LATITUDE:LONGITUDE\"");
            let ghost before = views(out@);
            out.push(m);
            assert(views(out@) == before.push(m@));
        }
    }
    assert(rs@.take(rs@.len() as int) == rs@);

    let ghost part = views(out@);
    let mut positions: Vec<&PositionRoute> = Vec::new();
    let arrs = &airport.arrival_routes;
    assert(arrs@.take(0) == Seq::<ArrivalRoute>::empty());
    for i in 0..arrs.len()
        invariant
            *arrs == airport.arrival_routes,
            positions@.map_values(|p: &PositionRoute| *p) == position_routes(arrs@.take(i as int)),
    {
        let a = &arrs[i];
        let ghost before = positions@.map_values(|p: &PositionRoute| *p);
        if let Some(r) = &a.adc_route {
            positions.push(r);
        }
        if let Some(r) = &a.app_route {
            positions.push(r);
        }
        if let Some(r) = &a.ctr_route {
            positions.push(r);
        }
        assert(arrs@.take(i as int + 1).drop_last() == arrs@.take(i as int));
        assert(arrs@.take(i as int + 1).last() == *a);
        assert(positions@.map_values(|p: &PositionRoute| *p) == before + option_seq(a.adc_route)
            + option_seq(a.app_route) + option_seq(a.ctr_route));
    }
    assert(arrs@.take(arrs@.len() as int) == arrs@);
    let ghost ps = positions@.map_values(|p: &PositionRoute| *p);
    let ghost pf = position_line(file@);
    assert(ps.take(0) == Seq::<PositionRoute>::empty());
    for i in 0..positions.len()
        invariant
            ps == positions@.map_values(|p: &PositionRoute| *p),
            ps == position_routes(airport.arrival_routes@),
            pf == position_line(file@),
            views(out@) == part + flag_lines(ps.take(i as int), pf),
    {
        proof {
            lemma_flag_lines_step(ps, pf, i as int);
        }
        let p = positions[i];
        assert(*p == ps[i as int]);
        if !contains_char(p.spawn_coords.as_str(), ':') {
            let m = line_with(
                file,
                ": One or more position route spawn coordiantes are incorectly formatted. Must be \"LATITUDE:LONGITUDE\"",
                "",
            );
            proof {
                reveal_strlit("");
            }
            let ghost before = views(out@);
            out.push(m);
            assert(views(out@) == before.push(m@));
        }
    }
    assert(ps.take(ps.len() as int) == ps);

    let ghost part = views(out@);
    if let Some(ls) = &airport.local_vfr {
        let ghost lf = local_vfr_line(file@);
        assert(ls@.take(0) == Seq::<LocalVfr>::empty());
        for i in 0..ls.len()
            invariant
                lf == local_vfr_line(file@),
                views(out@) == part + flag_lines(ls@.take(i as int), lf),
        {
            proof {
                lemma_flag_lines_step(ls@, lf, i as int);
            }
            let l = &ls[i];
            if !contains_char(l.spawn_coords.as_str(), ':') {
                let mut m = line_with(file, ": ", l.callsign.as_str());
                m.append(" has incorrectly formatted spawn coordinates. Must be \"LATITUDE:LONGITUDE\"");
                let ghost before = views(out@);
                out.push(m);
                assert(views(out@) == before.push(m@));
            }
        }
        assert(ls@.take(ls@.len() as int) == ls@);
    }

    let ghost part = views(out@);
    if let Some(g) = &airport.ground_vfr {
        let cs = &g.spawn_coords;
        let ghost gf = ground_line(file@);
        assert(cs@.take(0) == Seq::<String>::empty());
        for i in 0..cs.len()
            invariant
                gf == ground_line(file@),
                views(out@) == part + flag_lines(cs@.take(i as int), gf),
        {
            proof {
                lemma_flag_lines_step(cs@, gf, i as int);
            }
            if !contains_char(cs[i].as_str(), ':') {
                let m = line_with(
                    file,
                    ": One or more ground VFR spawn coordinates are formatted incorrectly. Must be \"LATITUDE:LONGITUDE\"",
                    "",
                );
                proof {
                    reveal_strlit("");
                }
                let ghost before = views(out@);
                out.push(m);
                assert(views(out@) == before.push(m@));
            }
        }
        assert(cs@.take(cs@.len() as int) == cs@);
    }
    out
}

} // verus!
