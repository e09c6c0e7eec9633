//! Aircraft of a scenario, their scenario-file entry and their transponder codes.
use vstd::prelude::*;

use crate::random::{shuffle, thread_rng};
use crate::text::{decimal, owned, u16_to_string};
use rand::rngs::ThreadRng;

verus! {

#[derive(Clone, Copy, PartialEq, Eq, Debug)]
pub enum FlightRule {
    I,
    V,
}

impl FlightRule {
    pub open spec fn text(self) -> Seq<char> {
        match self {
            FlightRule::I => "I"@,
            FlightRule::V => "V"@,
        }
    }

    /// The flight rule as the flight plan gives it: `I` or `V`.
    pub fn to_string(&self) -> (s: String)
        ensures
            s@ == self.text(),
    {
        match self {
            FlightRule::I => owned("I"),
            FlightRule::V => owned("V"),
        }
    }
}

#[derive(Clone, Copy, PartialEq, Eq, Debug)]
pub enum FlightType {
    Departure,
    Arrival,
    Local,
    Overflight,
}

pub struct Aircraft {
    pub flight_type: FlightType,
    pub flight_rule: FlightRule,
    pub callsign: String,
    pub aircraft_type: String,
    pub squawk: Option<u16>,
    pub spawn_coords: String,
    pub spawn_altitude: u16,
    pub spawn_hdg: Option<u16>,
    pub origin: String,
    pub dest: String,
    pub filed_route: String,
    pub tas: Option<u16>,
    pub rfl: Option<u16>,
    pub flown_route: String,
    pub start: u16,
    pub delay: Option<[u16; 2]>,
    pub initial_pseudo_pilot: String,
    pub has_flight_plan: bool,
}

/// The decimal numeral of the value, or `none` where there is no value.
pub open spec fn text_or(input: Option<u16>, none: Seq<char>) -> Seq<char> {
    match input {
        Some(v) => decimal(v as nat),
        None => none,
    }
}

/// The decimal numeral of the value, or `none` where there is no value.
pub fn string_if_none(input: Option<u16>, none: &str) -> (s: String)
    ensures
        s@ == text_or(input, none@),
{
    match input {
        Some(v) => u16_to_string(v),
        None => owned(none),
    }
}

pub open spec fn position_line(a: Aircraft) -> Seq<char> {
    "@N:"@ + a.callsign@ + ":"@ + text_or(a.squawk, ""@) + ":1:"@ + a.spawn_coords@ + ":"@
        + decimal(a.spawn_altitude as nat) + ":0:"@ + text_or(a.spawn_hdg, ""@) + ":0"@
}

pub open spec fn flight_plan_line(a: Aircraft) -> Seq<char> {
    "$FP"@ + a.callsign@ + ":*A:"@ + a.flight_rule.text() + ":"@ + a.aircraft_type@ + ":"@
        + text_or(a.tas, "0"@) + ":"@ + a.origin@ + ":0000:0000:"@ + text_or(a.rfl, "2000"@)
        + ":"@ + a.dest@ + ":00:00:0:0::/v/:"@ + a.filed_route@
}

pub open spec fn route_lines(a: Aircraft) -> Seq<char> {
    "$ROUTE:"@ + a.callsign@ + ":"@ + a.flown_route@ + "\nSTART:"@ + decimal(a.start as nat)
}

/// The entry of an aircraft in the scenario file: its position, its flight
/// plan, its route and start time, and its initial pseudo pilot.
pub open spec fn aircraft_entry(a: Aircraft) -> Seq<char> {
    position_line(a) + "\n"@ + flight_plan_line(a) + "\n"@ + route_lines(a)
        + "\nINITIALPSEUDOPILOT:"@ + a.initial_pseudo_pilot@
}

impl Aircraft {
    fn format_position(&self) -> (s: String)
        ensures
            s@ == position_line(*self),
    {
        let mut s = owned("@N:");
        s.append(self.callsign.as_str());
        s.append(":");
        s.append(string_if_none(self.squawk, "").as_str());
        s.append(":1:");
        s.append(self.spawn_coords.as_str());
        s.append(":");
        s.append(u16_to_string(self.spawn_altitude).as_str());
        s.append(":0:");
        s.append(string_if_none(self.spawn_hdg, "").as_str());
        s.append(":0");
        s
    }

    fn format_flight_plan(&self) -> (s: String)
        ensures
            s@ == flight_plan_line(*self),
    {
        let mut s = owned("$FP");
        s.append(self.callsign.as_str());
        s.append(":*A:");
        s.append(self.flight_rule.to_string().as_str());
        s.append(":");
        s.append(self.aircraft_type.as_str());
        s.append(":");
        s.append(string_if_none(self.tas, "0").as_str());
        s.append(":");
        s.append(self.origin.as_str());
        s.append(":0000:0000:");
        s.append(string_if_none(self.rfl, "2000").as_str());
        s.append(":");
        s.append(self.dest.as_str());
        s.append(":00:00:0:0::/v/:");
        s.append(self.filed_route.as_str());
        s
    }

    fn format_route(&self) -> (s: String)
        ensures
            s@ == route_lines(*self),
    {
        let mut s = owned("$ROUTE:");
        s.append(self.callsign.as_str());
        s.append(":");
        s.append(self.flown_route.as_str());
        s.append("\nSTART:");
        s.append(u16_to_string(self.start).as_str());
        s
    }

    /// The entry of this aircraft in the scenario file.
    pub fn to_string(&self) -> (s: String)
        ensures
            s@ == aircraft_entry(*self),
    {
        let mut s = self.format_position();
        s.append("\n");
        s.append(self.format_flight_plan().as_str());
        s.append("\n");
        s.append(self.format_route().as_str());
        s.append("\nINITIALPSEUDOPILOT:");
        s.append(self.initial_pseudo_pilot.as_str());
        s
    }
}

/// The first transponder code of the pool for IFR traffic.
pub const SQUAWK_POOL_FIRST: u16 = 0o4000;

/// The code after the last one of the pool.
pub const SQUAWK_POOL_END: u16 = 0o7000;

/// The number of codes in the pool.
pub const SQUAWK_POOL_SIZE: usize = 1536;

/// The code that every VFR aircraft gets.
pub const VFR_SQUAWK: u16 = 7000;

/// The codes of the pool, in ascending order.
pub open spec fn squawk_range() -> Seq<u16> {
    Seq::new(SQUAWK_POOL_SIZE as nat, |i: int| (SQUAWK_POOL_FIRST + i) as u16)
}

pub open spec fn in_squawk_pool(code: u16) -> bool {
    SQUAWK_POOL_FIRST <= code < SQUAWK_POOL_END
}

/// The transponder codes that are still free.
pub struct SquawkPool {
    pub available: Vec<u16>,
}

impl SquawkPool {
    /// Each code at most once, and all of them from the pool's range.
    pub open spec fn wf(&self) -> bool {
        &&& self.available@.no_duplicates()
        &&& forall|i: int|
            0 <= i < self.available@.len() ==> #[trigger] in_squawk_pool(self.available@[i])
    }

    /// All the codes of the range, in random order.
    fn new(rng: &mut ThreadRng) -> (pool: SquawkPool)
        ensures
            pool.available@.to_multiset() == squawk_range().to_multiset(),
            pool.available@.len() == SQUAWK_POOL_SIZE,
            pool.wf(),
    {
        let mut available: Vec<u16> = Vec::new();
        let mut code: u16 = SQUAWK_POOL_FIRST;
        while code < SQUAWK_POOL_END
            invariant
                SQUAWK_POOL_FIRST <= code <= SQUAWK_POOL_END,
                available@ == squawk_range().take(code - SQUAWK_POOL_FIRST),
            decreases SQUAWK_POOL_END - code,
        {
            available.push(code);
            code = code + 1;
            assert(available@ == squawk_range().take(code - SQUAWK_POOL_FIRST));
        }
        assert(available@ == squawk_range());
        let ghost unshuffled = available@;
        shuffle(&mut available, rng);
        proof {
            lemma_shuffled_range(unshuffled, available@);
        }
        SquawkPool { available }
    }

    /// Takes the next free code, if any is left.
    fn allocate(&mut self) -> (code: Option<u16>)
        requires
            old(self).wf(),
        ensures
            final(self).wf(),
            old(self).available@.len() == 0 ==> code is None && final(self).available@ == old(
                self,
            ).available@,
            old(self).available@.len() > 0 ==> code == Some(old(self).available@.last())
                && final(self).available@ == old(self).available@.drop_last(),
    {
        let code = self.available.pop();
        proof {
            if old(self).available@.len() > 0 {
                assert forall|i: int|
                    0 <= i < self.available@.len() implies #[trigger] in_squawk_pool(
                    self.available@[i],
                ) by {
                    assert(self.available@[i] == old(self).available@[i]);
                }
            }
        }
        code
    }
}

/// A permutation of the range holds each code of the range once, and no other.
proof fn lemma_shuffled_range(unshuffled: Seq<u16>, shuffled: Seq<u16>)
    requires
        unshuffled == squawk_range(),
        shuffled.to_multiset() == unshuffled.to_multiset(),
    ensures
        shuffled.no_duplicates(),
        shuffled.len() == SQUAWK_POOL_SIZE,
        forall|i: int| 0 <= i < shuffled.len() ==> #[trigger] in_squawk_pool(shuffled[i]),
{
    broadcast use vstd::seq_lib::group_to_multiset_ensures;

    assert(unshuffled.no_duplicates());
    unshuffled.lemma_multiset_has_no_duplicates();
    shuffled.lemma_multiset_has_no_duplicates_conv();
    assert(shuffled.len() == shuffled.to_multiset().len());
    assert(unshuffled.len() == unshuffled.to_multiset().len());
    assert forall|i: int| 0 <= i < shuffled.len() implies #[trigger] in_squawk_pool(
        shuffled[i],
    ) by {
        assert(shuffled.to_multiset().count(shuffled[i]) > 0);
        assert(unshuffled.contains(shuffled[i]));
    }
}

/// The number of IFR aircraft.
pub open spec fn ifr_count(aircraft: Seq<Aircraft>) -> nat
    decreases aircraft.len(),
{
    if aircraft.len() == 0 {
        0
    } else {
        ifr_count(aircraft.drop_last()) + if aircraft.last().flight_rule == FlightRule::I {
            1nat
        } else {
            0nat
        }
    }
}

pub proof fn lemma_ifr_count_prefix(aircraft: Seq<Aircraft>, j: int)
    requires
        0 <= j <= aircraft.len(),
    ensures
        ifr_count(aircraft.take(j)) <= ifr_count(aircraft),
    decreases aircraft.len() - j,
{
    if j < aircraft.len() {
        assert(aircraft.take(j + 1).drop_last() == aircraft.take(j));
        lemma_ifr_count_prefix(aircraft, j + 1);
    } else {
        assert(aircraft.take(j) == aircraft);
    }
}

/// `b` is `a` with only its transponder code changed.
pub open spec fn same_but_squawk(a: Aircraft, b: Aircraft) -> bool {
    b == Aircraft { squawk: b.squawk, ..a }
}

/// The codes that `assign_squawks` leaves: every VFR aircraft gets 7000,
/// every IFR aircraft a code of the pool that no other IFR aircraft has.
pub open spec fn squawks_assigned(before: Seq<Aircraft>, after: Seq<Aircraft>) -> bool {
    &&& after.len() == before.len()
    &&& forall|k: int| 0 <= k < after.len() ==> same_but_squawk(before[k], #[trigger] after[k])
    &&& forall|k: int|
        0 <= k < after.len() && #[trigger] after[k].flight_rule == FlightRule::V
            ==> after[k].squawk == Some(VFR_SQUAWK)
    &&& forall|k: int|
        0 <= k < after.len() && #[trigger] after[k].flight_rule == FlightRule::I
            ==> after[k].squawk is Some && in_squawk_pool(after[k].squawk->0)
    &&& forall|j: int, k: int|
        0 <= j < k < after.len() && #[trigger] after[j].flight_rule == FlightRule::I
            && #[trigger] after[k].flight_rule == FlightRule::I ==> after[j].squawk
            != after[k].squawk
}

/// Gives every aircraft a transponder code: 7000 for VFR, and a distinct
/// code of the pool, drawn at random, for each IFR aircraft.
pub fn assign_squawks(aircraft: &mut [Aircraft])
    requires
        ifr_count(old(aircraft)@) <= SQUAWK_POOL_SIZE,
    ensures
        squawks_assigned(old(aircraft)@, final(aircraft)@),
{
    let mut rng = thread_rng();
    let mut pool = SquawkPool::new(&mut rng);
    let ghost before = aircraft@;
    let n = aircraft.len();
    let mut i: usize = 0;
    while i < n
        invariant
            n == before.len(),
            aircraft@.len() == n,
            i <= n,
            ifr_count(before) <= SQUAWK_POOL_SIZE,
            pool.wf(),
            pool.available@.len() + ifr_count(before.take(i as int)) == SQUAWK_POOL_SIZE,
            forall|k: int| i <= k < n ==> #[trigger] aircraft@[k] == before[k],
            forall|k: int| 0 <= k < i ==> same_but_squawk(before[k], #[trigger] aircraft@[k]),
            forall|k: int|
                0 <= k < i && #[trigger] aircraft@[k].flight_rule == FlightRule::V
                    ==> aircraft@[k].squawk == Some(VFR_SQUAWK),
            forall|k: int|
                0 <= k < i && #[trigger] aircraft@[k].flight_rule == FlightRule::I
                    ==> aircraft@[k].squawk is Some && in_squawk_pool(aircraft@[k].squawk->0)
                    && !pool.available@.contains(aircraft@[k].squawk->0),
            forall|j: int, k: int|
                0 <= j < k < i && #[trigger] aircraft@[j].flight_rule == FlightRule::I
                    && #[trigger] aircraft@[k].flight_rule == FlightRule::I
                    ==> aircraft@[j].squawk != aircraft@[k].squawk,
        decreases n - i,
    {
        proof {
            assert(before.take(i as int + 1).drop_last() == before.take(i as int));
            lemma_ifr_count_prefix(before, i as int + 1);
        }
        let code = match aircraft[i].flight_rule {
            FlightRule::V => VFR_SQUAWK,
            FlightRule::I => {
                let ghost old_pool = pool.available@;
                let c = pool.allocate();
                match c {
                    Some(c) => {
                        proof {
                            assert(old_pool == pool.available@.push(c));
                            assert forall|k: int|
                                0 <= k < i && #[trigger] aircraft@[k].flight_rule
                                    == FlightRule::I implies !pool.available@.contains(
                                aircraft@[k].squawk->0,
                            ) by {
                                if pool.available@.contains(aircraft@[k].squawk->0) {
                                    let w = choose|w: int|
                                        0 <= w < pool.available@.len()
                                            && pool.available@[w] == aircraft@[k].squawk->0;
                                    assert(old_pool[w] == pool.available@[w]);
                                }
                            }
                            assert(!pool.available@.contains(c)) by {
                                if pool.available@.contains(c) {
                                    let w = choose|w: int|
                                        0 <= w < pool.available@.len() && pool.available@[w]
                                            == c;
                                    assert(old_pool[w] == old_pool[old_pool.len() - 1]);
                                }
                            }
                            assert(in_squawk_pool(old_pool[old_pool.len() - 1]));
                        }
                        c
                    },
                    None => {
                        proof {
                            assert(false);
                        }
                        0
                    },
                }
            },
        };
        aircraft[i].squawk = Some(code);
        i = i + 1;
    }
    assert(before.take(n as int) == before);
}

} // verus!
