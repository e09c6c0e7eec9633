//! Stands for the departures of a tower session.
//!
//! A departure goes to a stand of a terminal that its airline prefers, where
//! one is free, and otherwise to the stand at the end of the list.
use vstd::prelude::*;

use crate::airport::{Airline, Airport, ReferenceCode, Stand, Terminal};
use crate::random::{shuffle, thread_rng};
use crate::text::owned;
use vstd::utf8::{decode_utf8, is_char_boundary};

verus! {

pub struct DepartureStand {
    pub number: u32,
    pub terminal: u32,
    pub max_size: ReferenceCode,
    pub coords: String,
    pub heading: u16,
}

/// The first three bytes of the callsign, where they end on a character
/// boundary, and the empty string otherwise (what `str::get(..3)` gives,
/// with `unwrap_or_default`).
pub open spec fn callsign_prefix(callsign: Seq<char>) -> Seq<char> {
    let bytes = vstd::utf8::encode_utf8(callsign);
    if is_char_boundary(bytes, 3) {
        decode_utf8(bytes.subrange(0, 3))
    } else {
        seq![]
    }
}

/// The first airline at or after index `i` whose designator is `icao`.
pub open spec fn first_airline(airlines: Seq<Airline>, icao: Seq<char>, i: int) -> Option<int>
    decreases airlines.len() - i,
{
    if i < 0 || i >= airlines.len() {
        None
    } else if airlines[i].icao@ == icao {
        Some(i)
    } else {
        first_airline(airlines, icao, i + 1)
    }
}

/// The terminals that the airline of the callsign prefers; none where no
/// airline has the callsign's first three letters as its designator.
pub open spec fn preferred_terminal_ids(callsign: Seq<char>, airlines: Seq<Airline>) -> Seq<u32> {
    match first_airline(airlines, callsign_prefix(callsign), 0) {
        Some(i) => airlines[i].terminals@,
        None => seq![],
    }
}

fn callsign_prefix_of(callsign: &str) -> (p: &str)
    ensures
        p@ == callsign_prefix(callsign@),
{
    broadcast use vstd::utf8::encode_utf8_decode_utf8;

    if callsign.is_char_boundary(3) {
        let (p, _) = callsign.split_at(3);
        assert(p@ == decode_utf8(vstd::utf8::encode_utf8(p@)));
        p
    } else {
        proof {
            reveal_strlit("");
        }
        ""
    }
}

/// The terminals that the airline of the callsign prefers.
pub fn preferred_terminals<'a>(callsign: &str, airlines: &'a [Airline]) -> (r: &'a [u32])
    ensures
        r@ == preferred_terminal_ids(callsign@, airlines@),
{
    let prefix = owned(callsign_prefix_of(callsign));
    let n = airlines.len();
    let mut i: usize = 0;
    while i < n
        invariant
            n == airlines@.len(),
            i <= n,
            prefix@ == callsign_prefix(callsign@),
            first_airline(airlines@, prefix@, 0) == first_airline(airlines@, prefix@, i as int),
        decreases n - i,
    {
        if airlines[i].icao == prefix {
            return airlines[i].terminals.as_slice();
        }
        i = i + 1;
    }
    &[]
}

/// The first stand at or after index `i` that belongs to one of the terminals.
pub open spec fn first_preferred_stand(stands: Seq<DepartureStand>, terminals: Seq<u32>, i: int) -> Option<
    int,
>
    decreases stands.len() - i,
{
    if i < 0 || i >= stands.len() {
        None
    } else if terminals.contains(stands[i].terminal) {
        Some(i)
    } else {
        first_preferred_stand(stands, terminals, i + 1)
    }
}

/// The stands left and the stand that a departure with this callsign gets:
/// the first stand of a preferred terminal, else the last stand, else none.
pub open spec fn stand_allocation(
    stands: Seq<DepartureStand>,
    callsign: Seq<char>,
    airlines: Seq<Airline>,
) -> (Seq<DepartureStand>, Option<DepartureStand>) {
    match first_preferred_stand(stands, preferred_terminal_ids(callsign, airlines), 0) {
        Some(i) => (stands.remove(i), Some(stands[i])),
        None => if stands.len() == 0 {
            (stands, None)
        } else {
            (stands.drop_last(), Some(stands.last()))
        },
    }
}

fn contains_terminal(terminals: &[u32], id: u32) -> (b: bool)
    ensures
        b == terminals@.contains(id),
{
    let n = terminals.len();
    let mut i: usize = 0;
    while i < n
        invariant
            n == terminals@.len(),
            i <= n,
            forall|k: int| 0 <= k < i ==> terminals@[k] != id,
        decreases n - i,
    {
        if terminals[i] == id {
            return true;
        }
        i = i + 1;
    }
    false
}

/// Takes a stand for the departure with this callsign out of `stands`.
pub fn allocate_stand(stands: &mut Vec<DepartureStand>, callsign: &str, airlines: &[Airline]) -> (r:
    Option<DepartureStand>)
    ensures
        (final(stands)@, r) == stand_allocation(old(stands)@, callsign@, airlines@),
{
    let preferred = preferred_terminals(callsign, airlines);
    let n = stands.len();
    let mut i: usize = 0;
    while i < n
        invariant
            n == stands@.len(),
            stands@ == old(stands)@,
            i <= n,
            preferred@ == preferred_terminal_ids(callsign@, airlines@),
            first_preferred_stand(stands@, preferred@, 0) == first_preferred_stand(
                stands@,
                preferred@,
                i as int,
            ),
        decreases n - i,
    {
        if contains_terminal(preferred, stands[i].terminal) {
            return Some(stands.remove(i));
        }
        i = i + 1;
    }
    stands.pop()
}

pub open spec fn departure_stand(t: Terminal, s: Stand) -> DepartureStand {
    DepartureStand {
        number: s.id,
        terminal: t.id,
        max_size: s.max_size,
        coords: s.coords,
        heading: s.heading,
    }
}

/// The stands of the terminal, in the order the terminal lists them.
pub open spec fn terminal_stands(t: Terminal) -> Seq<DepartureStand> {
    Seq::new(t.stands@.len(), |j: int| departure_stand(t, t.stands@[j]))
}

/// Every stand of every terminal, terminal by terminal.
pub open spec fn all_stands(terminals: Seq<Terminal>) -> Seq<DepartureStand>
    decreases terminals.len(),
{
    if terminals.len() == 0 {
        seq![]
    } else {
        all_stands(terminals.drop_last()) + terminal_stands(terminals.last())
    }
}

/// Every stand of the airport, in random order.
pub fn generate_stands(airport: &Airport) -> (stands: Vec<DepartureStand>)
    ensures
        stands@.to_multiset() == all_stands(airport.terminals@).to_multiset(),
{
    let mut stands: Vec<DepartureStand> = Vec::new();
    let ts = &airport.terminals;
    let n = ts.len();
    for i in 0..n
        invariant
            n == ts@.len(),
            stands@ == all_stands(ts@.take(i as int)),
    {
        let t = &ts[i];
        let m = t.stands.len();
        let ghost start = stands@;
        for j in 0..m
            invariant
                m == t.stands@.len(),
                *t == ts@[i as int],
                stands@ == start + terminal_stands(*t).take(j as int),
        {
            let s = &t.stands[j];
            stands.push(
                DepartureStand {
                    number: s.id,
                    terminal: t.id,
                    max_size: s.max_size,
                    coords: s.coords.clone(),
                    heading: s.heading,
                },
            );
            assert(terminal_stands(*t).take(j as int + 1) == terminal_stands(*t).take(j as int).push(
                departure_stand(*t, t.stands@[j as int]),
            ));
        }
        assert(terminal_stands(*t).take(m as int) == terminal_stands(*t));
        assert(ts@.take(i as int + 1).drop_last() == ts@.take(i as int));
    }
    assert(ts@.take(n as int) == ts@);
    let mut rng = thread_rng();
    shuffle(&mut stands, &mut rng);
    stands
}

} // verus!
