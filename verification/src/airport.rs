//! The airport data model and the airport sections of a scenario file.
//!
//! The data files give a few quantities as floating-point numbers; the model
//! holds what the rules read of them: the runway track and the controller
//! frequency as the text the scenario file prints, the stand heading in the
//! unit of the scenario file, and the airport elevation as its one-decimal
//! text, its whole feet and its rounded feet.
use vstd::prelude::*;

pub use crate::controller::Controller;
use crate::route_parser::RouteType;
use crate::text::{decimal, join, join_seq, owned, signed_decimal, u16_to_string, i8_to_string};

verus! {

pub struct Runway {
    pub designator: String,
    pub threshold: String,
    /// The runway track as the scenario file prints it.
    pub track: String,
    pub dep_spawn: String,
}

#[derive(Clone, Copy, PartialEq, Eq, Debug)]
pub enum Direction {
    L,
    R,
}

impl Direction {
    pub open spec fn spec_to_i8(self) -> i8 {
        match self {
            Direction::L => -1i8,
            Direction::R => 1i8,
        }
    }

    /// The turn direction of a hold: -1 for left, 1 for right.
    pub fn to_i8(&self) -> (v: i8)
        ensures
            v == self.spec_to_i8(),
    {
        match self {
            Direction::L => -1,
            Direction::R => 1,
        }
    }
}

pub struct Hold {
    pub fix: String,
    pub inbound: u16,
    pub direction: Direction,
}

pub struct CustomRoute {
    pub name: String,
    pub route: String,
}

pub struct Airline {
    pub icao: String,
    pub terminals: Vec<u32>,
    pub types: Vec<String>,
}

#[derive(Clone, Copy, PartialEq, Eq, Debug)]
pub enum ReferenceCode {
    A,
    B,
    C,
    D,
    E,
    F,
}

pub struct Stand {
    pub id: u32,
    pub coords: String,
    /// The stand bearing in the heading unit of the scenario file.
    pub heading: u16,
    pub max_size: ReferenceCode,
}

pub struct Terminal {
    pub id: u32,
    pub label: String,
    pub stands: Vec<Stand>,
}

/// One runway's version of a standard route; `runway: None` serves every runway.
pub struct RunwayRoute {
    pub runway: Option<String>,
    pub filed_route: String,
    pub flown_route: Option<String>,
}

impl RunwayRoute {
    /// The text of this entry for a route type: the flown route falls back
    /// to the filed one where the entry gives none.
    pub open spec fn route_text(self, route_type: RouteType) -> Seq<char> {
        match route_type {
            RouteType::Filed => self.filed_route@,
            RouteType::Flown => match self.flown_route {
                Some(f) => f@,
                None => self.filed_route@,
            },
        }
    }

    pub fn route(&self, route_type: &RouteType) -> (r: &String)
        ensures
            r@ == self.route_text(*route_type),
    {
        match route_type {
            RouteType::Filed => &self.filed_route,
            RouteType::Flown => match &self.flown_route {
                Some(f) => f,
                None => &self.filed_route,
            },
        }
    }
}

pub struct StandardRoute {
    pub name: String,
    pub routes: Vec<RunwayRoute>,
}

pub struct DepartureRoute {
    pub dest: String,
    pub callsigns: Vec<String>,
    pub types: Vec<String>,
    pub filed_route: String,
    pub flown_route: String,
    pub rfl: u16,
}

pub struct PositionRoute {
    pub spawn_coords: String,
    pub spawn_alt: u16,
    pub flown_route: String,
}

pub struct ArrivalRoute {
    pub dep: String,
    pub callsigns: Vec<String>,
    pub types: Vec<String>,
    pub filed_route: String,
    pub rfl: u16,
    pub ctr_route: Option<PositionRoute>,
    pub app_route: Option<PositionRoute>,
    pub adc_route: Option<PositionRoute>,
}

#[derive(Clone)]
pub struct VfrFlightPlan {
    pub dep: String,
    pub dest: String,
    pub route: String,
    pub alt: u16,
}

#[derive(Clone)]
pub struct LocalVfr {
    pub callsign: String,
    pub aircraft_type: String,
    pub spawn_coords: String,
    pub spawn_alt: u16,
    pub route: String,
    pub flight_plan: VfrFlightPlan,
}

pub struct GroundVfr {
    pub spawn_coords: Vec<String>,
    pub default_flight_plan: VfrFlightPlan,
}

pub struct Airport {
    pub icao: String,
    /// Where a fresh copy of the airport's data file can be downloaded.
    pub update_url: Option<String>,
    /// The elevation in feet with one decimal, as the scenario file prints it.
    pub elevation_text: String,
    /// The elevation in whole feet, the fraction dropped.
    pub elevation_ft: u16,
    /// The elevation rounded to the nearest foot.
    pub elevation_rounded: u16,
    pub runways: Vec<Runway>,
    pub holds: Vec<Hold>,
    pub custom_routes: Vec<CustomRoute>,
    pub controllers: Vec<Controller>,
    pub airlines: Vec<Airline>,
    pub terminals: Vec<Terminal>,
    pub standard_routes: Vec<StandardRoute>,
    pub departure_routes: Vec<DepartureRoute>,
    pub arrival_routes: Vec<ArrivalRoute>,
    pub local_vfr: Option<Vec<LocalVfr>>,
    pub ground_vfr: Option<GroundVfr>,
}

pub open spec fn elevation_line(airport: Airport) -> Seq<char> {
    "AIRPORT_ALT:"@ + airport.elevation_text@
}

pub open spec fn hold_line(h: Hold) -> Seq<char> {
    "HOLDING:"@ + h.fix@ + ":"@ + decimal(h.inbound as nat) + ":"@ + signed_decimal(
        h.direction.spec_to_i8() as int,
    )
}

pub open spec fn runway_line(r: Runway) -> Seq<char> {
    "ILS"@ + r.designator@ + ":"@ + r.threshold@ + ":"@ + r.track@
}

pub open spec fn custom_route_line(r: CustomRoute) -> Seq<char> {
    "ROUTE:"@ + r.name@ + ":"@ + r.route@
}

pub open spec fn controller_line(c: Controller) -> Seq<char> {
    "PSEUDOPILOT:ALL\nCONTROLLER:"@ + c.callsign@ + ":"@ + c.frequency@
}

pub open spec fn hold_lines(holds: Seq<Hold>) -> Seq<char> {
    join_seq(Seq::new(holds.len(), |i: int| hold_line(holds[i])), "\n"@)
}

pub open spec fn runway_lines(runways: Seq<Runway>) -> Seq<char> {
    join_seq(Seq::new(runways.len(), |i: int| runway_line(runways[i])), "\n"@)
}

pub open spec fn custom_route_lines(routes: Seq<CustomRoute>) -> Seq<char> {
    join_seq(Seq::new(routes.len(), |i: int| custom_route_line(routes[i])), "\n"@)
}

pub open spec fn controller_lines(controllers: Seq<Controller>) -> Seq<char> {
    join_seq(Seq::new(controllers.len(), |i: int| controller_line(controllers[i])), "\n"@)
}

fn format_hold(h: &Hold) -> (s: String)
    ensures
        s@ == hold_line(*h),
{
    let mut s = owned("HOLDING:");
    s.append(h.fix.as_str());
    s.append(":");
    s.append(u16_to_string(h.inbound).as_str());
    s.append(":");
    s.append(i8_to_string(h.direction.to_i8()).as_str());
    s
}

fn format_runway(r: &Runway) -> (s: String)
    ensures
        s@ == runway_line(*r),
{
    let mut s = owned("ILS");
    s.append(r.designator.as_str());
    s.append(":");
    s.append(r.threshold.as_str());
    s.append(":");
    s.append(r.track.as_str());
    s
}

fn format_custom_route(r: &CustomRoute) -> (s: String)
    ensures
        s@ == custom_route_line(*r),
{
    let mut s = owned("ROUTE:");
    s.append(r.name.as_str());
    s.append(":");
    s.append(r.route.as_str());
    s
}

fn format_controller(c: &Controller) -> (s: String)
    ensures
        s@ == controller_line(*c),
{
    let mut s = owned("PSEUDOPILOT:ALL\nCONTROLLER:");
    s.append(c.callsign.as_str());
    s.append(":");
    s.append(c.frequency.as_str());
    s
}

impl Airport {
    /// The forms of the elevation agree: the rounded feet are the whole feet
    /// or one more.
    pub open spec fn wf(&self) -> bool {
        self.elevation_ft <= self.elevation_rounded <= self.elevation_ft + 1
    }

    /// Whether the forms of the elevation agree.
    pub fn elevation_consistent(&self) -> (b: bool)
        ensures
            b == self.wf(),
    {
        self.elevation_ft <= self.elevation_rounded && self.elevation_rounded - self.elevation_ft
            <= 1
    }

    /// The airport data to use once a fresh copy has been asked for: data
    /// with an update URL gives way to the downloaded data, when the download
    /// gave any; data without one is kept. The flag says whether the data
    /// file is to be overwritten with the download.
    pub fn refreshed(self, downloaded: Option<Airport>) -> (r: (Airport, bool))
        ensures
            (self.update_url is Some && downloaded is Some) ==> r == (downloaded->0, true),
            !(self.update_url is Some && downloaded is Some) ==> r == (self, false),
    {
        if self.update_url.is_some() {
            match downloaded {
                Some(d) => (d, true),
                None => (self, false),
            }
        } else {
            (self, false)
        }
    }

    /// `AIRPORT_ALT:` and the elevation with one decimal.
    pub fn format_elevation(&self) -> (s: String)
        ensures
            s@ == elevation_line(*self),
    {
        let mut s = owned("AIRPORT_ALT:");
        s.append(self.elevation_text.as_str());
        s
    }

    /// One `HOLDING:fix:inbound:direction` line per hold.
    pub fn format_holds(&self) -> (s: String)
        ensures
            s@ == hold_lines(self.holds@),
    {
        let mut lines: Vec<String> = Vec::new();
        let n = self.holds.len();
        for i in 0..n
            invariant
                n == self.holds@.len(),
                lines@.len() == i,
                forall|k: int| 0 <= k < i ==> #[trigger] lines@[k]@ == hold_line(self.holds@[k]),
        {
            lines.push(format_hold(&self.holds[i]));
        }
        let s = join(&lines, "\n");
        assert(crate::text::views(lines@) == Seq::new(
            self.holds@.len(),
            |i: int| hold_line(self.holds@[i]),
        ));
        s
    }

    /// One `ILSdesignator:threshold:track` line per runway.
    pub fn format_runways(&self) -> (s: String)
        ensures
            s@ == runway_lines(self.runways@),
    {
        let mut lines: Vec<String> = Vec::new();
        let n = self.runways.len();
        for i in 0..n
            invariant
                n == self.runways@.len(),
                lines@.len() == i,
                forall|k: int| 0 <= k < i ==> #[trigger] lines@[k]@ == runway_line(self.runways@[k]),
        {
            lines.push(format_runway(&self.runways[i]));
        }
        let s = join(&lines, "\n");
        assert(crate::text::views(lines@) == Seq::new(
            self.runways@.len(),
            |i: int| runway_line(self.runways@[i]),
        ));
        s
    }

    /// One `ROUTE:name:route` line per custom route.
    pub fn format_custom_routes(&self) -> (s: String)
        ensures
            s@ == custom_route_lines(self.custom_routes@),
    {
        let mut lines: Vec<String> = Vec::new();
        let n = self.custom_routes.len();
        for i in 0..n
            invariant
                n == self.custom_routes@.len(),
                lines@.len() == i,
                forall|k: int|
                    0 <= k < i ==> #[trigger] lines@[k]@ == custom_route_line(
                        self.custom_routes@[k],
                    ),
        {
            lines.push(format_custom_route(&self.custom_routes[i]));
        }
        let s = join(&lines, "\n");
        assert(crate::text::views(lines@) == Seq::new(
            self.custom_routes@.len(),
            |i: int| custom_route_line(self.custom_routes@[i]),
        ));
        s
    }

    /// A pseudo-pilot line and a `CONTROLLER:callsign:frequency` line per controller.
    pub fn format_controllers(&self) -> (s: String)
        ensures
            s@ == controller_lines(self.controllers@),
    {
        let mut lines: Vec<String> = Vec::new();
        let n = self.controllers.len();
        for i in 0..n
            invariant
                n == self.controllers@.len(),
                lines@.len() == i,
                forall|k: int|
                    0 <= k < i ==> #[trigger] lines@[k]@ == controller_line(self.controllers@[k]),
        {
            lines.push(format_controller(&self.controllers[i]));
        }
        let s = join(&lines, "\n");
        assert(crate::text::views(lines@) == Seq::new(
            self.controllers@.len(),
            |i: int| controller_line(self.controllers@[i]),
        ));
        s
    }
}

} // verus!
