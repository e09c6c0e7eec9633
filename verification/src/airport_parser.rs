//! The airport data types under the names that the data file parser uses.
pub use crate::airport::{
    Airline, Airport, ArrivalRoute, Controller, CustomRoute, DepartureRoute, Direction, Hold,
    PositionRoute, ReferenceCode, Runway, RunwayRoute, Stand, StandardRoute, Terminal,
};
