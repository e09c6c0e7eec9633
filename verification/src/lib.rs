//! Scenario generator for sweatbox air traffic control training sessions.
//!
//! The library holds the airport data model, the standard-route expansion,
//! the traffic staging and scheduling rules and the scenario file format.
//! Everything that reads files, asks the user or talks to the network lives
//! in the application around it.
pub mod text;
pub mod controller;
pub mod route;
pub mod airport;
pub mod route_parser;
pub mod random;
pub mod aircraft;
pub mod stands;
pub mod generator;
pub mod update_check;
pub mod data_checks;
pub mod airport_parser;
pub mod laws;
