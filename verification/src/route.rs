//! A named route, as the scenario file declares one.
use vstd::prelude::*;

use crate::text::owned;

verus! {

pub struct Route {
    pub name: String,
    pub route: String,
}

impl Route {
    pub fn new(name: &str, route: &str) -> (r: Route)
        ensures
            r.name@ == name@,
            r.route@ == route@,
    {
        Route { name: owned(name), route: owned(route) }
    }
}

} // verus!
