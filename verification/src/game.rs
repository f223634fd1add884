//! Game-wide distance rules shared by every question builder.

use vstd::prelude::*;

use crate::types::Centimeters;

verus! {

/// The hide-and-seek game's fixed distance rules.
#[derive(Clone, Copy, Debug)]
pub struct GameState {}

impl GameState {
    /// The radius within which a seeker can move around their hiding spot: a
    /// quarter mile, in whole centimeters.
    pub fn seeker_hiding_radius(&self) -> (r: Centimeters)
        ensures
            r.0 == 40233,
    {
        Centimeters(40233)
    }

    /// How far a hider may stand from the nearest street or path: ten feet.
    pub fn hider_max_distance_to_street_or_path(&self) -> (r: Centimeters)
        ensures
            r.0 == 304,
    {
        Centimeters::from_millimeters(3048)
    }
}

} // verus!
