//! The configured plants and the record of when each was last watered.

use crate::name_map::NameMap;
use crate::time::{Civil, Timestamp};
use vstd::prelude::*;

verus! {

/// The configuration that is written where the user has none yet.
pub const DEFAULT_CONFIG_TOML: &'static str =
    "# Each plant has a table of its own, named after the plant.\n# watering_interval is the number of days between two waterings.\n\n[monstera]\nwatering_interval = 7\n\n[cactus]\nwatering_interval = 30\n";

/// What the user configures for one plant.
#[derive(Clone, Copy, Debug, PartialEq, Eq, Structural)]
pub struct Plant {
    /// Days that may pass between two waterings.
    pub watering_interval: u64,
}

/// What is recorded for one plant.
#[derive(Clone, Copy, Debug, PartialEq, Eq, Structural)]
pub struct PlantStatus {
    /// When the plant was last watered.
    pub last_watered: Timestamp,
}

impl PlantStatus {
    /// The status of a plant that was never watered.
    pub open spec fn never() -> PlantStatus {
        PlantStatus { last_watered: Timestamp::never() }
    }
}

impl Default for PlantStatus {
    fn default() -> (status: Self)
        ensures
            status == PlantStatus::never(),
            status.last_watered@ == (Civil {
                year: 1900,
                month: 1,
                day: 1,
                hour: 0,
                minute: 0,
                second: 0,
                nanosecond: 0,
            }),
    {
        PlantStatus { last_watered: Timestamp::never_watered() }
    }
}

/// The plants that the user configured, by name.
#[derive(Debug)]
pub struct Config {
    pub plants: NameMap<Plant>,
}

impl View for Config {
    type V = Map<Seq<char>, Plant>;

    open spec fn view(&self) -> Map<Seq<char>, Plant> {
        self.plants@
    }
}

/// The status of each known plant, by name.
#[derive(Debug)]
pub struct State {
    pub plants: NameMap<PlantStatus>,
}

impl View for State {
    type V = Map<Seq<char>, PlantStatus>;

    open spec fn view(&self) -> Map<Seq<char>, PlantStatus> {
        self.plants@
    }
}

impl Clone for Config {
    fn clone(&self) -> (copy: Self)
        ensures
            copy@ == self@,
    {
        Config { plants: self.plants.clone() }
    }
}

impl Clone for State {
    fn clone(&self) -> (copy: Self)
        ensures
            copy@ == self@,
    {
        State { plants: self.plants.clone() }
    }
}

impl Default for State {
    fn default() -> (state: Self)
        ensures
            state@ == Map::<Seq<char>, PlantStatus>::empty(),
    {
        State { plants: NameMap::new() }
    }
}

} // verus!
