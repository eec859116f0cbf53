//! Tracks when houseplants were last watered and decides which of them are due.
//!
//! A [`Config`] maps plant names to watering intervals, a [`State`] maps plant
//! names to the moment each plant was last watered. The state is first
//! reconciled with the configuration, then either reported on ([`cmd_nag`])
//! or updated ([`cmd_water`]). The caller reads the clock and hands the moment
//! in, so that one run uses one moment throughout.

pub mod nag;
pub mod name_map;
pub mod plants;
pub mod reconcile;
pub mod text;
pub mod time;
pub mod water;

pub use nag::{cmd_nag, is_overdue, nag, Overdue};
pub use name_map::NameMap;
pub use plants::{Config, Plant, PlantStatus, State, DEFAULT_CONFIG_TOML};
pub use reconcile::sync_state_with_config;
pub use text::deserialize_string_lowercase;
pub use time::Timestamp;
pub use water::{cmd_water, water, WaterError, WaterRequest};
