//! Core of a metrics bridge for Shelly smart plugs: the device registry, the
//! judgement of what a plug answered, and the exposition text, each with a
//! machine-checked contract. Requests to the plugs and the metrics endpoint
//! itself are the caller's part.

pub mod clock;
pub mod device;
pub mod exposition;
pub mod fetch;
pub mod json;
pub mod scrape;
pub mod server;
pub mod text;

pub use crate::device::{load_plugs, Args, ShellySmartPlug};
pub use crate::scrape::get_metrics;
