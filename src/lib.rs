//! Metacognitive streaming-decision core: evidence fusion, the worker-pool
//! scheduler, the partial-result cache and the background pattern synthesizer.
//!
//! Every fractional quantity (confidence, weight, load, share, strength) is a
//! fixed-point integer counted in millionths: `UNIT` stands for 1.0.

pub mod betting;
pub mod config;
pub mod decision;
pub mod dreaming;
pub mod geolocation;
pub mod glycolytic;
pub mod lactate;
pub mod orchestrator;
pub mod reasoning;
pub mod stream;
mod host;
