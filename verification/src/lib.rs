//! Verified detection engine, detectors, and presentation logic for offline network forensics.

use vstd::prelude::*;

pub mod ratio;
pub mod text;
pub mod domain;
pub mod views;
pub mod sorted;
pub mod flow;
pub mod error;
pub mod input;
pub mod limits;
pub mod config;
pub mod params;
pub mod detector;
pub mod registry;
pub mod periodic_beaconing;
pub mod dns_anomaly;
pub mod connection_behavior;
pub mod correlation;
pub mod canonical;
pub mod provenance;
pub mod multi_signal;
pub mod engine;
pub mod filtering;
pub mod analysis;
pub mod builtin;
pub mod capture;
pub mod presentation;
pub mod validation;
pub mod report;
pub mod args;
pub mod laws;
pub mod determinism;
pub mod thresholds;

verus! {

} // verus!
