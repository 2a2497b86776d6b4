//! Core of a deterministic traffic simulation: fixed-precision physical
//! quantities, plain geometry over fixed-point coordinates, and the trip
//! lifecycle state machine that tracks which agent is animating which trip.
//!
//! Everything is stored as scaled integers so that arithmetic is exact and
//! bit-reproducible across runs; floating-point conversions live outside the
//! verified core.

pub mod ids;
pub mod kml;
pub mod chokepoints;
pub mod circle;
pub mod edits;
pub mod line;
pub mod math;
pub mod menu;
pub mod polyline;
pub mod pt;
pub mod trips;
pub mod units;
pub mod walking;
