//! SPECTRA: a deterministic simulation of a contested electromagnetic
//! environment. This crate holds the discrete core of the simulation —
//! identifiers, the world registry, interference lifetimes, fog of war,
//! electronic-warfare effect scheduling and scenario assembly — with
//! contracts checked by Verus. The crate is generic over the real-number
//! type `R` that carries positions, powers and frequencies; the arithmetic
//! on those numbers lives with the callers that pick `R`.

pub mod model;
pub mod ai;
pub mod console;
pub mod ew;
pub mod experiments;
pub mod sensors;
pub mod sim;
