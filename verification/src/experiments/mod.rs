pub mod metrics;
pub mod runner;
