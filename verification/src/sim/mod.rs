pub mod scenario;
pub mod tick;
