pub mod effect;
pub mod jamming;
pub mod manager;
