pub mod controls;
pub mod map;
pub mod panels;
