pub mod decision;
pub mod fog;
pub mod policy;
pub mod tactical;
