pub mod action;
pub mod config;
pub mod emitter;
pub mod entity;
pub mod event;
pub mod id;
pub mod interference;
pub mod metrics;
pub mod observation;
pub mod receiver;
pub mod scalar;
pub mod text;
pub mod world;
