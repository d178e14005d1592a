//! Supervision core for a desktop shell around an inspector CLI process:
//! port allocation, launch planning, log-line scanning for the readiness
//! token, and a small persisted store of launch profiles.

pub mod config;
pub mod ids;
pub mod inspector;
pub mod ports;
pub mod relay;
pub mod state;
pub mod text;
