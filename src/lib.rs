//! Driving verified certificates to execution and moving a validator from one
//! epoch's committee to the next.

pub mod capability;
pub mod cert_store;
pub mod committee;
pub mod driver;
pub mod keyed;
pub mod pending;
pub mod reconfiguration;
pub mod types;
