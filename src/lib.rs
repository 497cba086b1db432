//! Remote configuration sessions for devices that cannot accept inbound
//! connections: a device registers a settings schema, a person redeems a
//! one-time key to edit the values, and the device long-polls a revision
//! counter to learn of the edits.

pub mod config;
pub mod table;
pub mod error;
pub mod entropy;
pub mod keys;
pub mod model;
pub mod laws;
