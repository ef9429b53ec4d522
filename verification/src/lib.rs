//! Verified core of a multi-source power measurement recorder.
pub mod text;
pub mod settings;
pub mod packet;
pub mod columns;
pub mod jetson;
pub mod fast_firmware;
pub mod sources;
pub mod command;
pub mod endpoints;
pub mod firmware;
pub mod scope;
