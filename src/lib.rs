//! Turns a repurposed USB game controller into a multi-channel performance
//! controller: raw input codes are decoded into key and button edges, and a
//! command interpreter turns those edges into synthesizer events and
//! persisted per-channel settings.

pub mod kmctrler;
pub mod registry;
pub mod settings;
pub mod store;
pub mod synthctrler;
