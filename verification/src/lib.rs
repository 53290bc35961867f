//! The decisions of a controller for LIFX bulbs: which bulbs it knows, what they are told to do,
//! and how requests, schedules and stored configuration change that.
//!
//! Nothing here talks to the network or to a database: operations that need such work go in steps,
//! each of which takes the reply to the one before.
pub mod clock;
pub mod config;
pub mod control;
pub mod controller;
pub mod device;
pub mod discovery;
pub mod enrollment;
pub mod laws;
pub mod manage;
pub mod order;
pub mod registry;
pub mod schedule;
pub mod store;
pub mod tasks;
pub mod test_mode;
pub mod text;
pub mod timers;
pub mod views;
pub mod web;
