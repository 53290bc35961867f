//! What the controller's operations are for, stated of the values that they take and give.
//!
//! The contracts say what an operation does in terms of named models. The laws here say of those
//! models what must hold of them, field by field and over all inputs.
pub mod commands;
pub mod configuration;
pub mod lights;
pub mod pages;
pub mod requests;
pub mod schedules;
pub mod timers;
