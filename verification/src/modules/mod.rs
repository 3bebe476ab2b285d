//! The admin modules, each with its domain types, validation rules and the
//! decisions its services take.

pub mod common;
pub mod masters;
pub mod menu;
pub mod permission;
pub mod role;
pub mod setting;
