//! Verified core of an admin back end: navigation menus, roles and
//! permissions, master data and system settings.

pub mod errors;
pub mod text;
pub mod modules;
