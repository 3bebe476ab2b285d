//! Roles, the permissions granted to them, and the service decisions.

pub mod dto;
pub mod entity;
pub mod errors;
pub mod service;
pub mod sync;
pub mod value_object;
