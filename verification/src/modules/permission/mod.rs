//! The permission catalog and the service decisions.

pub mod dto;
pub mod entity;
pub mod errors;
pub mod service;
pub mod value_object;
