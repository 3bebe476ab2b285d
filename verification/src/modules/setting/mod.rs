//! System-wide key/value settings and the service decisions.

pub mod dto;
pub mod entity;
pub mod errors;
pub mod service;
