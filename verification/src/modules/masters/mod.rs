//! Master data: groups of lookup items (e.g. "Payment Method" with its
//! items), their names, and the service decisions.

pub mod dto;
pub mod entity;
pub mod errors;
pub mod grouping;
pub mod service;
pub mod value_object;
