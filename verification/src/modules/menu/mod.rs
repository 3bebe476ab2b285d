//! Navigation menus: the menu entity, its tree view, the visibility rule,
//! cycle-checked reparenting, and the service decisions.

pub mod entity;
pub mod errors;
pub mod dto;
pub mod listing;
pub mod tree;
pub mod visibility;
pub mod hierarchy;
pub mod service;
