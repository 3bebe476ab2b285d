//! The role entity.

use vstd::prelude::*;

verus! {

/// A row of `roles` with the names of the permissions granted to it.
/// Timestamps are Unix times in microseconds.
#[derive(Debug, Clone)]
pub struct Role {
    pub id: i32,
    pub name: String,
    pub description: Option<String>,
    pub permissions: Vec<String>,
    pub created_at: i64,
    pub updated_at: i64,
}

/// A single permission as attached to a role.
#[derive(Debug, Clone)]
pub struct Permission {
    pub id: i32,
    pub name: String,
    pub description: Option<String>,
}

} // verus!
