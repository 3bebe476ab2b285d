//! The permission entity.

use vstd::prelude::*;

verus! {

/// A row of `permissions`. `created_at` is a Unix time in microseconds.
#[derive(Debug, Clone)]
pub struct Permission {
    pub id: i32,
    pub name: String,
    pub description: Option<String>,
    pub created_at: i64,
}

} // verus!
