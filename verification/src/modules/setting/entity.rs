//! The system setting entity.

use vstd::prelude::*;

verus! {

/// A row of `system_settings`: a global, admin-configurable key/value pair.
/// `updated_at` is a Unix time in microseconds.
#[derive(Debug, Clone)]
pub struct SystemSetting {
    pub id: i32,
    pub key: String,
    pub value: Option<String>,
    pub description: Option<String>,
    pub updated_by: Option<i32>,
    pub updated_at: i64,
}

} // verus!
