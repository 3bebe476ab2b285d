//! Requests that the master-data endpoints accept.

use vstd::prelude::*;

verus! {

/// Body of `POST /masters`.
#[derive(Debug)]
pub struct CreateMasterGroupRequest {
    pub code: String,
    pub name: String,
    pub description: Option<String>,
}

/// Body of `PUT /masters/:id`.
#[derive(Debug)]
pub struct UpdateMasterGroupRequest {
    pub code: String,
    pub name: String,
    pub description: Option<String>,
    pub is_active: bool,
}

/// Body of `POST /masters/:id/items`; `group_id` comes from the path.
/// `extra` is the item's JSON payload as text.
#[derive(Debug)]
pub struct CreateMasterItemRequest {
    pub group_id: i64,
    pub code: String,
    pub name: String,
    pub description: Option<String>,
    pub extra: Option<String>,
    pub sort_order: Option<i32>,
}

/// Body of `PUT /master-items/:id`.
#[derive(Debug)]
pub struct UpdateMasterItemRequest {
    pub code: String,
    pub name: String,
    pub description: Option<String>,
    pub extra: Option<String>,
    pub sort_order: Option<i32>,
    pub is_active: bool,
}

} // verus!
