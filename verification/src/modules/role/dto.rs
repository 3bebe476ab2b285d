//! Requests that the role endpoints accept.

use vstd::prelude::*;

verus! {

/// Body of `POST /roles`.
#[derive(Debug)]
pub struct CreateRoleRequest {
    pub name: String,
    pub description: Option<String>,
}

/// Body of `PUT /roles/:id`.
#[derive(Debug)]
pub struct UpdateRoleRequest {
    pub name: Option<String>,
    pub description: Option<String>,
    pub is_active: Option<bool>,
}

/// Body of `PUT /roles/:id/permissions`: the full desired list of
/// permission ids; the role ends up with exactly these (an empty list
/// revokes all).
#[derive(Debug)]
pub struct SyncRolePermissionsRequest {
    pub permission_ids: Vec<i32>,
}

} // verus!
