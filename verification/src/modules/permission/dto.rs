//! Requests that the permission endpoints accept.

use vstd::prelude::*;

verus! {

/// Body of `POST /permissions`.
#[derive(Debug)]
pub struct CreatePermissionRequest {
    pub name: String,
    pub description: Option<String>,
}

/// Body of `PUT /permissions/:id`.
#[derive(Debug)]
pub struct UpdatePermissionRequest {
    pub name: Option<String>,
    pub description: Option<String>,
    pub is_active: Option<bool>,
}

} // verus!
