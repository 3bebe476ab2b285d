//! Requests that the menu endpoints accept.

use vstd::prelude::*;

verus! {

/// Body of `POST /menus`.
#[derive(Debug)]
pub struct CreateMenuRequest {
    pub parent_id: Option<i32>,
    pub name: String,
    pub slug: String,
    pub path: Option<String>,
    pub icon: Option<String>,
    pub order_index: i32,
}

/// Body of `PUT /menus/:id`. For `parent_id` and `icon`: omitted (`None`)
/// leaves the field alone, `Some(None)` clears it (for `parent_id`: moves
/// the menu to the top level), `Some(Some(x))` sets it.
#[derive(Debug)]
pub struct UpdateMenuRequest {
    pub parent_id: Option<Option<i32>>,
    pub name: Option<String>,
    pub path: Option<String>,
    pub icon: Option<Option<String>>,
    pub order_index: Option<i32>,
    pub is_active: Option<bool>,
}

/// Body of `POST /menus/:id/permission`.
#[derive(Debug)]
pub struct AssignMenuPermissionRequest {
    pub permission: String,
}

} // verus!
