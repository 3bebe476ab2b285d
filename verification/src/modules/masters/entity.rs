//! Master groups and their items.

use vstd::prelude::*;

verus! {

/// A master item, a row of `master_items`. `extra` is the item's JSON
/// payload as text. Timestamps are Unix times in microseconds.
#[derive(Debug, Clone)]
pub struct MasterItem {
    pub id: i64,
    pub group_id: i64,
    pub code: String,
    pub name: String,
    pub description: Option<String>,
    pub extra: Option<String>,
    pub sort_order: i32,
    pub is_active: bool,
    pub created_at: i64,
    pub updated_at: i64,
    pub deleted_at: Option<i64>,
}

/// A master group, a row of `master_groups`, with its items.
#[derive(Debug, Clone)]
pub struct MasterGroup {
    pub id: i64,
    pub code: String,
    pub name: String,
    pub description: Option<String>,
    pub is_active: bool,
    pub created_at: i64,
    pub updated_at: i64,
    pub deleted_at: Option<i64>,
    pub items: Vec<MasterItem>,
}

fn copy_text(s: &Option<String>) -> (r: Option<String>)
    ensures
        r == *s,
{
    match s {
        Some(t) => Some(t.clone()),
        None => None,
    }
}

impl MasterItem {
    /// A field-by-field copy of the item.
    pub fn duplicate(&self) -> (r: MasterItem)
        ensures
            r == *self,
    {
        MasterItem {
            id: self.id,
            group_id: self.group_id,
            code: self.code.clone(),
            name: self.name.clone(),
            description: copy_text(&self.description),
            extra: copy_text(&self.extra),
            sort_order: self.sort_order,
            is_active: self.is_active,
            created_at: self.created_at,
            updated_at: self.updated_at,
            deleted_at: self.deleted_at,
        }
    }
}

} // verus!
