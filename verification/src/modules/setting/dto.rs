//! Requests that the setting endpoints accept.

use vstd::prelude::*;

verus! {

/// Body of `PUT /settings/:key`: create or replace. A `None` value clears
/// the value; a `None` description keeps the current one.
#[derive(Debug)]
pub struct UpsertSettingRequest {
    pub value: Option<String>,
    pub description: Option<String>,
}

} // verus!
