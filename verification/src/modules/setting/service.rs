//! The decisions of the setting service, as chains of steps (see the menu
//! service).

use vstd::prelude::*;

use super::dto::UpsertSettingRequest;
use super::entity::SystemSetting;
use super::errors::SettingDomainError;
use crate::errors::{AppError, AppErrorView};
use crate::modules::common::{AuditEntry, AuditView, Outcome, ReadNext, fail, fails_with, read_through, string_views};
use crate::text::{trim_str, trimmed};

verus! {

/// Cache key of one setting: `setting:key:{key}`.
pub open spec fn setting_key(key: Seq<char>) -> Seq<char> {
    "setting:key:"@ + key
}

/// Cache key of the whole list of settings.
pub open spec fn list_key() -> Seq<char> {
    "setting:list"@
}

/// The cache key of setting `key`.
pub fn cache_key(key: &str) -> (r: String)
    ensures
        r@ == setting_key(key@),
{
    String::from_str("setting:key:").concat(key)
}

/// The cache key of the list of settings.
pub fn list_cache_key() -> (r: String)
    ensures
        r@ == list_key(),
{
    String::from_str("setting:list")
}

/// The audit entry for `action` on setting `key` by `actor_id`.
pub open spec fn setting_audit(actor_id: i32, action: Seq<char>, key: Seq<char>) -> AuditView {
    AuditView {
        actor_id,
        action,
        entity_type: "system_setting"@,
        entity_id: key,
        description: "setting key "@ + key,
    }
}

fn audit_for_key(actor_id: i32, action: &str, key: &str) -> (a: AuditEntry)
    ensures
        a@ == setting_audit(actor_id, action@, key@),
{
    AuditEntry {
        actor_id,
        action: String::from_str(action),
        entity_type: String::from_str("system_setting"),
        entity_id: String::from_str(key),
        description: String::from_str("setting key ").concat(key),
    }
}

/// A mutation of `key` evicts the setting's own entry and the list.
fn evictions(key: &str) -> (v: Vec<String>)
    ensures
        string_views(v@) == seq![setting_key(key@), list_key()],
{
    let mut v = Vec::new();
    v.push(cache_key(key));
    v.push(list_cache_key());
    proof {
        assert(string_views(v@) =~= seq![setting_key(key@), list_key()]);
    }
    v
}

// ---------------------------------------------------------------------
// Reads
// ---------------------------------------------------------------------

/// `list`, waiting for the cache's answer.
pub struct ListAwaitCache {
    pub key: String,
}

/// `list`, waiting for every setting from the store.
pub struct ListAwaitStore {
    pub key: String,
}

pub enum ListNext {
    /// Look up this key in the cache, then call `on_cached`.
    AskCache(ListAwaitCache, String),
    /// Load every setting, ordered by key, then call `on_loaded`.
    Load(ListAwaitStore),
    /// Cache the list under the key, then answer it.
    Remember(String, Vec<SystemSetting>),
    /// Answer this list.
    Reply(Vec<SystemSetting>),
}

/// Starts `list`: a cache-aside read of the whole list.
pub fn start_list() -> (n: ListNext)
    ensures
        n matches ListNext::AskCache(st, k) && k@ == list_key() && st.key@ == list_key(),
{
    ListNext::AskCache(ListAwaitCache { key: list_cache_key() }, list_cache_key())
}

impl ListAwaitCache {
    /// A cached list is answered; on a miss the store is asked.
    pub fn on_cached(self, cached: Option<Vec<SystemSetting>>) -> (n: ListNext)
        ensures
            match cached {
                Some(v) => n == ListNext::Reply(v),
                None => n matches ListNext::Load(st) && st.key@ == self.key@,
            },
    {
        match cached {
            Some(v) => ListNext::Reply(v),
            None => ListNext::Load(ListAwaitStore { key: self.key }),
        }
    }
}

impl ListAwaitStore {
    /// The loaded list is cached and answered.
    pub fn on_loaded(self, settings: Vec<SystemSetting>) -> (n: ListNext)
        ensures
            n matches ListNext::Remember(k, v) && k@ == self.key@ && v == settings,
    {
        ListNext::Remember(self.key, settings)
    }
}

/// `get_by_key`: a cache-aside read of setting `key`, answering "setting
/// not found" when the store lacks it.
pub fn start_get(key: &str) -> (n: ReadNext<SystemSetting>)
    ensures
        n matches ReadNext::AskCache(st, k) && k@ == setting_key(key@) && st.key@ == setting_key(
            key@,
        ) && st.missing@ == SettingDomainError::NotFound.app_view(),
{
    read_through(cache_key(key), SettingDomainError::NotFound.into_app_error())
}

// ---------------------------------------------------------------------
// upsert
// ---------------------------------------------------------------------

/// `upsert`, waiting for the setting as it is now (a failed lookup counts
/// as absent).
pub struct UpsertAwaitOld {
    pub key: String,
    pub req: UpsertSettingRequest,
    pub updated_by: i32,
}

/// `upsert`, waiting for the store to write the setting.
pub struct UpsertAwaitWrite {
    pub key: String,
    pub updated_by: i32,
    pub old: Option<SystemSetting>,
}

pub enum UpsertNext {
    /// Look up the setting with this key, then call `on_old`.
    FindOld(UpsertAwaitOld, String),
    /// Create or replace setting `.1` with the request's value and
    /// description, recording `.3` as its last editor; then call
    /// `on_written`.
    Write(UpsertAwaitWrite, String, UpsertSettingRequest, i32),
    Finish(Outcome<SystemSetting, SystemSetting>),
}

/// Starts `upsert` of `key`: a key that is empty after trimming fails with
/// "setting key is required".
pub fn start_upsert(key: &str, req: UpsertSettingRequest, updated_by: i32) -> (n: UpsertNext)
    ensures
        trimmed(key@).len() == 0 ==> (n matches UpsertNext::Finish(o) && fails_with(
            o,
            SettingDomainError::InvalidKey.app_view(),
        )),
        trimmed(key@).len() > 0 ==> (n matches UpsertNext::FindOld(st, k) && k@ == key@ && st.key@
            == key@ && st.req == req && st.updated_by == updated_by),
{
    if trim_str(key).is_empty() {
        return UpsertNext::Finish(fail(SettingDomainError::InvalidKey.into_app_error()));
    }
    UpsertNext::FindOld(
        UpsertAwaitOld { key: String::from_str(key), req, updated_by },
        String::from_str(key),
    )
}

impl UpsertAwaitOld {
    /// With the old value known, the setting is written.
    pub fn on_old(self, old: Option<SystemSetting>) -> (n: UpsertNext)
        ensures
            n matches UpsertNext::Write(st, k, r, by) && k@ == self.key@ && r == self.req && by
                == self.updated_by && st.key@ == self.key@ && st.updated_by == self.updated_by
                && st.old == old,
    {
        let k = self.key.clone();
        UpsertNext::Write(
            UpsertAwaitWrite { key: self.key, updated_by: self.updated_by, old },
            k,
            self.req,
            self.updated_by,
        )
    }
}

impl UpsertAwaitWrite {
    /// The write is recorded as `setting.upsert` with the old value; the
    /// setting's and the list's cache entries are evicted; the setting is
    /// answered.
    pub fn on_written(self, setting: SystemSetting) -> (o: Outcome<SystemSetting, SystemSetting>)
        ensures
            o.audit matches Some(a) && a@ == setting_audit(
                self.updated_by,
                "setting.upsert"@,
                self.key@,
            ),
            o.old_values == self.old,
            string_views(o.evict@) == seq![setting_key(self.key@), list_key()],
            o.refresh_authz@.len() == 0,
            o.reply == Ok::<SystemSetting, AppError>(setting),
    {
        let a = audit_for_key(self.updated_by, "setting.upsert", self.key.as_str());
        Outcome {
            audit: Some(a),
            old_values: self.old,
            evict: evictions(self.key.as_str()),
            refresh_authz: Vec::new(),
            reply: Ok(setting),
        }
    }
}

// ---------------------------------------------------------------------
// delete
// ---------------------------------------------------------------------

/// `delete`, waiting for the setting as it is now (a failed lookup counts
/// as absent).
pub struct DeleteAwaitOld {
    pub key: String,
    pub actor_id: i32,
}

/// `delete`, waiting for the store to delete the setting.
pub struct DeleteAwaitRemoval {
    pub key: String,
    pub actor_id: i32,
    pub old: Option<SystemSetting>,
}

pub enum DeleteNext {
    /// Look up the setting with this key, then call `on_old`.
    FindOld(DeleteAwaitOld, String),
    /// Delete the setting with this key, then call `on_removed`.
    Remove(DeleteAwaitRemoval, String),
}

/// Starts `delete` of `key`; deleting an absent key succeeds.
pub fn start_delete(key: &str, actor_id: i32) -> (n: DeleteNext)
    ensures
        n matches DeleteNext::FindOld(st, k) && k@ == key@ && st.key@ == key@ && st.actor_id
            == actor_id,
{
    DeleteNext::FindOld(DeleteAwaitOld { key: String::from_str(key), actor_id }, String::from_str(key))
}

impl DeleteAwaitOld {
    /// With the old value known, the setting is deleted.
    pub fn on_old(self, old: Option<SystemSetting>) -> (n: DeleteNext)
        ensures
            n matches DeleteNext::Remove(st, k) && k@ == self.key@ && st.key@ == self.key@
                && st.actor_id == self.actor_id && st.old == old,
    {
        let k = self.key.clone();
        DeleteNext::Remove(DeleteAwaitRemoval { key: self.key, actor_id: self.actor_id, old }, k)
    }
}

impl DeleteAwaitRemoval {
    /// Once deleted: recorded as `setting.delete` with the old value; the
    /// setting's and the list's cache entries evicted; success answered.
    pub fn on_removed(self) -> (o: Outcome<SystemSetting, ()>)
        ensures
            o.audit matches Some(a) && a@ == setting_audit(self.actor_id, "setting.delete"@, self.key@),
            o.old_values == self.old,
            string_views(o.evict@) == seq![setting_key(self.key@), list_key()],
            o.refresh_authz@.len() == 0,
            o.reply == Ok::<(), AppError>(()),
    {
        let a = audit_for_key(self.actor_id, "setting.delete", self.key.as_str());
        Outcome {
            audit: Some(a),
            old_values: self.old,
            evict: evictions(self.key.as_str()),
            refresh_authz: Vec::new(),
            reply: Ok(()),
        }
    }
}

} // verus!
