//! The decisions of the role service, as chains of steps (see the menu
//! service).

use vstd::prelude::*;

use super::dto::{CreateRoleRequest, UpdateRoleRequest};
use super::entity::Role;
use super::errors::RoleDomainError;
use super::sync::{absent, missing_ids, sorted_unique, sorted_unique_of, unknown_ids_message, unknown_ids_text};
use super::value_object::{Name, valid_identifier};
use crate::errors::{AppError, AppErrorView};
use crate::modules::common::{
    AuditView, Outcome, ReadNext, audit_entry, audit_for_id, fail, fails_with, key_for, keyed,
    one_key, read_through, string_views,
};

verus! {

/// Cache key of a role: `role:id:{id}`.
pub open spec fn role_key(id: int) -> Seq<char> {
    keyed("role:id:"@, id)
}

/// The cache key of role `id`.
pub fn cache_key(id: i32) -> (r: String)
    ensures
        r@ == role_key(id as int),
{
    key_for("role:id:", id as i64)
}

pub open spec fn role_audit(actor_id: i32, action: Seq<char>, id: int) -> AuditView {
    audit_for_id(actor_id, action, "role"@, "role"@, id)
}

pub open spec fn role_missing() -> AppErrorView {
    AppErrorView::NotFound("role not found"@)
}

pub open spec fn role_name_taken() -> AppErrorView {
    AppErrorView::Conflict("name is already registered"@)
}

fn role_not_found() -> (e: AppError)
    ensures
        e@ == role_missing(),
{
    AppError::NotFound(String::from_str("role not found"))
}

fn name_conflict() -> (e: AppError)
    ensures
        e@ == role_name_taken(),
{
    AppError::Conflict(String::from_str("name is already registered"))
}

/// `get_by_id`: a cache-aside read of role `id`, answering "role not found"
/// when the store lacks it.
pub fn start_get(id: i32) -> (n: ReadNext<Role>)
    ensures
        n matches ReadNext::AskCache(st, k) && k@ == role_key(id as int) && st.key@ == role_key(
            id as int,
        ) && st.missing@ == role_missing(),
{
    read_through(cache_key(id), role_not_found())
}

// ---------------------------------------------------------------------
// create
// ---------------------------------------------------------------------

/// `create`, waiting to learn whether the name is taken.
pub struct CreateAwaitName {
    pub req: CreateRoleRequest,
    pub actor_id: i32,
}

/// `create`, waiting for the store to insert the role.
pub struct CreateAwaitInsert {
    pub actor_id: i32,
}

pub enum CreateNext {
    /// Look up the role with this name, then call `on_name`.
    FindByName(CreateAwaitName, String),
    /// Insert the role (name and description as requested), then call
    /// `on_created`.
    Insert(CreateAwaitInsert, CreateRoleRequest),
    Finish(Outcome<Role, Role>),
}

/// Starts `create`: the name must be a valid identifier ("invalid name").
pub fn start_create(req: CreateRoleRequest, actor_id: i32) -> (n: CreateNext)
    ensures
        !valid_identifier(req.name@) ==> (n matches CreateNext::Finish(o) && fails_with(
            o,
            RoleDomainError::InvalidName.app_view(),
        )),
        valid_identifier(req.name@) ==> (n matches CreateNext::FindByName(st, nm) && nm@
            == req.name@ && st.req == req && st.actor_id == actor_id),
{
    match Name::parse(req.name.as_str()) {
        Err(e) => CreateNext::Finish(fail(e.into_app_error())),
        Ok(_) => {
            let name = req.name.clone();
            CreateNext::FindByName(CreateAwaitName { req, actor_id }, name)
        },
    }
}

impl CreateAwaitName {
    /// A taken name fails with "name is already registered"; otherwise the
    /// role is inserted.
    pub fn on_name(self, taken: bool) -> (n: CreateNext)
        ensures
            taken ==> (n matches CreateNext::Finish(o) && fails_with(o, role_name_taken())),
            !taken ==> (n matches CreateNext::Insert(st, r) && r == self.req && st.actor_id
                == self.actor_id),
    {
        if taken {
            CreateNext::Finish(fail(name_conflict()))
        } else {
            CreateNext::Insert(CreateAwaitInsert { actor_id: self.actor_id }, self.req)
        }
    }
}

impl CreateAwaitInsert {
    /// The new role is recorded as `role.create` and answered.
    pub fn on_created(self, role: Role) -> (o: Outcome<Role, Role>)
        ensures
            o.audit matches Some(a) && a@ == role_audit(self.actor_id, "role.create"@, role.id as int),
            o.old_values is None,
            o.evict@.len() == 0,
            o.refresh_authz@.len() == 0,
            o.reply == Ok::<Role, AppError>(role),
    {
        let a = audit_entry(self.actor_id, "role.create", "role", "role", role.id as i64);
        Outcome {
            audit: Some(a),
            old_values: None,
            evict: Vec::new(),
            refresh_authz: Vec::new(),
            reply: Ok(role),
        }
    }
}

// ---------------------------------------------------------------------
// update
// ---------------------------------------------------------------------

/// `update` that renames, waiting for the id of the role holding the new
/// name.
pub struct UpdateAwaitName {
    pub id: i32,
    pub req: UpdateRoleRequest,
    pub actor_id: i32,
}

/// `update`, waiting for the role as it is now.
pub struct UpdateAwaitExisting {
    pub id: i32,
    pub req: UpdateRoleRequest,
    pub actor_id: i32,
}

/// `update`, waiting for the store to write the change.
pub struct UpdateAwaitWrite {
    pub id: i32,
    pub actor_id: i32,
    pub existing: Role,
}

pub enum UpdateNext {
    /// Look up the role with this name, then call `on_name` with its id.
    FindByName(UpdateAwaitName, String),
    /// Look up the role with this id, then call `on_existing`.
    FindExisting(UpdateAwaitExisting, i32),
    /// Set the name and description given in the request on role `.1`, then
    /// call `on_written`.
    Write(UpdateAwaitWrite, i32, UpdateRoleRequest),
    Finish(Outcome<Role, Role>),
}

/// Starts `update` of role `id`: a new name must be a valid identifier
/// ("invalid name") not held by another role.
pub fn start_update(id: i32, req: UpdateRoleRequest, actor_id: i32) -> (n: UpdateNext)
    ensures
        match req.name {
            Some(nm) => if valid_identifier(nm@) {
                n matches UpdateNext::FindByName(st, x) && x@ == nm@ && st.id == id && st.req
                    == req && st.actor_id == actor_id
            } else {
                n matches UpdateNext::Finish(o) && fails_with(
                    o,
                    RoleDomainError::InvalidName.app_view(),
                )
            },
            None => n matches UpdateNext::FindExisting(st, i) && i == id && st.id == id && st.req
                == req && st.actor_id == actor_id,
        },
{
    match &req.name {
        Some(nm) => match Name::parse(nm.as_str()) {
            Err(e) => UpdateNext::Finish(fail(e.into_app_error())),
            Ok(_) => {
                let x = nm.clone();
                UpdateNext::FindByName(UpdateAwaitName { id, req, actor_id }, x)
            },
        },
        None => UpdateNext::FindExisting(UpdateAwaitExisting { id, req, actor_id }, id),
    }
}

impl UpdateAwaitName {
    /// The name may only be held by this role ("name is already
    /// registered").
    pub fn on_name(self, holder: Option<i32>) -> (n: UpdateNext)
        ensures
            (holder matches Some(h) && h != self.id) ==> (n matches UpdateNext::Finish(o)
                && fails_with(o, role_name_taken())),
            !(holder matches Some(h) && h != self.id) ==> (n matches UpdateNext::FindExisting(
                st,
                i,
            ) && i == self.id && st.id == self.id && st.req == self.req && st.actor_id
                == self.actor_id),
    {
        match holder {
            Some(h) if h != self.id => UpdateNext::Finish(fail(name_conflict())),
            _ => {
                let id = self.id;
                UpdateNext::FindExisting(
                    UpdateAwaitExisting { id, req: self.req, actor_id: self.actor_id },
                    id,
                )
            },
        }
    }
}

impl UpdateAwaitExisting {
    /// A missing role fails with "role not found"; otherwise the change is
    /// written.
    pub fn on_existing(self, existing: Option<Role>) -> (n: UpdateNext)
        ensures
            match existing {
                Some(r) => n matches UpdateNext::Write(st, i, q) && i == self.id && q == self.req
                    && st.id == self.id && st.actor_id == self.actor_id && st.existing == r,
                None => n matches UpdateNext::Finish(o) && fails_with(o, role_missing()),
            },
    {
        match existing {
            Some(r) => {
                let id = self.id;
                UpdateNext::Write(
                    UpdateAwaitWrite { id, actor_id: self.actor_id, existing: r },
                    id,
                    self.req,
                )
            },
            None => UpdateNext::Finish(fail(role_not_found())),
        }
    }
}

impl UpdateAwaitWrite {
    /// The change is recorded as `role.update`, the role's cache entry
    /// evicted, and the updated role answered.
    pub fn on_written(self, role: Role) -> (o: Outcome<Role, Role>)
        ensures
            o.audit matches Some(a) && a@ == role_audit(self.actor_id, "role.update"@, self.id as int),
            o.old_values == Some(self.existing),
            string_views(o.evict@) == seq![role_key(self.id as int)],
            o.refresh_authz@.len() == 0,
            o.reply == Ok::<Role, AppError>(role),
    {
        let a = audit_entry(self.actor_id, "role.update", "role", "role", self.id as i64);
        let o = Outcome {
            audit: Some(a),
            old_values: Some(self.existing),
            evict: one_key(cache_key(self.id)),
            refresh_authz: Vec::new(),
            reply: Ok(role),
        };
        proof {
            assert(string_views(o.evict@) =~= seq![role_key(self.id as int)]);
        }
        o
    }
}

// ---------------------------------------------------------------------
// delete
// ---------------------------------------------------------------------

/// `delete`, waiting for the role as it is now.
pub struct DeleteAwaitExisting {
    pub id: i32,
    pub actor_id: i32,
}

/// `delete`, waiting for the ids of the users holding the role.
pub struct DeleteAwaitUsers {
    pub id: i32,
    pub actor_id: i32,
    pub existing: Role,
}

/// `delete`, waiting for the store to delete the role.
pub struct DeleteAwaitRemoval {
    pub id: i32,
    pub actor_id: i32,
    pub existing: Role,
    pub users: Vec<i32>,
}

pub enum DeleteNext {
    /// Look up the role with this id, then call `on_existing`.
    FindExisting(DeleteAwaitExisting, i32),
    /// Find the users holding role `.1`, then call `on_users`.
    FindUsers(DeleteAwaitUsers, i32),
    /// Delete role `.1`, then call `on_removed`.
    Remove(DeleteAwaitRemoval, i32),
    Finish(Outcome<Role, ()>),
}

/// Starts `delete` of role `id`.
pub fn start_delete(id: i32, actor_id: i32) -> (n: DeleteNext)
    ensures
        n matches DeleteNext::FindExisting(st, i) && i == id && st.id == id && st.actor_id
            == actor_id,
{
    DeleteNext::FindExisting(DeleteAwaitExisting { id, actor_id }, id)
}

impl DeleteAwaitExisting {
    /// A missing role fails with "role not found"; otherwise its users are
    /// found before it goes.
    pub fn on_existing(self, existing: Option<Role>) -> (n: DeleteNext)
        ensures
            match existing {
                Some(r) => n matches DeleteNext::FindUsers(st, i) && i == self.id && st.id
                    == self.id && st.actor_id == self.actor_id && st.existing == r,
                None => n matches DeleteNext::Finish(o) && fails_with(o, role_missing()),
            },
    {
        match existing {
            Some(r) => {
                let id = self.id;
                DeleteNext::FindUsers(
                    DeleteAwaitUsers { id, actor_id: self.actor_id, existing: r },
                    id,
                )
            },
            None => DeleteNext::Finish(fail(role_not_found())),
        }
    }
}

impl DeleteAwaitUsers {
    /// With its users known, the role is deleted.
    pub fn on_users(self, users: Vec<i32>) -> (n: DeleteNext)
        ensures
            n matches DeleteNext::Remove(st, i) && i == self.id && st.id == self.id && st.actor_id
                == self.actor_id && st.existing == self.existing && st.users == users,
    {
        let id = self.id;
        DeleteNext::Remove(
            DeleteAwaitRemoval { id, actor_id: self.actor_id, existing: self.existing, users },
            id,
        )
    }
}

impl DeleteAwaitRemoval {
    /// Once deleted: recorded as `role.delete`, its cache entry evicted, the
    /// authorization snapshot of each former holder refreshed, success
    /// answered.
    pub fn on_removed(self) -> (o: Outcome<Role, ()>)
        ensures
            o.audit matches Some(a) && a@ == role_audit(self.actor_id, "role.delete"@, self.id as int),
            o.old_values == Some(self.existing),
            string_views(o.evict@) == seq![role_key(self.id as int)],
            o.refresh_authz == self.users,
            o.reply == Ok::<(), AppError>(()),
    {
        let a = audit_entry(self.actor_id, "role.delete", "role", "role", self.id as i64);
        let o = Outcome {
            audit: Some(a),
            old_values: Some(self.existing),
            evict: one_key(cache_key(self.id)),
            refresh_authz: self.users,
            reply: Ok(()),
        };
        proof {
            assert(string_views(o.evict@) =~= seq![role_key(self.id as int)]);
        }
        o
    }
}

// ---------------------------------------------------------------------
// sync_permissions
// ---------------------------------------------------------------------

/// `sync_permissions`, waiting for the ids of the permissions that exist
/// among the requested ones.
pub struct SyncAwaitFound {
    pub role_id: i32,
    pub wanted: Vec<i32>,
}

/// `sync_permissions`, waiting for the store to reconcile the role.
pub struct SyncAwaitWrite {
    pub role_id: i32,
}

/// `sync_permissions`, waiting for the role's cache entry to be evicted.
pub struct SyncAwaitEvict {
    pub role_id: i32,
}

/// `sync_permissions`, waiting for the ids of the users holding the role.
pub struct SyncAwaitUsers {
    pub role_id: i32,
}

pub enum SyncNext {
    /// Find the permissions with these ids, then call `on_found` with the
    /// ids found.
    FindPermissions(SyncAwaitFound, Vec<i32>),
    /// Give role `.1` exactly the permissions `.2`, then call `on_synced`.
    Sync(SyncAwaitWrite, i32, Vec<i32>),
    /// Delete this cache key, then call `on_evicted`.
    Evict(SyncAwaitEvict, String),
    /// Find the users holding role `.1`, then call `on_users`.
    FindUsers(SyncAwaitUsers, i32),
    Finish(Outcome<Role, ()>),
}

fn copy_ids(v: &Vec<i32>) -> (r: Vec<i32>)
    ensures
        r@ == v@,
{
    let mut out: Vec<i32> = Vec::new();
    let mut i: usize = 0;
    while i < v.len()
        invariant
            i <= v@.len(),
            out@ == v@.take(i as int),
        decreases v@.len() - i,
    {
        out.push(v[i]);
        i = i + 1;
        proof {
            assert(out@ =~= v@.take(i as int));
        }
    }
    proof {
        assert(v@.take(i as int) =~= v@);
    }
    out
}

/// Starts `sync_permissions` of role `role_id` to `permission_ids`: the ids
/// are taken once each, in increasing order.
pub fn start_sync(role_id: i32, permission_ids: &[i32]) -> (n: SyncNext)
    ensures
        n matches SyncNext::FindPermissions(st, ids) && st.role_id == role_id && st.wanted@ == ids@
            && sorted_unique_of(permission_ids@, ids@),
{
    let wanted = sorted_unique(permission_ids);
    let ids = copy_ids(&wanted);
    SyncNext::FindPermissions(SyncAwaitFound { role_id, wanted }, ids)
}

impl SyncAwaitFound {
    /// When some requested id has no permission, fails with
    /// "permission(s) not found: " and those ids; otherwise the role is
    /// reconciled to the requested ids.
    pub fn on_found(self, found: Vec<i32>) -> (n: SyncNext)
        ensures
            found@.len() != self.wanted@.len() ==> (n matches SyncNext::Finish(o) && fails_with(
                o,
                AppErrorView::NotFound(unknown_ids_message(absent(self.wanted@, found@))),
            )),
            found@.len() == self.wanted@.len() ==> (n matches SyncNext::Sync(st, r, ids) && r
                == self.role_id && ids == self.wanted && st.role_id == self.role_id),
    {
        if found.len() != self.wanted.len() {
            let missing = missing_ids(&self.wanted, &found);
            let msg = unknown_ids_text(&missing);
            SyncNext::Finish(fail(AppError::NotFound(msg)))
        } else {
            let r = self.role_id;
            SyncNext::Sync(SyncAwaitWrite { role_id: r }, r, self.wanted)
        }
    }
}

impl SyncAwaitWrite {
    /// Once reconciled, the role's cache entry is evicted.
    pub fn on_synced(self) -> (n: SyncNext)
        ensures
            n matches SyncNext::Evict(st, k) && k@ == role_key(self.role_id as int) && st.role_id
                == self.role_id,
    {
        SyncNext::Evict(SyncAwaitEvict { role_id: self.role_id }, cache_key(self.role_id))
    }
}

impl SyncAwaitEvict {
    /// Then the role's users are found.
    pub fn on_evicted(self) -> (n: SyncNext)
        ensures
            n matches SyncNext::FindUsers(st, r) && r == self.role_id && st.role_id == self.role_id,
    {
        let r = self.role_id;
        SyncNext::FindUsers(SyncAwaitUsers { role_id: r }, r)
    }
}

impl SyncAwaitUsers {
    /// Each holder's authorization snapshot is refreshed, and success is
    /// answered.
    pub fn on_users(self, users: Vec<i32>) -> (o: Outcome<Role, ()>)
        ensures
            o.audit is None,
            o.old_values is None,
            o.evict@.len() == 0,
            o.refresh_authz == users,
            o.reply == Ok::<(), AppError>(()),
    {
        Outcome {
            audit: None,
            old_values: None,
            evict: Vec::new(),
            refresh_authz: users,
            reply: Ok(()),
        }
    }
}

} // verus!
