//! The decisions of the permission service, as chains of steps (see the
//! menu service).

use vstd::prelude::*;

use super::dto::{CreatePermissionRequest, UpdatePermissionRequest};
use super::entity::Permission;
use super::errors::PermissionDomainError;
use super::value_object::Name;
use crate::errors::{AppError, AppErrorView};
use crate::modules::common::{
    AuditView, Deletion, DeleteNext, Outcome, ReadNext, audit_entry, audit_for_id, fail,
    fails_with, key_for, keyed, one_key, read_through, start_deletion, string_views,
};
use crate::modules::role::value_object::valid_identifier;

verus! {

/// Cache key of a permission: `permission:id:{id}`.
pub open spec fn permission_key(id: int) -> Seq<char> {
    keyed("permission:id:"@, id)
}

/// The cache key of permission `id`.
pub fn cache_key(id: i32) -> (r: String)
    ensures
        r@ == permission_key(id as int),
{
    key_for("permission:id:", id as i64)
}

pub open spec fn permission_audit(actor_id: i32, action: Seq<char>, id: int) -> AuditView {
    audit_for_id(actor_id, action, "permission"@, "permission"@, id)
}

pub open spec fn permission_missing() -> AppErrorView {
    AppErrorView::NotFound("permission not found"@)
}

pub open spec fn permission_name_taken() -> AppErrorView {
    AppErrorView::Conflict("name is already registered"@)
}

fn permission_not_found() -> (e: AppError)
    ensures
        e@ == permission_missing(),
{
    AppError::NotFound(String::from_str("permission not found"))
}

fn name_conflict() -> (e: AppError)
    ensures
        e@ == permission_name_taken(),
{
    AppError::Conflict(String::from_str("name is already registered"))
}

/// `get_by_id`: a cache-aside read of permission `id`, answering
/// "permission not found" when the store lacks it.
pub fn start_get(id: i32) -> (n: ReadNext<Permission>)
    ensures
        n matches ReadNext::AskCache(st, k) && k@ == permission_key(id as int) && st.key@
            == permission_key(id as int) && st.missing@ == permission_missing(),
{
    read_through(cache_key(id), permission_not_found())
}

// ---------------------------------------------------------------------
// create
// ---------------------------------------------------------------------

/// `create`, waiting to learn whether the name is taken.
pub struct CreateAwaitName {
    pub req: CreatePermissionRequest,
    pub actor_id: i32,
}

/// `create`, waiting for the store to insert the permission.
pub struct CreateAwaitInsert {
    pub actor_id: i32,
}

pub enum CreateNext {
    /// Look up the permission with this name, then call `on_name`.
    FindByName(CreateAwaitName, String),
    /// Insert the permission (name and description as requested), then call
    /// `on_created`.
    Insert(CreateAwaitInsert, CreatePermissionRequest),
    Finish(Outcome<Permission, Permission>),
}

/// Starts `create`: the name must be a valid identifier ("invalid name").
pub fn start_create(req: CreatePermissionRequest, actor_id: i32) -> (n: CreateNext)
    ensures
        !valid_identifier(req.name@) ==> (n matches CreateNext::Finish(o) && fails_with(
            o,
            PermissionDomainError::InvalidName.app_view(),
        )),
        valid_identifier(req.name@) ==> (n matches CreateNext::FindByName(st, nm) && nm@
            == req.name@ && st.req == req && st.actor_id == actor_id),
{
    match Name::parse(req.name.as_str()) {
        Err(e) => CreateNext::Finish(fail(e.into_app_error())),
        Ok(_) => {
            let name = req.name.clone();
            CreateNext::FindByName(CreateAwaitName { req, actor_id }, name)
        },
    }
}

impl CreateAwaitName {
    /// A taken name fails with "name is already registered"; otherwise the
    /// permission is inserted.
    pub fn on_name(self, taken: bool) -> (n: CreateNext)
        ensures
            taken ==> (n matches CreateNext::Finish(o) && fails_with(o, permission_name_taken())),
            !taken ==> (n matches CreateNext::Insert(st, r) && r == self.req && st.actor_id
                == self.actor_id),
    {
        if taken {
            CreateNext::Finish(fail(name_conflict()))
        } else {
            CreateNext::Insert(CreateAwaitInsert { actor_id: self.actor_id }, self.req)
        }
    }
}

impl CreateAwaitInsert {
    /// The new permission is recorded as `permission.create` and answered.
    pub fn on_created(self, p: Permission) -> (o: Outcome<Permission, Permission>)
        ensures
            o.audit matches Some(a) && a@ == permission_audit(
                self.actor_id,
                "permission.create"@,
                p.id as int,
            ),
            o.old_values is None,
            o.evict@.len() == 0,
            o.refresh_authz@.len() == 0,
            o.reply == Ok::<Permission, AppError>(p),
    {
        let a = audit_entry(self.actor_id, "permission.create", "permission", "permission", p.id as i64);
        Outcome {
            audit: Some(a),
            old_values: None,
            evict: Vec::new(),
            refresh_authz: Vec::new(),
            reply: Ok(p),
        }
    }
}

// ---------------------------------------------------------------------
// update
// ---------------------------------------------------------------------

/// `update` that renames, waiting for the id of the permission holding the
/// new name.
pub struct UpdateAwaitName {
    pub id: i32,
    pub req: UpdatePermissionRequest,
    pub actor_id: i32,
}

/// `update`, waiting for the permission as it is now.
pub struct UpdateAwaitExisting {
    pub id: i32,
    pub req: UpdatePermissionRequest,
    pub actor_id: i32,
}

/// `update`, waiting for the store to write the change.
pub struct UpdateAwaitWrite {
    pub id: i32,
    pub actor_id: i32,
    pub existing: Permission,
}

pub enum UpdateNext {
    /// Look up the permission with this name, then call `on_name` with its
    /// id.
    FindByName(UpdateAwaitName, String),
    /// Look up the permission with this id, then call `on_existing`.
    FindExisting(UpdateAwaitExisting, i32),
    /// Set the name and description given in the request on permission
    /// `.1`, then call `on_written`.
    Write(UpdateAwaitWrite, i32, UpdatePermissionRequest),
    Finish(Outcome<Permission, Permission>),
}

/// Starts `update` of permission `id`: a new name must be a valid
/// identifier ("invalid name") not held by another permission.
pub fn start_update(id: i32, req: UpdatePermissionRequest, actor_id: i32) -> (n: UpdateNext)
    ensures
        match req.name {
            Some(nm) => if valid_identifier(nm@) {
                n matches UpdateNext::FindByName(st, x) && x@ == nm@ && st.id == id && st.req
                    == req && st.actor_id == actor_id
            } else {
                n matches UpdateNext::Finish(o) && fails_with(
                    o,
                    PermissionDomainError::InvalidName.app_view(),
                )
            },
            None => n matches UpdateNext::FindExisting(st, i) && i == id && st.id == id && st.req
                == req && st.actor_id == actor_id,
        },
{
    match &req.name {
        Some(nm) => match Name::parse(nm.as_str()) {
            Err(e) => UpdateNext::Finish(fail(e.into_app_error())),
            Ok(_) => {
                let x = nm.clone();
                UpdateNext::FindByName(UpdateAwaitName { id, req, actor_id }, x)
            },
        },
        None => UpdateNext::FindExisting(UpdateAwaitExisting { id, req, actor_id }, id),
    }
}

impl UpdateAwaitName {
    /// The name may only be held by this permission ("name is already
    /// registered").
    pub fn on_name(self, holder: Option<i32>) -> (n: UpdateNext)
        ensures
            (holder matches Some(h) && h != self.id) ==> (n matches UpdateNext::Finish(o)
                && fails_with(o, permission_name_taken())),
            !(holder matches Some(h) && h != self.id) ==> (n matches UpdateNext::FindExisting(
                st,
                i,
            ) && i == self.id && st.id == self.id && st.req == self.req && st.actor_id
                == self.actor_id),
    {
        match holder {
            Some(h) if h != self.id => UpdateNext::Finish(fail(name_conflict())),
            _ => {
                let id = self.id;
                UpdateNext::FindExisting(
                    UpdateAwaitExisting { id, req: self.req, actor_id: self.actor_id },
                    id,
                )
            },
        }
    }
}

impl UpdateAwaitExisting {
    /// A missing permission fails with "permission not found"; otherwise the
    /// change is written.
    pub fn on_existing(self, existing: Option<Permission>) -> (n: UpdateNext)
        ensures
            match existing {
                Some(p) => n matches UpdateNext::Write(st, i, q) && i == self.id && q == self.req
                    && st.id == self.id && st.actor_id == self.actor_id && st.existing == p,
                None => n matches UpdateNext::Finish(o) && fails_with(o, permission_missing()),
            },
    {
        match existing {
            Some(p) => {
                let id = self.id;
                UpdateNext::Write(
                    UpdateAwaitWrite { id, actor_id: self.actor_id, existing: p },
                    id,
                    self.req,
                )
            },
            None => UpdateNext::Finish(fail(permission_not_found())),
        }
    }
}

impl UpdateAwaitWrite {
    /// The change is recorded as `permission.update`, the permission's cache
    /// entry evicted, and the updated permission answered.
    pub fn on_written(self, p: Permission) -> (o: Outcome<Permission, Permission>)
        ensures
            o.audit matches Some(a) && a@ == permission_audit(
                self.actor_id,
                "permission.update"@,
                self.id as int,
            ),
            o.old_values == Some(self.existing),
            string_views(o.evict@) == seq![permission_key(self.id as int)],
            o.refresh_authz@.len() == 0,
            o.reply == Ok::<Permission, AppError>(p),
    {
        let a = audit_entry(self.actor_id, "permission.update", "permission", "permission", self.id as i64);
        let o = Outcome {
            audit: Some(a),
            old_values: Some(self.existing),
            evict: one_key(cache_key(self.id)),
            refresh_authz: Vec::new(),
            reply: Ok(p),
        };
        proof {
            assert(string_views(o.evict@) =~= seq![permission_key(self.id as int)]);
        }
        o
    }
}

/// Starts `delete` of permission `id`: it must exist ("permission not
/// found"); it is then deleted, recorded as `permission.delete` and its
/// cache entry evicted.
pub fn start_delete(id: i32, actor_id: i32) -> (n: DeleteNext<Permission>)
    ensures
        n matches DeleteNext::FindExisting(st, i) && i == id && st.plan.id == id && st.plan.audit@
            == permission_audit(actor_id, "permission.delete"@, id as int) && st.plan.key@
            == permission_key(id as int) && st.plan.missing@ == permission_missing(),
{
    start_deletion(
        Deletion {
            id: id as i64,
            audit: audit_entry(actor_id, "permission.delete", "permission", "permission", id as i64),
            key: cache_key(id),
            missing: permission_not_found(),
        },
    )
}

} // verus!
