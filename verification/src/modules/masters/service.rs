//! The decisions of the master group and master item services, as chains of
//! steps (see the menu service).

use vstd::prelude::*;

use super::dto::{
    CreateMasterGroupRequest, CreateMasterItemRequest, UpdateMasterGroupRequest,
    UpdateMasterItemRequest,
};
use super::entity::{MasterGroup, MasterItem};
use super::errors::{MasterGroupDomainError, MasterItemDomainError};
use super::value_object::{ItemName, Name, valid_display_name};
use crate::errors::{AppError, AppErrorView};
use crate::modules::common::{
    AuditView, Deletion, DeleteNext, Outcome, ReadNext, audit_entry, audit_for_id, fail,
    fails_with, key_for, keyed, one_key, read_through, start_deletion, string_views,
};

verus! {

/// Cache key of a master group: `master_group:id:{id}`.
pub open spec fn group_key(id: int) -> Seq<char> {
    keyed("master_group:id:"@, id)
}

/// Cache key of a master item: `master_item:id:{id}`.
pub open spec fn item_key(id: int) -> Seq<char> {
    keyed("master_item:id:"@, id)
}

/// The cache key of master group `id`.
pub fn cache_key(id: i64) -> (r: String)
    ensures
        r@ == group_key(id as int),
{
    key_for("master_group:id:", id)
}

/// The cache key of master item `id`.
pub fn item_cache_key(id: i64) -> (r: String)
    ensures
        r@ == item_key(id as int),
{
    key_for("master_item:id:", id)
}

/// The cache key of the group that item mutations must evict, since a
/// cached group embeds its items.
pub fn group_cache_key(group_id: i64) -> (r: String)
    ensures
        r@ == group_key(group_id as int),
{
    key_for("master_group:id:", group_id)
}

pub open spec fn group_audit(actor_id: i32, action: Seq<char>, id: int) -> AuditView {
    audit_for_id(actor_id, action, "master_group"@, "master group"@, id)
}

pub open spec fn item_audit(actor_id: i32, action: Seq<char>, id: int) -> AuditView {
    audit_for_id(actor_id, action, "master_item"@, "master item"@, id)
}

pub open spec fn group_missing() -> AppErrorView {
    AppErrorView::NotFound("master group not found"@)
}

pub open spec fn item_missing() -> AppErrorView {
    AppErrorView::NotFound("master item not found"@)
}

pub open spec fn code_taken() -> AppErrorView {
    AppErrorView::Conflict("code is already registered"@)
}

pub open spec fn name_taken() -> AppErrorView {
    AppErrorView::Conflict("name is already registered"@)
}

pub open spec fn code_taken_in_group() -> AppErrorView {
    AppErrorView::Conflict("code is already registered in this group"@)
}

fn group_not_found() -> (e: AppError)
    ensures
        e@ == group_missing(),
{
    AppError::NotFound(String::from_str("master group not found"))
}

fn item_not_found() -> (e: AppError)
    ensures
        e@ == item_missing(),
{
    AppError::NotFound(String::from_str("master item not found"))
}

// =====================================================================
// Master groups
// =====================================================================

/// `get_by_id` of a master group: a cache-aside read answering "master
/// group not found" when the store lacks it.
pub fn start_get_group(id: i64) -> (n: ReadNext<MasterGroup>)
    ensures
        n matches ReadNext::AskCache(st, k) && k@ == group_key(id as int) && st.key@ == group_key(
            id as int,
        ) && st.missing@ == group_missing(),
{
    read_through(cache_key(id), group_not_found())
}

/// `create` of a group, waiting to learn whether the code is taken.
pub struct GroupCreateAwaitCode {
    pub req: CreateMasterGroupRequest,
    pub actor_id: i32,
}

/// `create` of a group, waiting to learn whether the name is taken.
pub struct GroupCreateAwaitName {
    pub req: CreateMasterGroupRequest,
    pub actor_id: i32,
}

/// `create` of a group, waiting for the store to insert it.
pub struct GroupCreateAwaitInsert {
    pub actor_id: i32,
}

pub enum GroupCreateNext {
    /// Look up the group with this code, then call `on_code`.
    FindByCode(GroupCreateAwaitCode, String),
    /// Look up the group with this name, then call `on_name`.
    FindByName(GroupCreateAwaitName, String),
    /// Insert the group (code, name and description as requested), then
    /// call `on_created`.
    Insert(GroupCreateAwaitInsert, CreateMasterGroupRequest),
    Finish(Outcome<MasterGroup, MasterGroup>),
}

/// Starts `create` of a group: the name must be valid ("invalid name").
pub fn start_group_create(req: CreateMasterGroupRequest, actor_id: i32) -> (n: GroupCreateNext)
    ensures
        !valid_display_name(req.name@) ==> (n matches GroupCreateNext::Finish(o) && fails_with(
            o,
            MasterGroupDomainError::InvalidName.app_view(),
        )),
        valid_display_name(req.name@) ==> (n matches GroupCreateNext::FindByCode(st, c) && c@
            == req.code@ && st.req == req && st.actor_id == actor_id),
{
    match Name::parse(req.name.as_str()) {
        Err(e) => GroupCreateNext::Finish(fail(e.into_app_error())),
        Ok(_) => {
            let code = req.code.clone();
            GroupCreateNext::FindByCode(GroupCreateAwaitCode { req, actor_id }, code)
        },
    }
}

impl GroupCreateAwaitCode {
    /// A taken code fails with "code is already registered".
    pub fn on_code(self, taken: bool) -> (n: GroupCreateNext)
        ensures
            taken ==> (n matches GroupCreateNext::Finish(o) && fails_with(o, code_taken())),
            !taken ==> (n matches GroupCreateNext::FindByName(st, nm) && nm@ == self.req.name@
                && st.req == self.req && st.actor_id == self.actor_id),
    {
        if taken {
            GroupCreateNext::Finish(
                fail(AppError::Conflict(String::from_str("code is already registered"))),
            )
        } else {
            let name = self.req.name.clone();
            GroupCreateNext::FindByName(
                GroupCreateAwaitName { req: self.req, actor_id: self.actor_id },
                name,
            )
        }
    }
}

impl GroupCreateAwaitName {
    /// A taken name fails with "name is already registered"; otherwise the
    /// group is inserted as requested.
    pub fn on_name(self, taken: bool) -> (n: GroupCreateNext)
        ensures
            taken ==> (n matches GroupCreateNext::Finish(o) && fails_with(o, name_taken())),
            !taken ==> (n matches GroupCreateNext::Insert(st, r) && r == self.req && st.actor_id
                == self.actor_id),
    {
        if taken {
            GroupCreateNext::Finish(
                fail(AppError::Conflict(String::from_str("name is already registered"))),
            )
        } else {
            GroupCreateNext::Insert(GroupCreateAwaitInsert { actor_id: self.actor_id }, self.req)
        }
    }
}

impl GroupCreateAwaitInsert {
    /// The new group is recorded as `master_group.create` and answered.
    pub fn on_created(self, group: MasterGroup) -> (o: Outcome<MasterGroup, MasterGroup>)
        ensures
            o.audit matches Some(a) && a@ == group_audit(
                self.actor_id,
                "master_group.create"@,
                group.id as int,
            ),
            o.old_values is None,
            o.evict@.len() == 0,
            o.refresh_authz@.len() == 0,
            o.reply == Ok::<MasterGroup, AppError>(group),
    {
        let a = audit_entry(
            self.actor_id,
            "master_group.create",
            "master_group",
            "master group",
            group.id,
        );
        Outcome {
            audit: Some(a),
            old_values: None,
            evict: Vec::new(),
            refresh_authz: Vec::new(),
            reply: Ok(group),
        }
    }
}

/// `update` of a group, waiting for the id of the group holding the code.
pub struct GroupUpdateAwaitCode {
    pub id: i64,
    pub req: UpdateMasterGroupRequest,
    pub actor_id: i32,
}

/// `update` of a group, waiting for the id of the group holding the name.
pub struct GroupUpdateAwaitName {
    pub id: i64,
    pub req: UpdateMasterGroupRequest,
    pub actor_id: i32,
}

/// `update` of a group, waiting for the group as it is now.
pub struct GroupUpdateAwaitExisting {
    pub id: i64,
    pub req: UpdateMasterGroupRequest,
    pub actor_id: i32,
}

/// `update` of a group, waiting for the store to write the change.
pub struct GroupUpdateAwaitWrite {
    pub id: i64,
    pub actor_id: i32,
    pub existing: MasterGroup,
}

pub enum GroupUpdateNext {
    /// Look up the group with this code, then call `on_code` with its id.
    FindByCode(GroupUpdateAwaitCode, String),
    /// Look up the group with this name, then call `on_name` with its id.
    FindByName(GroupUpdateAwaitName, String),
    /// Look up the group with this id, then call `on_existing`.
    FindExisting(GroupUpdateAwaitExisting, i64),
    /// Set code, name and active flag (and the description, when given) of
    /// group `.1`, then call `on_written`.
    Write(GroupUpdateAwaitWrite, i64, UpdateMasterGroupRequest),
    Finish(Outcome<MasterGroup, MasterGroup>),
}

/// Starts `update` of group `id`: the name must be valid ("invalid name").
pub fn start_group_update(id: i64, req: UpdateMasterGroupRequest, actor_id: i32) -> (n:
    GroupUpdateNext)
    ensures
        !valid_display_name(req.name@) ==> (n matches GroupUpdateNext::Finish(o) && fails_with(
            o,
            MasterGroupDomainError::InvalidName.app_view(),
        )),
        valid_display_name(req.name@) ==> (n matches GroupUpdateNext::FindByCode(st, c) && c@
            == req.code@ && st.id == id && st.req == req && st.actor_id == actor_id),
{
    match Name::parse(req.name.as_str()) {
        Err(e) => GroupUpdateNext::Finish(fail(e.into_app_error())),
        Ok(_) => {
            let code = req.code.clone();
            GroupUpdateNext::FindByCode(GroupUpdateAwaitCode { id, req, actor_id }, code)
        },
    }
}

impl GroupUpdateAwaitCode {
    /// The code may only be held by this group ("code is already
    /// registered").
    pub fn on_code(self, holder: Option<i64>) -> (n: GroupUpdateNext)
        ensures
            (holder matches Some(h) && h != self.id) ==> (n matches GroupUpdateNext::Finish(o)
                && fails_with(o, code_taken())),
            !(holder matches Some(h) && h != self.id) ==> (n matches GroupUpdateNext::FindByName(
                st,
                nm,
            ) && nm@ == self.req.name@ && st.id == self.id && st.req == self.req && st.actor_id
                == self.actor_id),
    {
        match holder {
            Some(h) if h != self.id => GroupUpdateNext::Finish(
                fail(AppError::Conflict(String::from_str("code is already registered"))),
            ),
            _ => {
                let name = self.req.name.clone();
                GroupUpdateNext::FindByName(
                    GroupUpdateAwaitName { id: self.id, req: self.req, actor_id: self.actor_id },
                    name,
                )
            },
        }
    }
}

impl GroupUpdateAwaitName {
    /// The name may only be held by this group ("name is already
    /// registered").
    pub fn on_name(self, holder: Option<i64>) -> (n: GroupUpdateNext)
        ensures
            (holder matches Some(h) && h != self.id) ==> (n matches GroupUpdateNext::Finish(o)
                && fails_with(o, name_taken())),
            !(holder matches Some(h) && h != self.id) ==> (n matches GroupUpdateNext::FindExisting(
                st,
                i,
            ) && i == self.id && st.id == self.id && st.req == self.req && st.actor_id
                == self.actor_id),
    {
        match holder {
            Some(h) if h != self.id => GroupUpdateNext::Finish(
                fail(AppError::Conflict(String::from_str("name is already registered"))),
            ),
            _ => {
                let id = self.id;
                GroupUpdateNext::FindExisting(
                    GroupUpdateAwaitExisting { id, req: self.req, actor_id: self.actor_id },
                    id,
                )
            },
        }
    }
}

impl GroupUpdateAwaitExisting {
    /// A missing group fails with "master group not found".
    pub fn on_existing(self, existing: Option<MasterGroup>) -> (n: GroupUpdateNext)
        ensures
            match existing {
                Some(g) => n matches GroupUpdateNext::Write(st, i, r) && i == self.id && r
                    == self.req && st.id == self.id && st.actor_id == self.actor_id && st.existing
                    == g,
                None => n matches GroupUpdateNext::Finish(o) && fails_with(o, group_missing()),
            },
    {
        match existing {
            Some(g) => {
                let id = self.id;
                GroupUpdateNext::Write(
                    GroupUpdateAwaitWrite { id, actor_id: self.actor_id, existing: g },
                    id,
                    self.req,
                )
            },
            None => GroupUpdateNext::Finish(fail(group_not_found())),
        }
    }
}

impl GroupUpdateAwaitWrite {
    /// The change is recorded as `master_group.update`, the group's cache
    /// entry evicted and the updated group answered.
    pub fn on_written(self, group: MasterGroup) -> (o: Outcome<MasterGroup, MasterGroup>)
        ensures
            o.audit matches Some(a) && a@ == group_audit(
                self.actor_id,
                "master_group.update"@,
                self.id as int,
            ),
            o.old_values == Some(self.existing),
            string_views(o.evict@) == seq![group_key(self.id as int)],
            o.refresh_authz@.len() == 0,
            o.reply == Ok::<MasterGroup, AppError>(group),
    {
        let a = audit_entry(
            self.actor_id,
            "master_group.update",
            "master_group",
            "master group",
            self.id,
        );
        let o = Outcome {
            audit: Some(a),
            old_values: Some(self.existing),
            evict: one_key(cache_key(self.id)),
            refresh_authz: Vec::new(),
            reply: Ok(group),
        };
        proof {
            assert(string_views(o.evict@) =~= seq![group_key(self.id as int)]);
        }
        o
    }
}

/// Starts `delete` of group `id`: the group must exist ("master group not
/// found"); it is then deleted, recorded as `master_group.delete` and its
/// cache entry evicted.
pub fn start_group_delete(id: i64, actor_id: i32) -> (n: DeleteNext<MasterGroup>)
    ensures
        n matches DeleteNext::FindExisting(st, i) && i == id && st.plan.id == id && st.plan.audit@
            == group_audit(actor_id, "master_group.delete"@, id as int) && st.plan.key@
            == group_key(id as int) && st.plan.missing@ == group_missing(),
{
    start_deletion(
        Deletion {
            id,
            audit: audit_entry(actor_id, "master_group.delete", "master_group", "master group", id),
            key: cache_key(id),
            missing: group_not_found(),
        },
    )
}

// =====================================================================
// Master items
// =====================================================================

/// `get_by_id` of a master item: a cache-aside read answering "master item
/// not found" when the store lacks it.
pub fn start_get_item(id: i64) -> (n: ReadNext<MasterItem>)
    ensures
        n matches ReadNext::AskCache(st, k) && k@ == item_key(id as int) && st.key@ == item_key(
            id as int,
        ) && st.missing@ == item_missing(),
{
    read_through(item_cache_key(id), item_not_found())
}

/// `create` of an item, waiting to learn whether its group exists.
pub struct ItemCreateAwaitGroup {
    pub req: CreateMasterItemRequest,
    pub actor_id: i32,
}

/// `create` of an item, waiting to learn whether its code is taken in the
/// group.
pub struct ItemCreateAwaitCode {
    pub req: CreateMasterItemRequest,
    pub actor_id: i32,
}

/// `create` of an item, waiting for the store to insert it.
pub struct ItemCreateAwaitInsert {
    pub actor_id: i32,
}

pub enum ItemCreateNext {
    /// Look up the (not deleted) group with this id, then call `on_group`.
    FindGroup(ItemCreateAwaitGroup, i64),
    /// Look up the item of group `.1` with code `.2`, then call `on_code`.
    FindByGroupAndCode(ItemCreateAwaitCode, i64, String),
    /// Insert the item as requested, then call `on_created`.
    Insert(ItemCreateAwaitInsert, CreateMasterItemRequest),
    Finish(Outcome<MasterItem, MasterItem>),
}

/// Starts `create` of an item: the name must be valid ("invalid name").
pub fn start_item_create(req: CreateMasterItemRequest, actor_id: i32) -> (n: ItemCreateNext)
    ensures
        !valid_display_name(req.name@) ==> (n matches ItemCreateNext::Finish(o) && fails_with(
            o,
            MasterItemDomainError::InvalidName.app_view(),
        )),
        valid_display_name(req.name@) ==> (n matches ItemCreateNext::FindGroup(st, g) && g
            == req.group_id && st.req == req && st.actor_id == actor_id),
{
    match ItemName::parse(req.name.as_str()) {
        Err(e) => ItemCreateNext::Finish(fail(e.into_app_error())),
        Ok(_) => {
            let g = req.group_id;
            ItemCreateNext::FindGroup(ItemCreateAwaitGroup { req, actor_id }, g)
        },
    }
}

impl ItemCreateAwaitGroup {
    /// A missing group fails with "master group not found".
    pub fn on_group(self, found: bool) -> (n: ItemCreateNext)
        ensures
            !found ==> (n matches ItemCreateNext::Finish(o) && fails_with(o, group_missing())),
            found ==> (n matches ItemCreateNext::FindByGroupAndCode(st, g, c) && g
                == self.req.group_id && c@ == self.req.code@ && st.req == self.req && st.actor_id
                == self.actor_id),
    {
        if !found {
            ItemCreateNext::Finish(fail(group_not_found()))
        } else {
            let g = self.req.group_id;
            let code = self.req.code.clone();
            ItemCreateNext::FindByGroupAndCode(
                ItemCreateAwaitCode { req: self.req, actor_id: self.actor_id },
                g,
                code,
            )
        }
    }
}

impl ItemCreateAwaitCode {
    /// A code already used in the group fails with "code is already
    /// registered in this group"; otherwise the item is inserted.
    pub fn on_code(self, taken: bool) -> (n: ItemCreateNext)
        ensures
            taken ==> (n matches ItemCreateNext::Finish(o) && fails_with(o, code_taken_in_group())),
            !taken ==> (n matches ItemCreateNext::Insert(st, r) && r == self.req && st.actor_id
                == self.actor_id),
    {
        if taken {
            ItemCreateNext::Finish(
                fail(
                    AppError::Conflict(String::from_str("code is already registered in this group")),
                ),
            )
        } else {
            ItemCreateNext::Insert(ItemCreateAwaitInsert { actor_id: self.actor_id }, self.req)
        }
    }
}

impl ItemCreateAwaitInsert {
    /// The new item is recorded as `master_item.create`, its group's cache
    /// entry evicted, and the item answered.
    pub fn on_created(self, item: MasterItem) -> (o: Outcome<MasterItem, MasterItem>)
        ensures
            o.audit matches Some(a) && a@ == item_audit(
                self.actor_id,
                "master_item.create"@,
                item.id as int,
            ),
            o.old_values is None,
            string_views(o.evict@) == seq![group_key(item.group_id as int)],
            o.refresh_authz@.len() == 0,
            o.reply == Ok::<MasterItem, AppError>(item),
    {
        let a = audit_entry(
            self.actor_id,
            "master_item.create",
            "master_item",
            "master item",
            item.id,
        );
        let o = Outcome {
            audit: Some(a),
            old_values: None,
            evict: one_key(group_cache_key(item.group_id)),
            refresh_authz: Vec::new(),
            reply: Ok(item),
        };
        proof {
            assert(string_views(o.evict@) =~= seq![group_key(o.reply->Ok_0.group_id as int)]);
        }
        o
    }
}

/// `update` of an item, waiting for the item as it is now.
pub struct ItemUpdateAwaitExisting {
    pub id: i64,
    pub req: UpdateMasterItemRequest,
    pub actor_id: i32,
}

/// `update` of an item, waiting for the id of the item of the same group
/// holding the requested code.
pub struct ItemUpdateAwaitCode {
    pub id: i64,
    pub req: UpdateMasterItemRequest,
    pub actor_id: i32,
    pub existing: MasterItem,
}

/// `update` of an item, waiting for the store to write the change.
pub struct ItemUpdateAwaitWrite {
    pub id: i64,
    pub actor_id: i32,
    pub existing: MasterItem,
}

pub enum ItemUpdateNext {
    /// Look up the item with this id, then call `on_existing`.
    FindExisting(ItemUpdateAwaitExisting, i64),
    /// Look up the item of group `.1` with code `.2`, then call `on_code`
    /// with its id.
    FindByGroupAndCode(ItemUpdateAwaitCode, i64, String),
    /// Set code, name and active flag (and description, extra and sort
    /// order, when given) of item `.1`, then call `on_written`.
    Write(ItemUpdateAwaitWrite, i64, UpdateMasterItemRequest),
    Finish(Outcome<MasterItem, MasterItem>),
}

/// Starts `update` of item `id`: the name must be valid ("invalid name").
pub fn start_item_update(id: i64, req: UpdateMasterItemRequest, actor_id: i32) -> (n:
    ItemUpdateNext)
    ensures
        !valid_display_name(req.name@) ==> (n matches ItemUpdateNext::Finish(o) && fails_with(
            o,
            MasterItemDomainError::InvalidName.app_view(),
        )),
        valid_display_name(req.name@) ==> (n matches ItemUpdateNext::FindExisting(st, i) && i
            == id && st.id == id && st.req == req && st.actor_id == actor_id),
{
    match ItemName::parse(req.name.as_str()) {
        Err(e) => ItemUpdateNext::Finish(fail(e.into_app_error())),
        Ok(_) => ItemUpdateNext::FindExisting(ItemUpdateAwaitExisting { id, req, actor_id }, id),
    }
}

impl ItemUpdateAwaitExisting {
    /// A missing item fails with "master item not found"; otherwise the code
    /// is checked within the item's group.
    pub fn on_existing(self, existing: Option<MasterItem>) -> (n: ItemUpdateNext)
        ensures
            match existing {
                Some(it) => n matches ItemUpdateNext::FindByGroupAndCode(st, g, c) && g
                    == it.group_id && c@ == self.req.code@ && st.id == self.id && st.req
                    == self.req && st.actor_id == self.actor_id && st.existing == it,
                None => n matches ItemUpdateNext::Finish(o) && fails_with(o, item_missing()),
            },
    {
        match existing {
            Some(it) => {
                let g = it.group_id;
                let code = self.req.code.clone();
                ItemUpdateNext::FindByGroupAndCode(
                    ItemUpdateAwaitCode {
                        id: self.id,
                        req: self.req,
                        actor_id: self.actor_id,
                        existing: it,
                    },
                    g,
                    code,
                )
            },
            None => ItemUpdateNext::Finish(fail(item_not_found())),
        }
    }
}

impl ItemUpdateAwaitCode {
    /// The code may only be held by this item within its group ("code is
    /// already registered in this group"); otherwise the change is written.
    pub fn on_code(self, holder: Option<i64>) -> (n: ItemUpdateNext)
        ensures
            (holder matches Some(h) && h != self.id) ==> (n matches ItemUpdateNext::Finish(o)
                && fails_with(o, code_taken_in_group())),
            !(holder matches Some(h) && h != self.id) ==> (n matches ItemUpdateNext::Write(
                st,
                i,
                r,
            ) && i == self.id && r == self.req && st.id == self.id && st.actor_id
                == self.actor_id && st.existing == self.existing),
    {
        match holder {
            Some(h) if h != self.id => ItemUpdateNext::Finish(
                fail(
                    AppError::Conflict(String::from_str("code is already registered in this group")),
                ),
            ),
            _ => {
                let id = self.id;
                ItemUpdateNext::Write(
                    ItemUpdateAwaitWrite { id, actor_id: self.actor_id, existing: self.existing },
                    id,
                    self.req,
                )
            },
        }
    }
}

impl ItemUpdateAwaitWrite {
    /// The change is recorded as `master_item.update`; the item's cache
    /// entry and its group's are evicted, and the updated item answered.
    pub fn on_written(self, item: MasterItem) -> (o: Outcome<MasterItem, MasterItem>)
        ensures
            o.audit matches Some(a) && a@ == item_audit(
                self.actor_id,
                "master_item.update"@,
                self.id as int,
            ),
            o.old_values == Some(self.existing),
            string_views(o.evict@) == seq![item_key(self.id as int), group_key(item.group_id as int)],
            o.refresh_authz@.len() == 0,
            o.reply == Ok::<MasterItem, AppError>(item),
    {
        let a = audit_entry(
            self.actor_id,
            "master_item.update",
            "master_item",
            "master item",
            self.id,
        );
        let mut evict = one_key(item_cache_key(self.id));
        evict.push(group_cache_key(item.group_id));
        let ghost gid = item.group_id;
        let o = Outcome {
            audit: Some(a),
            old_values: Some(self.existing),
            evict,
            refresh_authz: Vec::new(),
            reply: Ok(item),
        };
        proof {
            assert(string_views(o.evict@) =~= seq![item_key(self.id as int), group_key(gid as int)]);
        }
        o
    }
}

/// `delete` of an item, waiting for the item as it is now.
pub struct ItemDeleteAwaitExisting {
    pub id: i64,
    pub actor_id: i32,
}

/// `delete` of an item, waiting for the store to delete it.
pub struct ItemDeleteAwaitRemoval {
    pub id: i64,
    pub actor_id: i32,
    pub existing: MasterItem,
}

pub enum ItemDeleteNext {
    /// Look up the item with this id, then call `on_existing`.
    FindExisting(ItemDeleteAwaitExisting, i64),
    /// Delete the item with this id, then call `on_removed`.
    Remove(ItemDeleteAwaitRemoval, i64),
    Finish(Outcome<MasterItem, ()>),
}

/// Starts `delete` of item `id`.
pub fn start_item_delete(id: i64, actor_id: i32) -> (n: ItemDeleteNext)
    ensures
        n matches ItemDeleteNext::FindExisting(st, i) && i == id && st.id == id && st.actor_id
            == actor_id,
{
    ItemDeleteNext::FindExisting(ItemDeleteAwaitExisting { id, actor_id }, id)
}

impl ItemDeleteAwaitExisting {
    /// A missing item fails with "master item not found".
    pub fn on_existing(self, existing: Option<MasterItem>) -> (n: ItemDeleteNext)
        ensures
            match existing {
                Some(it) => n matches ItemDeleteNext::Remove(st, i) && i == self.id && st.id
                    == self.id && st.actor_id == self.actor_id && st.existing == it,
                None => n matches ItemDeleteNext::Finish(o) && fails_with(o, item_missing()),
            },
    {
        match existing {
            Some(it) => {
                let id = self.id;
                ItemDeleteNext::Remove(
                    ItemDeleteAwaitRemoval { id, actor_id: self.actor_id, existing: it },
                    id,
                )
            },
            None => ItemDeleteNext::Finish(fail(item_not_found())),
        }
    }
}

impl ItemDeleteAwaitRemoval {
    /// Once deleted: recorded as `master_item.delete`; the item's cache
    /// entry and its group's are evicted; success answered.
    pub fn on_removed(self) -> (o: Outcome<MasterItem, ()>)
        ensures
            o.audit matches Some(a) && a@ == item_audit(
                self.actor_id,
                "master_item.delete"@,
                self.id as int,
            ),
            o.old_values == Some(self.existing),
            string_views(o.evict@) == seq![
                item_key(self.id as int),
                group_key(self.existing.group_id as int),
            ],
            o.refresh_authz@.len() == 0,
            o.reply == Ok::<(), AppError>(()),
    {
        let a = audit_entry(
            self.actor_id,
            "master_item.delete",
            "master_item",
            "master item",
            self.id,
        );
        let mut evict = one_key(item_cache_key(self.id));
        evict.push(group_cache_key(self.existing.group_id));
        let o = Outcome {
            audit: Some(a),
            old_values: Some(self.existing),
            evict,
            refresh_authz: Vec::new(),
            reply: Ok(()),
        };
        proof {
            assert(string_views(o.evict@) =~= seq![
                item_key(self.id as int),
                group_key(self.existing.group_id as int),
            ]);
        }
        o
    }
}

} // verus!
