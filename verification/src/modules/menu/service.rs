//! The decisions of the menu service. Each operation that alternates store
//! calls and decisions is a chain of steps: every step takes what the last
//! store call returned and says what to do next.

use vstd::prelude::*;

use super::dto::{CreateMenuRequest, UpdateMenuRequest};
use super::entity::{Menu, MenuTreeNode, views};
use super::errors::MenuDomainError;
use super::hierarchy::{chain_stops, has_id, reaches, would_create_cycle};
use super::listing::{list_page, page_of, page_offset, searched};
use super::tree::{build_tree, forest};
use super::visibility::{filter_visible, visible};
use crate::errors::{AppError, AppErrorView};
use crate::modules::common::{
    AuditView, Deletion, DeleteNext, Outcome, ReadNext, audit_entry, audit_for_id, fail,
    fails_with, is_plain_reply, key_for, keyed, one_key, read_through, start_deletion,
    string_views,
};

verus! {

/// Cache key of a menu: `menu:id:{id}`.
pub open spec fn menu_key(id: int) -> Seq<char> {
    keyed("menu:id:"@, id)
}

/// The cache key of menu `id`.
pub fn cache_key(id: i32) -> (r: String)
    ensures
        r@ == menu_key(id as int),
{
    key_for("menu:id:", id as i64)
}

/// The audit entry for `action` on menu `id` by `actor_id`.
pub open spec fn menu_audit(actor_id: i32, action: Seq<char>, id: int) -> AuditView {
    audit_for_id(actor_id, action, "menu"@, "menu"@, id)
}

// ---------------------------------------------------------------------
// Reads
// ---------------------------------------------------------------------

/// `get_by_id`: a cache-aside read of menu `id`, answering "menu not found"
/// when the store lacks it.
pub fn start_get(id: i32) -> (n: ReadNext<Menu>)
    ensures
        n matches ReadNext::AskCache(st, k) && k@ == menu_key(id as int) && st.key@ == menu_key(
            id as int,
        ) && st.missing@ == MenuDomainError::NotFound.app_view(),
{
    read_through(cache_key(id), MenuDomainError::NotFound.into_app_error())
}

/// `list`: the page of the search result, with the number of menus found.
pub fn list(all: Vec<Menu>, search: Option<&str>, page: i64, limit: i64) -> (r: (Vec<Menu>, i64))
    requires
        page > i64::MIN,
        i64::MIN <= (page - 1) * limit <= i64::MAX,
    ensures
        ({
            let kept = searched(all@, match search {
                Some(s) => Some(s@),
                None => None,
            });
            &&& r.1 == kept.len() as i64
            &&& r.0@ == page_of(
                kept,
                (page_offset(page, limit) as usize) as nat,
                (limit as usize) as nat,
            )
        }),
{
    list_page(all, search, page, limit)
}

/// `tree`: every menu, nested.
pub fn tree(all: Vec<Menu>) -> (t: Vec<MenuTreeNode>)
    ensures
        views(t@) == forest(all@),
{
    build_tree(all)
}

/// `visible_tree`: the menus a caller holding `user_permissions` sees,
/// nested.
pub fn visible_tree(all: Vec<Menu>, user_permissions: &[String]) -> (t: Vec<MenuTreeNode>)
    ensures
        views(t@) == forest(visible(all@, user_permissions@)),
{
    build_tree(filter_visible(all, user_permissions))
}

// ---------------------------------------------------------------------
// create
// ---------------------------------------------------------------------

/// `create`, waiting to learn whether the requested parent exists.
pub struct CreateAwaitParent {
    pub req: CreateMenuRequest,
    pub actor_id: i32,
}

/// `create`, waiting to learn whether the slug is taken.
pub struct CreateAwaitSlug {
    pub req: CreateMenuRequest,
    pub actor_id: i32,
}

/// `create`, waiting for the store to insert the menu.
pub struct CreateAwaitInsert {
    pub actor_id: i32,
}

pub enum CreateNext {
    /// Look up the menu with this id, then call `on_parent`.
    FindParent(CreateAwaitParent, i32),
    /// Look up the menu with this slug, then call `on_slug`.
    FindSlug(CreateAwaitSlug, String),
    /// Insert this menu, then call `on_created`.
    Insert(CreateAwaitInsert, CreateMenuRequest),
    Finish(Outcome<Menu, Menu>),
}

fn ask_slug(req: CreateMenuRequest, actor_id: i32) -> (n: CreateNext)
    ensures
        n matches CreateNext::FindSlug(st, s) && s@ == req.slug@ && st.req == req && st.actor_id
            == actor_id,
{
    let slug = req.slug.clone();
    CreateNext::FindSlug(CreateAwaitSlug { req, actor_id }, slug)
}

/// Starts `create`: the parent, when one is given, must exist.
pub fn start_create(req: CreateMenuRequest, actor_id: i32) -> (n: CreateNext)
    ensures
        match req.parent_id {
            Some(p) => n matches CreateNext::FindParent(st, q) && q == p && st.req == req
                && st.actor_id == actor_id,
            None => n matches CreateNext::FindSlug(st, s) && s@ == req.slug@ && st.req == req
                && st.actor_id == actor_id,
        },
{
    match req.parent_id {
        Some(p) => CreateNext::FindParent(CreateAwaitParent { req, actor_id }, p),
        None => ask_slug(req, actor_id),
    }
}

impl CreateAwaitParent {
    /// A missing parent fails with "parent menu not found"; otherwise the
    /// slug is checked.
    pub fn on_parent(self, found: bool) -> (n: CreateNext)
        ensures
            found ==> (n matches CreateNext::FindSlug(st, s) && s@ == self.req.slug@ && st.req
                == self.req && st.actor_id == self.actor_id),
            !found ==> (n matches CreateNext::Finish(o) && fails_with(
                o,
                MenuDomainError::ParentNotFound.app_view(),
            )),
    {
        if found {
            ask_slug(self.req, self.actor_id)
        } else {
            CreateNext::Finish(fail(MenuDomainError::ParentNotFound.into_app_error()))
        }
    }
}

impl CreateAwaitSlug {
    /// A taken slug fails with "slug is already registered"; otherwise the
    /// menu is inserted as requested.
    pub fn on_slug(self, taken: bool) -> (n: CreateNext)
        ensures
            taken ==> (n matches CreateNext::Finish(o) && fails_with(
                o,
                MenuDomainError::SlugTaken.app_view(),
            )),
            !taken ==> (n matches CreateNext::Insert(st, r) && r == self.req && st.actor_id
                == self.actor_id),
    {
        if taken {
            CreateNext::Finish(fail(MenuDomainError::SlugTaken.into_app_error()))
        } else {
            CreateNext::Insert(CreateAwaitInsert { actor_id: self.actor_id }, self.req)
        }
    }
}

impl CreateAwaitInsert {
    /// The new menu is recorded as `menu.create` and answered.
    pub fn on_created(self, menu: Menu) -> (o: Outcome<Menu, Menu>)
        ensures
            o.audit matches Some(a) && a@ == menu_audit(self.actor_id, "menu.create"@, menu.id as int),
            o.old_values is None,
            o.evict@.len() == 0,
            o.refresh_authz@.len() == 0,
            o.reply == Ok::<Menu, AppError>(menu),
    {
        let a = audit_entry(self.actor_id, "menu.create", "menu", "menu", menu.id as i64);
        Outcome {
            audit: Some(a),
            old_values: None,
            evict: Vec::new(),
            refresh_authz: Vec::new(),
            reply: Ok(menu),
        }
    }
}

// ---------------------------------------------------------------------
// update
// ---------------------------------------------------------------------

/// `update` that reparents, waiting for every menu (to check the new
/// parent).
pub struct UpdateAwaitAll {
    pub id: i32,
    pub new_parent: i32,
    pub req: UpdateMenuRequest,
    pub actor_id: i32,
}

/// `update`, waiting for the menu as it is now.
pub struct UpdateAwaitExisting {
    pub id: i32,
    pub req: UpdateMenuRequest,
    pub actor_id: i32,
}

/// `update`, waiting for the store to write the change.
pub struct UpdateAwaitWrite {
    pub id: i32,
    pub actor_id: i32,
    pub existing: Menu,
}

pub enum UpdateNext {
    /// List every menu, then call `on_all`.
    ListAll(UpdateAwaitAll),
    /// Look up the menu with this id, then call `on_existing`.
    FindExisting(UpdateAwaitExisting, i32),
    /// Write this change to the menu with this id, then call `on_written`.
    Write(UpdateAwaitWrite, i32, UpdateMenuRequest),
    Finish(Outcome<Menu, Menu>),
}

/// Starts `update` of menu `id`: a request that moves the menu under
/// another one checks that parent first.
pub fn start_update(id: i32, req: UpdateMenuRequest, actor_id: i32) -> (n: UpdateNext)
    ensures
        match req.parent_id {
            Some(Some(p)) => n matches UpdateNext::ListAll(st) && st.id == id && st.new_parent == p
                && st.req == req && st.actor_id == actor_id,
            _ => n matches UpdateNext::FindExisting(st, i) && i == id && st.id == id && st.req
                == req && st.actor_id == actor_id,
        },
{
    match req.parent_id {
        Some(Some(p)) => UpdateNext::ListAll(UpdateAwaitAll { id, new_parent: p, req, actor_id }),
        _ => UpdateNext::FindExisting(UpdateAwaitExisting { id, req, actor_id }, id),
    }
}

/// Is there a menu with id `c` in `all`?
fn any_with_id(all: &[Menu], c: i32) -> (r: bool)
    ensures
        r == has_id(all@, c),
{
    let mut i: usize = 0;
    while i < all.len()
        invariant
            i <= all@.len(),
            forall|q: int| 0 <= q < i ==> (#[trigger] all@[q]).id != c,
        decreases all@.len() - i,
    {
        if all[i].id == c {
            return true;
        }
        i = i + 1;
    }
    false
}

impl UpdateAwaitAll {
    /// The new parent must exist ("parent menu not found"), and must be
    /// neither the menu itself nor one of its descendants ("a menu cannot be
    /// moved under itself or one of its own descendants"); then the menu is
    /// loaded.
    pub fn on_all(self, all: Vec<Menu>) -> (n: UpdateNext)
        requires
            chain_stops(all@, self.new_parent, self.id),
        ensures
            !has_id(all@, self.new_parent) ==> (n matches UpdateNext::Finish(o) && fails_with(
                o,
                MenuDomainError::ParentNotFound.app_view(),
            )),
            has_id(all@, self.new_parent) && reaches(all@, self.new_parent, self.id)
                ==> (n matches UpdateNext::Finish(o) && fails_with(
                o,
                MenuDomainError::CircularParent.app_view(),
            )),
            has_id(all@, self.new_parent) && !reaches(all@, self.new_parent, self.id)
                ==> (n matches UpdateNext::FindExisting(st, i) && i == self.id && st.id == self.id
                && st.req == self.req && st.actor_id == self.actor_id),
    {
        if !any_with_id(all.as_slice(), self.new_parent) {
            return UpdateNext::Finish(fail(MenuDomainError::ParentNotFound.into_app_error()));
        }
        if would_create_cycle(self.id, self.new_parent, all.as_slice()) {
            return UpdateNext::Finish(fail(MenuDomainError::CircularParent.into_app_error()));
        }
        let id = self.id;
        UpdateNext::FindExisting(
            UpdateAwaitExisting { id, req: self.req, actor_id: self.actor_id },
            id,
        )
    }
}

impl UpdateAwaitExisting {
    /// A missing menu fails with "menu not found"; otherwise the change is
    /// written.
    pub fn on_existing(self, existing: Option<Menu>) -> (n: UpdateNext)
        ensures
            match existing {
                Some(m) => n matches UpdateNext::Write(st, i, r) && i == self.id && r == self.req
                    && st.id == self.id && st.actor_id == self.actor_id && st.existing == m,
                None => n matches UpdateNext::Finish(o) && fails_with(
                    o,
                    MenuDomainError::NotFound.app_view(),
                ),
            },
    {
        match existing {
            Some(m) => {
                let id = self.id;
                UpdateNext::Write(
                    UpdateAwaitWrite { id, actor_id: self.actor_id, existing: m },
                    id,
                    self.req,
                )
            },
            None => UpdateNext::Finish(fail(MenuDomainError::NotFound.into_app_error())),
        }
    }
}

impl UpdateAwaitWrite {
    /// The change is recorded as `menu.update` with the old values, the
    /// menu's cache entry is evicted, and the updated menu is answered.
    pub fn on_written(self, menu: Menu) -> (o: Outcome<Menu, Menu>)
        ensures
            o.audit matches Some(a) && a@ == menu_audit(self.actor_id, "menu.update"@, self.id as int),
            o.old_values == Some(self.existing),
            string_views(o.evict@) == seq![menu_key(self.id as int)],
            o.refresh_authz@.len() == 0,
            o.reply == Ok::<Menu, AppError>(menu),
    {
        let a = audit_entry(self.actor_id, "menu.update", "menu", "menu", self.id as i64);
        let o = Outcome {
            audit: Some(a),
            old_values: Some(self.existing),
            evict: one_key(cache_key(self.id)),
            refresh_authz: Vec::new(),
            reply: Ok(menu),
        };
        proof {
            assert(string_views(o.evict@) =~= seq![menu_key(self.id as int)]);
        }
        o
    }
}

// ---------------------------------------------------------------------
// delete
// ---------------------------------------------------------------------

/// Starts `delete` of menu `id`: the menu must exist ("menu not found");
/// it is then deleted with its subtree, recorded as `menu.delete` and its
/// cache entry evicted.
pub fn start_delete(id: i32, actor_id: i32) -> (n: DeleteNext<Menu>)
    ensures
        n matches DeleteNext::FindExisting(st, i) && i == id && st.plan.id == id && st.plan.audit@
            == menu_audit(actor_id, "menu.delete"@, id as int) && st.plan.key@ == menu_key(
            id as int,
        ) && st.plan.missing@ == MenuDomainError::NotFound.app_view(),
{
    start_deletion(
        Deletion {
            id: id as i64,
            audit: audit_entry(actor_id, "menu.delete", "menu", "menu", id as i64),
            key: cache_key(id),
            missing: MenuDomainError::NotFound.into_app_error(),
        },
    )
}

// ---------------------------------------------------------------------
// assign_permission / revoke_permission
// ---------------------------------------------------------------------

/// The error for an unknown permission name: "permission '{name}' not found".
pub open spec fn unknown_permission(name: Seq<char>) -> AppErrorView {
    AppErrorView::NotFound("permission '"@ + name + "' not found"@)
}

/// Granting (`assign`) or withdrawing a permission on a menu, waiting for
/// the permission's id.
pub struct LinkAwaitPermission {
    pub menu_id: i32,
    pub name: String,
    pub assign: bool,
}

/// Granting or withdrawing, waiting for the store to change the link.
pub struct LinkAwaitWrite {
    pub menu_id: i32,
}

pub enum LinkNext {
    /// Look up the permission with this name, then call `on_permission`.
    FindPermission(LinkAwaitPermission, String),
    /// Link permission `.2` to menu `.1`, then call `on_linked`.
    Assign(LinkAwaitWrite, i32, i32),
    /// Unlink permission `.2` from menu `.1`, then call `on_linked`.
    Revoke(LinkAwaitWrite, i32, i32),
    Finish(Outcome<Menu, ()>),
}

/// Starts `assign_permission` (`assign`) or `revoke_permission` on a menu.
pub fn start_link(menu_id: i32, permission_name: &str, assign: bool) -> (n: LinkNext)
    ensures
        n matches LinkNext::FindPermission(st, name) && name@ == permission_name@ && st.name@
            == permission_name@ && st.menu_id == menu_id && st.assign == assign,
{
    LinkNext::FindPermission(
        LinkAwaitPermission { menu_id, name: String::from_str(permission_name), assign },
        String::from_str(permission_name),
    )
}

impl LinkAwaitPermission {
    /// An unknown permission fails with "permission '{name}' not found";
    /// otherwise the link is changed.
    pub fn on_permission(self, found: Option<(i32, String)>) -> (n: LinkNext)
        ensures
            match found {
                Some((pid, _)) => if self.assign {
                    n matches LinkNext::Assign(st, m, p) && m == self.menu_id && p == pid
                        && st.menu_id == self.menu_id
                } else {
                    n matches LinkNext::Revoke(st, m, p) && m == self.menu_id && p == pid
                        && st.menu_id == self.menu_id
                },
                None => n matches LinkNext::Finish(o) && fails_with(
                    o,
                    unknown_permission(self.name@),
                ),
            },
    {
        match found {
            Some((pid, _)) => {
                let st = LinkAwaitWrite { menu_id: self.menu_id };
                if self.assign {
                    LinkNext::Assign(st, self.menu_id, pid)
                } else {
                    LinkNext::Revoke(st, self.menu_id, pid)
                }
            },
            None => {
                let msg = String::from_str("permission '").concat(self.name.as_str()).concat(
                    "' not found",
                );
                LinkNext::Finish(fail(AppError::NotFound(msg)))
            },
        }
    }
}

impl LinkAwaitWrite {
    /// Once changed, the menu's cache entry is evicted and success answered.
    pub fn on_linked(self) -> (o: Outcome<Menu, ()>)
        ensures
            o.audit is None,
            o.old_values is None,
            string_views(o.evict@) == seq![menu_key(self.menu_id as int)],
            o.refresh_authz@.len() == 0,
            o.reply == Ok::<(), AppError>(()),
    {
        let o = Outcome {
            audit: None,
            old_values: None,
            evict: one_key(cache_key(self.menu_id)),
            refresh_authz: Vec::new(),
            reply: Ok(()),
        };
        proof {
            assert(string_views(o.evict@) =~= seq![menu_key(self.menu_id as int)]);
        }
        o
    }
}

} // verus!
