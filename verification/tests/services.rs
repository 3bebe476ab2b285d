use rust_api_ddd::errors::AppError;
use rust_api_ddd::modules::common::{DeleteNext, ReadNext};
use rust_api_ddd::modules::masters::dto::{CreateMasterItemRequest, UpdateMasterGroupRequest, UpdateMasterItemRequest};
use rust_api_ddd::modules::masters::entity::{MasterGroup, MasterItem};
use rust_api_ddd::modules::masters::grouping::attach_items;
use rust_api_ddd::modules::masters::service as masters;
use rust_api_ddd::modules::menu::dto::{CreateMenuRequest, UpdateMenuRequest};
use rust_api_ddd::modules::menu::entity::Menu;
use rust_api_ddd::modules::menu::service as menus;
use rust_api_ddd::modules::role::service as roles;
use rust_api_ddd::modules::role::sync::{missing_ids, sorted_unique, unknown_ids_text};
use rust_api_ddd::modules::setting::dto::UpsertSettingRequest;
use rust_api_ddd::modules::setting::service as settings;

fn menu(id: i32, parent_id: Option<i32>) -> Menu {
    Menu {
        id,
        parent_id,
        name: format!("Menu {id}"),
        slug: format!("menu-{id}"),
        path: None,
        icon: None,
        order_index: 0,
        is_active: true,
        permissions: Vec::new(),
        created_at: 0,
        updated_at: 0,
    }
}

fn item(id: i64, group_id: i64) -> MasterItem {
    MasterItem {
        id,
        group_id,
        code: format!("c{id}"),
        name: format!("Item {id}"),
        description: None,
        extra: None,
        sort_order: 0,
        is_active: true,
        created_at: 0,
        updated_at: 0,
        deleted_at: None,
    }
}

fn group(id: i64) -> MasterGroup {
    MasterGroup {
        id,
        code: format!("g{id}"),
        name: format!("Group {id}"),
        description: None,
        is_active: true,
        created_at: 0,
        updated_at: 0,
        deleted_at: None,
        items: Vec::new(),
    }
}

#[test]
fn cache_keys() {
    assert_eq!(menus::cache_key(12), "menu:id:12");
    assert_eq!(menus::cache_key(-3), "menu:id:-3");
    assert_eq!(masters::cache_key(7), "master_group:id:7");
    assert_eq!(masters::item_cache_key(8), "master_item:id:8");
    assert_eq!(masters::group_cache_key(9), "master_group:id:9");
    assert_eq!(roles::cache_key(1), "role:id:1");
    assert_eq!(rust_api_ddd::modules::permission::service::cache_key(0), "permission:id:0");
    assert_eq!(settings::cache_key("site.name"), "setting:key:site.name");
    assert_eq!(settings::list_cache_key(), "setting:list");
}

#[test]
fn different_ids_never_share_a_cache_key() {
    let ids = [-12, -1, 0, 1, 2, 12, 21, 120, i32::MAX, i32::MIN];
    for a in ids {
        for b in ids {
            assert_eq!(roles::cache_key(a) == roles::cache_key(b), a == b);
            assert_eq!(menus::cache_key(a) == menus::cache_key(b), a == b);
        }
    }
}

#[test]
fn cached_read_answers_a_hit_without_the_store() {
    let ReadNext::AskCache(st, key) = menus::start_get(4) else { panic!("expected a cache lookup") };
    assert_eq!(key, "menu:id:4");
    match st.on_cached(Some(menu(4, None))) {
        ReadNext::Reply(Ok(m)) => assert_eq!(m.id, 4),
        _ => panic!("expected the cached menu"),
    }
}

#[test]
fn cached_read_loads_and_remembers_on_a_miss() {
    let ReadNext::AskCache(st, _) = menus::start_get(4) else { panic!() };
    let ReadNext::Load(store) = st.on_cached::<Menu>(None) else { panic!("expected a load") };
    match store.on_loaded(Some(menu(4, None))) {
        ReadNext::Remember(k, m) => {
            assert_eq!(k, "menu:id:4");
            assert_eq!(m.id, 4);
        }
        _ => panic!("expected to cache the menu"),
    }
}

#[test]
fn cached_read_of_a_missing_menu_fails() {
    let ReadNext::AskCache(st, _) = menus::start_get(4) else { panic!() };
    let ReadNext::Load(store) = st.on_cached::<Menu>(None) else { panic!() };
    match store.on_loaded::<Menu>(None) {
        ReadNext::Reply(Err(e)) => assert_eq!(e, AppError::NotFound("menu not found".to_string())),
        _ => panic!("expected not found"),
    }
}

fn create_req(parent_id: Option<i32>) -> CreateMenuRequest {
    CreateMenuRequest {
        parent_id,
        name: "Reports".to_string(),
        slug: "reports".to_string(),
        path: None,
        icon: None,
        order_index: 0,
    }
}

#[test]
fn menu_create_with_missing_parent_fails() {
    let menus::CreateNext::FindParent(st, p) = menus::start_create(create_req(Some(5)), 1) else { panic!() };
    assert_eq!(p, 5);
    match st.on_parent(false) {
        menus::CreateNext::Finish(o) => {
            assert!(o.audit.is_none());
            assert_eq!(o.reply.unwrap_err(), AppError::NotFound("parent menu not found".to_string()));
        }
        _ => panic!(),
    }
}

#[test]
fn menu_create_with_taken_slug_fails() {
    let menus::CreateNext::FindSlug(st, slug) = menus::start_create(create_req(None), 1) else { panic!() };
    assert_eq!(slug, "reports");
    match st.on_slug(true) {
        menus::CreateNext::Finish(o) => {
            assert_eq!(o.reply.unwrap_err(), AppError::Conflict("slug is already registered".to_string()))
        }
        _ => panic!(),
    }
}

#[test]
fn menu_create_records_an_audit_entry() {
    let menus::CreateNext::FindParent(st, _) = menus::start_create(create_req(Some(5)), 42) else { panic!() };
    let menus::CreateNext::FindSlug(st, _) = st.on_parent(true) else { panic!() };
    let menus::CreateNext::Insert(st, req) = st.on_slug(false) else { panic!() };
    assert_eq!(req.name, "Reports");
    let o = st.on_created(menu(17, Some(5)));
    let a = o.audit.unwrap();
    assert_eq!(a.actor_id, 42);
    assert_eq!(a.action, "menu.create");
    assert_eq!(a.entity_type, "menu");
    assert_eq!(a.entity_id, "17");
    assert_eq!(a.description, "menu id 17");
    assert!(o.evict.is_empty());
    assert_eq!(o.reply.unwrap().id, 17);
}

fn move_req(parent: Option<Option<i32>>) -> UpdateMenuRequest {
    UpdateMenuRequest {
        parent_id: parent,
        name: None,
        path: None,
        icon: None,
        order_index: None,
        is_active: None,
    }
}

#[test]
fn menu_update_under_own_descendant_is_refused() {
    let all = vec![menu(1, None), menu(2, Some(1)), menu(3, Some(2))];
    let menus::UpdateNext::ListAll(st) = menus::start_update(1, move_req(Some(Some(3))), 9) else { panic!() };
    match st.on_all(all) {
        menus::UpdateNext::Finish(o) => assert_eq!(
            o.reply.unwrap_err(),
            AppError::BadRequest("a menu cannot be moved under itself or one of its own descendants".to_string())
        ),
        _ => panic!(),
    }
}

#[test]
fn menu_update_under_unknown_parent_is_refused() {
    let all = vec![menu(1, None)];
    let menus::UpdateNext::ListAll(st) = menus::start_update(1, move_req(Some(Some(8))), 9) else { panic!() };
    match st.on_all(all) {
        menus::UpdateNext::Finish(o) => {
            assert_eq!(o.reply.unwrap_err(), AppError::NotFound("parent menu not found".to_string()))
        }
        _ => panic!(),
    }
}

#[test]
fn menu_update_evicts_the_cached_menu() {
    let all = vec![menu(1, None), menu(2, None)];
    let menus::UpdateNext::ListAll(st) = menus::start_update(2, move_req(Some(Some(1))), 9) else { panic!() };
    let menus::UpdateNext::FindExisting(st, id) = st.on_all(all) else { panic!() };
    assert_eq!(id, 2);
    let menus::UpdateNext::Write(st, id, req) = st.on_existing(Some(menu(2, None))) else { panic!() };
    assert_eq!(id, 2);
    assert_eq!(req.parent_id, Some(Some(1)));
    let o = st.on_written(menu(2, Some(1)));
    assert_eq!(o.audit.unwrap().action, "menu.update");
    assert_eq!(o.old_values.unwrap().parent_id, None);
    assert_eq!(o.evict, vec!["menu:id:2".to_string()]);
}

#[test]
fn menu_update_to_top_level_skips_the_parent_check() {
    match menus::start_update(2, move_req(Some(None)), 9) {
        menus::UpdateNext::FindExisting(st, id) => {
            assert_eq!(id, 2);
            match st.on_existing(None) {
                menus::UpdateNext::Finish(o) => {
                    assert_eq!(o.reply.unwrap_err(), AppError::NotFound("menu not found".to_string()))
                }
                _ => panic!(),
            }
        }
        _ => panic!(),
    }
}

#[test]
fn menu_delete_flow() {
    let DeleteNext::FindExisting(st, id) = menus::start_delete(3, 1) else { panic!() };
    assert_eq!(id, 3);
    let DeleteNext::Remove(st, id) = st.on_existing(Some(menu(3, None))) else { panic!() };
    assert_eq!(id, 3);
    let o = st.on_removed();
    assert_eq!(o.audit.as_ref().unwrap().action, "menu.delete");
    assert_eq!(o.evict, vec!["menu:id:3".to_string()]);
    assert!(o.reply.is_ok());
}

#[test]
fn menu_permission_link_with_unknown_permission_fails() {
    let menus::LinkNext::FindPermission(st, name) = menus::start_link(3, "audit.read", true) else { panic!() };
    assert_eq!(name, "audit.read");
    match st.on_permission(None) {
        menus::LinkNext::Finish(o) => assert_eq!(
            o.reply.unwrap_err(),
            AppError::NotFound("permission 'audit.read' not found".to_string())
        ),
        _ => panic!(),
    }
}

#[test]
fn menu_permission_revoke_flow() {
    let menus::LinkNext::FindPermission(st, _) = menus::start_link(3, "audit.read", false) else { panic!() };
    let menus::LinkNext::Revoke(st, m, p) = st.on_permission(Some((11, "audit.read".to_string()))) else { panic!() };
    assert_eq!((m, p), (3, 11));
    let o = st.on_linked();
    assert_eq!(o.evict, vec!["menu:id:3".to_string()]);
}

#[test]
fn menu_list_searches_name_and_slug_ignoring_case() {
    let mut a = menu(1, None);
    a.name = "User Management".to_string();
    let mut b = menu(2, None);
    b.slug = "USER-settings".to_string();
    let c = menu(3, None);
    let (page, total) = menus::list(vec![a, b, c], Some("user"), 1, 10);
    assert_eq!(total, 2);
    assert_eq!(page.iter().map(|m| m.id).collect::<Vec<_>>(), vec![1, 2]);
}

#[test]
fn menu_list_pages() {
    let all: Vec<Menu> = (1..=5).map(|i| menu(i, None)).collect();
    let (page, total) = menus::list(all, None, 2, 2);
    assert_eq!(total, 5);
    assert_eq!(page.iter().map(|m| m.id).collect::<Vec<_>>(), vec![3, 4]);
    let all: Vec<Menu> = (1..=5).map(|i| menu(i, None)).collect();
    let (page, _) = menus::list(all, Some(""), 3, 2);
    assert_eq!(page.iter().map(|m| m.id).collect::<Vec<_>>(), vec![5]);
    let all: Vec<Menu> = (1..=5).map(|i| menu(i, None)).collect();
    let (page, _) = menus::list(all, None, 9, 2);
    assert!(page.is_empty());
}

#[test]
fn visible_tree_filters_then_nests() {
    let mut hidden = menu(1, None);
    hidden.permissions = vec!["admin.only".to_string()];
    let all = vec![hidden, menu(2, Some(1)), menu(3, None), menu(4, Some(3))];
    let t = menus::visible_tree(all, &[]);
    assert_eq!(t.len(), 1);
    assert_eq!(t[0].id, 3);
    assert_eq!(t[0].children[0].id, 4);
}

#[test]
fn group_update_conflicts_with_a_code_held_by_another_group() {
    let req = UpdateMasterGroupRequest {
        code: "PAY".to_string(),
        name: "Payment".to_string(),
        description: None,
        is_active: true,
    };
    let masters::GroupUpdateNext::FindByCode(st, code) = masters::start_group_update(5, req, 1) else { panic!() };
    assert_eq!(code, "PAY");
    match st.on_code(Some(6)) {
        masters::GroupUpdateNext::Finish(o) => assert_eq!(
            o.reply.unwrap_err(),
            AppError::Conflict("code is already registered".to_string())
        ),
        _ => panic!(),
    }
}

#[test]
fn group_update_keeps_its_own_code_and_name() {
    let req = UpdateMasterGroupRequest {
        code: "PAY".to_string(),
        name: "Payment".to_string(),
        description: None,
        is_active: false,
    };
    let masters::GroupUpdateNext::FindByCode(st, _) = masters::start_group_update(5, req, 1) else { panic!() };
    let masters::GroupUpdateNext::FindByName(st, name) = st.on_code(Some(5)) else { panic!() };
    assert_eq!(name, "Payment");
    let masters::GroupUpdateNext::FindExisting(st, id) = st.on_name(None) else { panic!() };
    assert_eq!(id, 5);
    let masters::GroupUpdateNext::Write(st, _, req) = st.on_existing(Some(group(5))) else { panic!() };
    assert!(!req.is_active);
    let o = st.on_written(group(5));
    assert_eq!(o.audit.unwrap().description, "master group id 5");
    assert_eq!(o.evict, vec!["master_group:id:5".to_string()]);
}

#[test]
fn group_create_with_blank_name_fails() {
    let req = rust_api_ddd::modules::masters::dto::CreateMasterGroupRequest {
        code: "X".to_string(),
        name: "   ".to_string(),
        description: None,
    };
    match masters::start_group_create(req, 1) {
        masters::GroupCreateNext::Finish(o) => {
            assert_eq!(o.reply.unwrap_err(), AppError::BadRequest("invalid name".to_string()))
        }
        _ => panic!(),
    }
}

#[test]
fn item_create_under_missing_group_fails() {
    let req = CreateMasterItemRequest {
        group_id: 3,
        code: "BCA".to_string(),
        name: "Bank BCA".to_string(),
        description: None,
        extra: Some("{\"swift\":\"CENAIDJA\"}".to_string()),
        sort_order: None,
    };
    let masters::ItemCreateNext::FindGroup(st, g) = masters::start_item_create(req, 1) else { panic!() };
    assert_eq!(g, 3);
    match st.on_group(false) {
        masters::ItemCreateNext::Finish(o) => {
            assert_eq!(o.reply.unwrap_err(), AppError::NotFound("master group not found".to_string()))
        }
        _ => panic!(),
    }
}

#[test]
fn item_create_evicts_its_group() {
    let req = CreateMasterItemRequest {
        group_id: 3,
        code: "BCA".to_string(),
        name: "Bank BCA".to_string(),
        description: None,
        extra: None,
        sort_order: Some(2),
    };
    let masters::ItemCreateNext::FindGroup(st, _) = masters::start_item_create(req, 1) else { panic!() };
    let masters::ItemCreateNext::FindByGroupAndCode(st, g, c) = st.on_group(true) else { panic!() };
    assert_eq!((g, c.as_str()), (3, "BCA"));
    let masters::ItemCreateNext::Insert(st, _) = st.on_code(false) else { panic!() };
    let o = st.on_created(item(20, 3));
    assert_eq!(o.audit.unwrap().action, "master_item.create");
    assert_eq!(o.evict, vec!["master_group:id:3".to_string()]);
}

#[test]
fn item_update_code_taken_in_group() {
    let req = UpdateMasterItemRequest {
        code: "BCA".to_string(),
        name: "Bank BCA".to_string(),
        description: None,
        extra: None,
        sort_order: None,
        is_active: true,
    };
    let masters::ItemUpdateNext::FindExisting(st, _) = masters::start_item_update(20, req, 1) else { panic!() };
    let masters::ItemUpdateNext::FindByGroupAndCode(st, g, _) = st.on_existing(Some(item(20, 3))) else { panic!() };
    assert_eq!(g, 3);
    match st.on_code(Some(21)) {
        masters::ItemUpdateNext::Finish(o) => assert_eq!(
            o.reply.unwrap_err(),
            AppError::Conflict("code is already registered in this group".to_string())
        ),
        _ => panic!(),
    }
}

#[test]
fn item_update_and_delete_evict_item_and_group() {
    let req = UpdateMasterItemRequest {
        code: "BCA".to_string(),
        name: "Bank BCA".to_string(),
        description: None,
        extra: None,
        sort_order: None,
        is_active: true,
    };
    let masters::ItemUpdateNext::FindExisting(st, _) = masters::start_item_update(20, req, 1) else { panic!() };
    let masters::ItemUpdateNext::FindByGroupAndCode(st, _, _) = st.on_existing(Some(item(20, 3))) else { panic!() };
    let masters::ItemUpdateNext::Write(st, _, _) = st.on_code(Some(20)) else { panic!() };
    let o = st.on_written(item(20, 3));
    assert_eq!(o.evict, vec!["master_item:id:20".to_string(), "master_group:id:3".to_string()]);

    let masters::ItemDeleteNext::FindExisting(st, _) = masters::start_item_delete(20, 1) else { panic!() };
    let masters::ItemDeleteNext::Remove(st, _) = st.on_existing(Some(item(20, 4))) else { panic!() };
    let o = st.on_removed();
    assert_eq!(o.evict, vec!["master_item:id:20".to_string(), "master_group:id:4".to_string()]);
}

#[test]
fn groups_receive_their_own_items_in_order() {
    let items = vec![item(1, 10), item(2, 11), item(3, 10)];
    let gs = attach_items(vec![group(10), group(11), group(12)], &items);
    assert_eq!(gs[0].items.iter().map(|i| i.id).collect::<Vec<_>>(), vec![1, 3]);
    assert_eq!(gs[1].items.iter().map(|i| i.id).collect::<Vec<_>>(), vec![2]);
    assert!(gs[2].items.is_empty());
    assert_eq!(gs[1].code, "g11");
}

#[test]
fn permission_ids_are_sorted_without_repeats() {
    assert_eq!(sorted_unique(&[3, 1, 3, 2, 1]), vec![1, 2, 3]);
    assert!(sorted_unique(&[]).is_empty());
    assert_eq!(sorted_unique(&[-4, 7, -4]), vec![-4, 7]);
}

#[test]
fn unknown_permission_ids_are_named() {
    let missing = missing_ids(&vec![1, 2, 3, 5], &vec![3, 1]);
    assert_eq!(missing, vec![2, 5]);
    assert_eq!(unknown_ids_text(&missing), "permission(s) not found: 2, 5");
}

#[test]
fn role_sync_with_unknown_ids_fails() {
    let roles::SyncNext::FindPermissions(st, ids) = roles::start_sync(4, &[5, 2, 5]) else { panic!() };
    assert_eq!(ids, vec![2, 5]);
    match st.on_found(vec![2]) {
        roles::SyncNext::Finish(o) => assert_eq!(
            o.reply.unwrap_err(),
            AppError::NotFound("permission(s) not found: 5".to_string())
        ),
        _ => panic!(),
    }
}

#[test]
fn role_sync_reconciles_then_refreshes_holders() {
    let roles::SyncNext::FindPermissions(st, _) = roles::start_sync(4, &[5, 2, 5]) else { panic!() };
    let roles::SyncNext::Sync(st, r, ids) = st.on_found(vec![5, 2]) else { panic!() };
    assert_eq!((r, ids), (4, vec![2, 5]));
    let roles::SyncNext::Evict(st, key) = st.on_synced() else { panic!() };
    assert_eq!(key, "role:id:4");
    let roles::SyncNext::FindUsers(st, r) = st.on_evicted() else { panic!() };
    assert_eq!(r, 4);
    let o = st.on_users(vec![7, 8]);
    assert_eq!(o.refresh_authz, vec![7, 8]);
    assert!(o.reply.is_ok());
}

#[test]
fn role_create_with_invalid_name_fails() {
    let req = rust_api_ddd::modules::role::dto::CreateRoleRequest { name: "a b".to_string(), description: None };
    match roles::start_create(req, 1) {
        roles::CreateNext::Finish(o) => {
            assert_eq!(o.reply.unwrap_err(), AppError::BadRequest("invalid name".to_string()))
        }
        _ => panic!(),
    }
}

#[test]
fn role_delete_refreshes_former_holders() {
    let role = rust_api_ddd::modules::role::entity::Role {
        id: 4,
        name: "auditor".to_string(),
        description: None,
        permissions: vec!["audit.read".to_string()],
        created_at: 0,
        updated_at: 0,
    };
    let roles::DeleteNext::FindExisting(st, _) = roles::start_delete(4, 1) else { panic!() };
    let roles::DeleteNext::FindUsers(st, r) = st.on_existing(Some(role)) else { panic!() };
    assert_eq!(r, 4);
    let roles::DeleteNext::Remove(st, _) = st.on_users(vec![10, 11]) else { panic!() };
    let o = st.on_removed();
    assert_eq!(o.refresh_authz, vec![10, 11]);
    assert_eq!(o.evict, vec!["role:id:4".to_string()]);
    assert_eq!(o.audit.unwrap().action, "role.delete");
}

#[test]
fn setting_upsert_with_blank_key_fails() {
    let req = UpsertSettingRequest { value: Some("x".to_string()), description: None };
    match settings::start_upsert(" \t", req, 1) {
        settings::UpsertNext::Finish(o) => assert_eq!(
            o.reply.unwrap_err(),
            AppError::BadRequest("setting key is required".to_string())
        ),
        _ => panic!(),
    }
}

#[test]
fn setting_upsert_evicts_the_setting_and_the_list() {
    let req = UpsertSettingRequest { value: Some("20".to_string()), description: None };
    let settings::UpsertNext::FindOld(st, key) = settings::start_upsert("page.size", req, 3) else { panic!() };
    assert_eq!(key, "page.size");
    let settings::UpsertNext::Write(st, key, req, by) = st.on_old(None) else { panic!() };
    assert_eq!((key.as_str(), req.value.as_deref(), by), ("page.size", Some("20"), 3));
    let saved = rust_api_ddd::modules::setting::entity::SystemSetting {
        id: 1,
        key: "page.size".to_string(),
        value: Some("20".to_string()),
        description: None,
        updated_by: Some(3),
        updated_at: 0,
    };
    let o = st.on_written(saved);
    let a = o.audit.unwrap();
    assert_eq!(a.entity_type, "system_setting");
    assert_eq!(a.entity_id, "page.size");
    assert_eq!(a.description, "setting key page.size");
    assert_eq!(o.evict, vec!["setting:key:page.size".to_string(), "setting:list".to_string()]);
}
