use rust_api_ddd::modules::menu::entity::Menu;
use rust_api_ddd::modules::menu::hierarchy::{parent_chain_stops, would_create_cycle};
use rust_api_ddd::modules::menu::tree::build_tree;
use rust_api_ddd::modules::menu::visibility::filter_visible;

/// A bare-bones menu: only `id`, `parent_id` and `order_index` matter for
/// the tree and cycle tests.
fn menu(id: i32, parent_id: Option<i32>, order_index: i32) -> Menu {
    Menu {
        id,
        parent_id,
        name: format!("menu-{id}"),
        slug: format!("menu-{id}"),
        path: None,
        icon: None,
        order_index,
        is_active: true,
        permissions: Vec::new(),
        created_at: 0,
        updated_at: 0,
    }
}

fn menu_with_permissions(id: i32, parent_id: Option<i32>, permissions: &[&str]) -> Menu {
    let mut m = menu(id, parent_id, 0);
    m.permissions = permissions.iter().map(|s| s.to_string()).collect();
    m
}

// ---- build_tree ----

#[test]
fn build_tree_nests_children_under_their_parent() {
    let menus = vec![menu(1, None, 0), menu(2, Some(1), 0), menu(3, Some(1), 0)];

    let tree = build_tree(menus);

    assert_eq!(tree.len(), 1);
    assert_eq!(tree[0].id, 1);
    assert_eq!(tree[0].children.len(), 2);
    assert_eq!(tree[0].children[0].id, 2);
    assert_eq!(tree[0].children[1].id, 3);
}

#[test]
fn build_tree_sorts_siblings_by_order_index() {
    let menus = vec![
        menu(1, None, 0),
        menu(2, Some(1), 5),
        menu(3, Some(1), 1),
        menu(4, Some(1), 3),
    ];

    let tree = build_tree(menus);

    let child_ids: Vec<i32> = tree[0].children.iter().map(|c| c.id).collect();
    assert_eq!(child_ids, vec![3, 4, 2]);
}

#[test]
fn build_tree_nests_multiple_levels_deep() {
    let menus = vec![menu(1, None, 0), menu(2, Some(1), 0), menu(3, Some(2), 0)];

    let tree = build_tree(menus);

    assert_eq!(tree[0].children[0].id, 2);
    assert_eq!(tree[0].children[0].children[0].id, 3);
}

#[test]
fn build_tree_drops_subtree_when_parent_is_missing_from_input() {
    let menus = vec![menu(1, None, 0), menu(2, Some(99), 0), menu(3, Some(2), 0)];

    let tree = build_tree(menus);

    assert_eq!(tree.len(), 1);
    assert_eq!(tree[0].id, 1);
    assert!(tree[0].children.is_empty());
}

#[test]
fn build_tree_keeps_input_order_among_equal_order_index() {
    let menus = vec![
        menu(1, None, 2),
        menu(5, None, 1),
        menu(2, None, 2),
        menu(7, Some(2), 0),
        menu(6, Some(2), 0),
    ];

    let tree = build_tree(menus);

    let root_ids: Vec<i32> = tree.iter().map(|c| c.id).collect();
    assert_eq!(root_ids, vec![5, 1, 2]);
    let kid_ids: Vec<i32> = tree[2].children.iter().map(|c| c.id).collect();
    assert_eq!(kid_ids, vec![7, 6]);
}

#[test]
fn build_tree_gives_children_to_the_first_node_with_their_parent_id() {
    // Two menus share id 1: the children of 1 go to the first one reached.
    let menus = vec![menu(1, None, 0), menu(1, None, 1), menu(3, Some(1), 0)];

    let tree = build_tree(menus);

    assert_eq!(tree.len(), 2);
    assert_eq!(tree[0].children.len(), 1);
    assert_eq!(tree[0].children[0].id, 3);
    assert!(tree[1].children.is_empty());
}

#[test]
fn build_tree_places_every_menu_whatever_the_input_order() {
    // Children listed before their parents still end up under them.
    let menus = vec![
        menu(5, Some(2), 0),
        menu(3, Some(2), 1),
        menu(2, Some(1), 1),
        menu(4, Some(1), 0),
        menu(1, None, 0),
    ];

    let tree = build_tree(menus);

    assert_eq!(tree.len(), 1);
    assert_eq!(tree[0].id, 1);
    let level: Vec<i32> = tree[0].children.iter().map(|c| c.id).collect();
    assert_eq!(level, vec![4, 2]);
    assert!(tree[0].children[0].children.is_empty());
    let below: Vec<i32> = tree[0].children[1].children.iter().map(|c| c.id).collect();
    assert_eq!(below, vec![5, 3]);
}

#[test]
fn build_tree_of_nothing_is_empty() {
    assert!(build_tree(Vec::new()).is_empty());
}

#[test]
fn build_tree_copies_the_menu_fields() {
    let mut m = menu_with_permissions(4, None, &["user.manage"]);
    m.path = Some("/users".to_string());
    m.icon = Some("users".to_string());
    m.is_active = false;

    let tree = build_tree(vec![m]);

    assert_eq!(tree[0].name, "menu-4");
    assert_eq!(tree[0].slug, "menu-4");
    assert_eq!(tree[0].path.as_deref(), Some("/users"));
    assert_eq!(tree[0].icon.as_deref(), Some("users"));
    assert!(!tree[0].is_active);
    assert_eq!(tree[0].permissions, vec!["user.manage".to_string()]);
    assert_eq!(tree[0].parent_id, None);
}

// ---- would_create_cycle ----

#[test]
fn cycle_detected_when_reparenting_under_self() {
    let all = vec![menu(1, None, 0)];
    assert!(would_create_cycle(1, 1, &all));
}

#[test]
fn cycle_detected_when_reparenting_under_own_descendant() {
    // 1 -> 2 -> 3; trying to move 1 under 3 (its own grandchild).
    let all = vec![menu(1, None, 0), menu(2, Some(1), 0), menu(3, Some(2), 0)];
    assert!(would_create_cycle(1, 3, &all));
}

#[test]
fn no_cycle_when_reparenting_under_unrelated_menu() {
    let all = vec![menu(1, None, 0), menu(2, None, 0), menu(3, Some(1), 0)];
    assert!(!would_create_cycle(3, 2, &all));
}

#[test]
fn no_cycle_when_reparenting_under_a_sibling() {
    let all = vec![menu(1, None, 0), menu(2, Some(1), 0), menu(3, Some(1), 0)];
    assert!(!would_create_cycle(2, 3, &all));
}

#[test]
fn cycle_check_follows_the_last_record_of_an_id() {
    // Menu 3 is listed twice; the later record (parent 1) is the one used.
    let all = vec![menu(1, None, 0), menu(3, None, 0), menu(3, Some(1), 0)];
    assert!(would_create_cycle(1, 3, &all));
}

#[test]
fn chain_stops_at_the_top_level_or_at_the_target() {
    let all = vec![menu(1, None, 0), menu(2, Some(1), 0), menu(3, Some(2), 0)];
    assert!(parent_chain_stops(&all, 3, 9));
    assert!(parent_chain_stops(&all, 3, 2));
}

#[test]
fn chain_round_a_cycle_does_not_stop() {
    let all = vec![menu(2, Some(3), 0), menu(3, Some(2), 0)];
    assert!(!parent_chain_stops(&all, 2, 1));
    assert!(parent_chain_stops(&all, 2, 3));
}

// ---- filter_visible ----

#[test]
fn filter_visible_keeps_menus_with_no_permission_requirement() {
    let menus = vec![menu(1, None, 0)];
    let visible = filter_visible(menus, &[]);
    assert_eq!(visible.len(), 1);
}

#[test]
fn filter_visible_keeps_menu_when_caller_has_a_matching_permission() {
    let menus = vec![menu_with_permissions(1, None, &["user.manage"])];
    let visible = filter_visible(menus, &["user.manage".to_string()]);
    assert_eq!(visible.len(), 1);
}

#[test]
fn filter_visible_drops_menu_when_caller_lacks_every_required_permission() {
    let menus = vec![menu_with_permissions(1, None, &["user.manage"])];
    let visible = filter_visible(menus, &["audit.read".to_string()]);
    assert!(visible.is_empty());
}

#[test]
fn filter_visible_drops_inactive_menus_regardless_of_permissions() {
    let mut m = menu(1, None, 0);
    m.is_active = false;
    let visible = filter_visible(vec![m], &[]);
    assert!(visible.is_empty());
}

#[test]
fn filter_visible_keeps_menu_when_any_one_of_several_permissions_is_held() {
    let menus = vec![
        menu_with_permissions(1, None, &["a.read", "b.read"]),
        menu_with_permissions(2, None, &["c.read"]),
    ];
    let visible = filter_visible(menus, &["x".to_string(), "b.read".to_string()]);
    assert_eq!(visible.len(), 1);
    assert_eq!(visible[0].id, 1);
}

// ---- build_tree + filter_visible combined ----

#[test]
fn hiding_a_parent_also_hides_its_children_in_the_visible_tree() {
    let admin_only_parent = menu_with_permissions(1, None, &["admin.only"]);
    let child = menu(2, Some(1), 0);

    let visible = filter_visible(vec![admin_only_parent, child], &[]);
    let tree = build_tree(visible);

    assert!(tree.is_empty());
}
