//! The `Menu` entity and the nested node it is shown as.

use vstd::prelude::*;

verus! {

/// A row of the `menus` table with its `menu_permissions` join. A menu with
/// an empty `permissions` list is visible to any authenticated user;
/// otherwise the caller needs at least one of the listed permissions.
/// Timestamps are Unix times in microseconds.
#[derive(Debug, Clone)]
pub struct Menu {
    pub id: i32,
    pub parent_id: Option<i32>,
    pub name: String,
    pub slug: String,
    pub path: Option<String>,
    pub icon: Option<String>,
    pub order_index: i32,
    pub is_active: bool,
    pub permissions: Vec<String>,
    pub created_at: i64,
    pub updated_at: i64,
}

/// Nested tree node returned for the admin tree (unfiltered) and for the
/// caller's own menu (filtered to the caller's permissions).
#[derive(Debug)]
pub struct MenuTreeNode {
    pub id: i32,
    pub parent_id: Option<i32>,
    pub name: String,
    pub slug: String,
    pub path: Option<String>,
    pub icon: Option<String>,
    pub order_index: i32,
    pub is_active: bool,
    pub permissions: Vec<String>,
    pub children: Vec<MenuTreeNode>,
}

/// Mathematical model of a tree node: the node's own fields and the models
/// of its children, in order.
pub ghost struct TreeView {
    pub id: i32,
    pub parent_id: Option<i32>,
    pub name: String,
    pub slug: String,
    pub path: Option<String>,
    pub icon: Option<String>,
    pub order_index: i32,
    pub is_active: bool,
    pub permissions: Vec<String>,
    pub children: Seq<TreeView>,
}

/// The node that shows menu `m` with the given children.
pub open spec fn node_of(m: Menu, children: Seq<TreeView>) -> TreeView {
    TreeView {
        id: m.id,
        parent_id: m.parent_id,
        name: m.name,
        slug: m.slug,
        path: m.path,
        icon: m.icon,
        order_index: m.order_index,
        is_active: m.is_active,
        permissions: m.permissions,
        children: children,
    }
}

/// Node `t` shows menu `m` (its own fields, children aside).
pub open spec fn shows(t: TreeView, m: Menu) -> bool {
    t == node_of(m, t.children)
}

impl MenuTreeNode {
    pub open spec fn tview(self) -> TreeView
        decreases self,
    {
        TreeView {
            id: self.id,
            parent_id: self.parent_id,
            name: self.name,
            slug: self.slug,
            path: self.path,
            icon: self.icon,
            order_index: self.order_index,
            is_active: self.is_active,
            permissions: self.permissions,
            children: Seq::new(
                self.children@.len(),
                |i: int|
                    if 0 <= i < self.children@.len() {
                        self.children@[i].tview()
                    } else {
                        arbitrary()
                    },
            ),
        }
    }

    /// A childless node showing `m` (`From<Menu> for MenuTreeNode`).
    pub fn from(m: Menu) -> (n: MenuTreeNode)
        ensures
            n.tview() == node_of(m, Seq::empty()),
    {
        let n = MenuTreeNode {
            id: m.id,
            parent_id: m.parent_id,
            name: m.name,
            slug: m.slug,
            path: m.path,
            icon: m.icon,
            order_index: m.order_index,
            is_active: m.is_active,
            permissions: m.permissions,
            children: Vec::new(),
        };
        assert(n.tview().children =~= Seq::<TreeView>::empty());
        n
    }
}

/// Models of a sequence of nodes.
pub open spec fn views(ns: Seq<MenuTreeNode>) -> Seq<TreeView> {
    ns.map_values(|n: MenuTreeNode| n.tview())
}

} // verus!
