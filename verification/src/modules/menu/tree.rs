//! Nesting a flat list of menus into a tree, ordered by `order_index`.

use vstd::prelude::*;

use super::entity::{Menu, MenuTreeNode, TreeView, node_of, shows, views};

verus! {

// ---------------------------------------------------------------------
// Stable ordering by `order_index`
// ---------------------------------------------------------------------

/// Where a menu with order `key` goes in `s`: before the first element
/// whose order is greater, so equal keys keep their input order.
pub open spec fn insert_pos(s: Seq<Menu>, key: i32) -> nat
    decreases s.len(),
{
    if s.len() == 0 {
        0
    } else if s[0].order_index > key {
        0
    } else {
        1 + insert_pos(s.drop_first(), key)
    }
}

/// `s` ordered by `order_index`, menus with equal order keeping their
/// relative order (a stable sort by key, as `sort_by_key` does).
pub open spec fn sort_by_order(s: Seq<Menu>) -> Seq<Menu>
    decreases s.len(),
{
    if s.len() == 0 {
        s
    } else {
        let t = sort_by_order(s.drop_last());
        t.insert(insert_pos(t, s.last().order_index) as int, s.last())
    }
}

/// `s` is ordered by non-decreasing `order_index`.
pub open spec fn ordered(s: Seq<Menu>) -> bool {
    forall|i: int, j: int| 0 <= i < j < s.len() ==> s[i].order_index <= s[j].order_index
}

proof fn lemma_insert_pos_at(s: Seq<Menu>, key: i32, j: int)
    requires
        0 <= j <= s.len(),
        forall|q: int| 0 <= q < j ==> (#[trigger] s[q]).order_index <= key,
        j == s.len() || s[j].order_index > key,
    ensures
        insert_pos(s, key) == j,
    decreases j,
{
    if j > 0 {
        let t = s.drop_first();
        assert forall|q: int| 0 <= q < j - 1 implies (#[trigger] t[q]).order_index <= key by {
            assert(t[q] == s[q + 1]);
        }
        if j - 1 < t.len() {
            assert(t[j - 1] == s[j]);
        }
        lemma_insert_pos_at(t, key, j - 1);
    }
}

proof fn lemma_insert_pos_bounds(s: Seq<Menu>, key: i32)
    ensures
        insert_pos(s, key) <= s.len(),
        forall|q: int| 0 <= q < insert_pos(s, key) ==> (#[trigger] s[q]).order_index <= key,
        insert_pos(s, key) < s.len() ==> s[insert_pos(s, key) as int].order_index > key,
    decreases s.len(),
{
    if s.len() > 0 && s[0].order_index <= key {
        let t = s.drop_first();
        lemma_insert_pos_bounds(t, key);
        assert forall|q: int| 0 <= q < insert_pos(s, key) implies (#[trigger] s[q]).order_index
            <= key by {
            if q > 0 {
                assert(s[q] == t[q - 1]);
            }
        }
        if insert_pos(s, key) < s.len() {
            assert(s[insert_pos(s, key) as int] == t[insert_pos(t, key) as int]);
        }
    }
}

/// Ordering by `order_index` yields an ordered sequence of the same length.
pub proof fn lemma_sort_by_order_ordered(s: Seq<Menu>)
    ensures
        ordered(sort_by_order(s)),
        sort_by_order(s).len() == s.len(),
    decreases s.len(),
{
    if s.len() > 0 {
        let t = sort_by_order(s.drop_last());
        lemma_sort_by_order_ordered(s.drop_last());
        let x = s.last();
        let p = insert_pos(t, x.order_index) as int;
        lemma_insert_pos_bounds(t, x.order_index);
        let r = t.insert(p, x);
        assert forall|i: int, j: int| 0 <= i < j < r.len() implies r[i].order_index
            <= r[j].order_index by {
            if j < p {
            } else if j == p {
                assert(r[i] == t[i]);
            } else if i < p {
                assert(r[j] == t[j - 1]);
                assert(r[i] == t[i]);
            } else if i == p {
                assert(r[j] == t[j - 1]);
                assert(t[p].order_index > x.order_index);
                if j - 1 > p {
                    assert(t[p].order_index <= t[j - 1].order_index);
                }
            } else {
                assert(r[j] == t[j - 1]);
                assert(r[i] == t[i - 1]);
            }
        }
    }
}

/// Sorts `v` by `order_index`, stably (insertion sort).
pub fn sort_menus(v: Vec<Menu>) -> (r: Vec<Menu>)
    ensures
        r@ == sort_by_order(v@),
{
    let ghost orig = v@;
    let mut src = v;
    let mut out: Vec<Menu> = Vec::new();
    let ghost mut done: int = 0;
    assert(orig.take(0) =~= Seq::<Menu>::empty());
    while src.len() > 0
        invariant
            0 <= done <= orig.len(),
            src@ == orig.skip(done),
            out@ == sort_by_order(orig.take(done)),
        decreases src@.len(),
    {
        let m = src.remove(0);
        let key = m.order_index;
        let mut j: usize = 0;
        while j < out.len() && out[j].order_index <= key
            invariant
                j <= out@.len(),
                forall|q: int| 0 <= q < j ==> (#[trigger] out@[q]).order_index <= key,
            decreases out@.len() - j,
        {
            j = j + 1;
        }
        proof {
            lemma_insert_pos_at(out@, key, j as int);
            assert(orig.take(done + 1).drop_last() =~= orig.take(done));
            assert(orig.take(done + 1).last() == m);
        }
        out.insert(j, m);
        proof {
            done = done + 1;
            assert(src@ =~= orig.skip(done));
        }
    }
    assert(orig.take(done) =~= orig);
    out
}

// ---------------------------------------------------------------------
// Grouping by parent
// ---------------------------------------------------------------------

/// The menus of `ms` whose parent is `pid`, in input order.
pub open spec fn kids_of(ms: Seq<Menu>, pid: i32) -> Seq<Menu>
    decreases ms.len(),
{
    if ms.len() == 0 {
        Seq::empty()
    } else if ms.last().parent_id == Some(pid) {
        kids_of(ms.drop_last(), pid).push(ms.last())
    } else {
        kids_of(ms.drop_last(), pid)
    }
}

/// The menus of `ms` without a parent, in input order.
pub open spec fn roots_of(ms: Seq<Menu>) -> Seq<Menu>
    decreases ms.len(),
{
    if ms.len() == 0 {
        Seq::empty()
    } else if ms.last().parent_id is None {
        roots_of(ms.drop_last()).push(ms.last())
    } else {
        roots_of(ms.drop_last())
    }
}

/// How many menus of `ms` still wait to be attached: those whose parent id
/// is not yet in `used`.
pub open spec fn pending(ms: Seq<Menu>, used: Set<i32>) -> nat
    decreases ms.len(),
{
    if ms.len() == 0 {
        0
    } else {
        let rest = pending(ms.drop_last(), used);
        match ms.last().parent_id {
            Some(p) => if used.contains(p) {
                rest
            } else {
                rest + 1
            },
            None => rest,
        }
    }
}

pub proof fn lemma_pending_mono(ms: Seq<Menu>, u1: Set<i32>, u2: Set<i32>)
    requires
        u1.subset_of(u2),
    ensures
        pending(ms, u2) <= pending(ms, u1),
    decreases ms.len(),
{
    if ms.len() > 0 {
        lemma_pending_mono(ms.drop_last(), u1, u2);
    }
}

pub proof fn lemma_pending_drops(ms: Seq<Menu>, used: Set<i32>, p: i32)
    requires
        !used.contains(p),
        kids_of(ms, p).len() > 0,
    ensures
        pending(ms, used.insert(p)) < pending(ms, used),
    decreases ms.len(),
{
    let rest = ms.drop_last();
    if ms.last().parent_id == Some(p) {
        lemma_pending_mono(rest, used, used.insert(p));
    } else {
        lemma_pending_drops(rest, used, p);
    }
}

// ---------------------------------------------------------------------
// The tree
// ---------------------------------------------------------------------

/// The node for `m` and the parent ids consumed after attaching it. The
/// children of a parent id are attached once, to the first node with that
/// id that is reached; a node reached later gets none.
pub open spec fn attach(ms: Seq<Menu>, m: Menu, used: Set<i32>) -> (TreeView, Set<i32>)
    decreases pending(ms, used), 0nat,
{
    if !used.contains(m.id) && kids_of(ms, m.id).len() > 0 {
        proof {
            lemma_pending_drops(ms, used, m.id);
        }
        let r = attach_all(ms, sort_by_order(kids_of(ms, m.id)), used.insert(m.id));
        (node_of(m, r.0), r.1)
    } else {
        (node_of(m, Seq::empty()), used)
    }
}

/// The nodes for `level`, attached left to right.
pub open spec fn attach_all(ms: Seq<Menu>, level: Seq<Menu>, used: Set<i32>) -> (
    Seq<TreeView>,
    Set<i32>,
)
    decreases pending(ms, used), level.len() + 1,
{
    if level.len() == 0 {
        (Seq::empty(), used)
    } else {
        let a = attach(ms, level[0], used);
        let u1 = used.union(a.1);
        proof {
            lemma_pending_mono(ms, used, u1);
        }
        let b = attach_all(ms, level.drop_first(), u1);
        (seq![a.0] + b.0, b.1)
    }
}

/// The forest that `ms` nests into: roots ordered by `order_index`, each
/// with its children ordered the same way. A menu whose parent is not in
/// `ms` is left out along with its subtree.
pub open spec fn forest(ms: Seq<Menu>) -> Seq<TreeView> {
    attach_all(ms, sort_by_order(roots_of(ms)), Set::empty()).0
}


/// A consumed-set only grows while attaching.
pub proof fn lemma_attach_grows(ms: Seq<Menu>, m: Menu, used: Set<i32>)
    ensures
        used.subset_of(attach(ms, m, used).1),
    decreases pending(ms, used), 0nat,
{
    if !used.contains(m.id) && kids_of(ms, m.id).len() > 0 {
        lemma_pending_drops(ms, used, m.id);
        lemma_attach_all_grows(ms, sort_by_order(kids_of(ms, m.id)), used.insert(m.id));
    }
}

/// A consumed-set only grows while attaching a level.
pub proof fn lemma_attach_all_grows(ms: Seq<Menu>, level: Seq<Menu>, used: Set<i32>)
    ensures
        used.subset_of(attach_all(ms, level, used).1),
    decreases pending(ms, used), level.len() + 1,
{
    if level.len() > 0 {
        let a = attach(ms, level[0], used);
        let u1 = used.union(a.1);
        lemma_pending_mono(ms, used, u1);
        lemma_attach_all_grows(ms, level.drop_first(), u1);
    }
}

/// The menus of one parent id, not yet attached.
struct Group {
    pid: i32,
    kids: Vec<Menu>,
}

/// `groups` holds, once each, exactly the parent ids outside `used` that
/// have children in `ms`, each with those children in input order.
spec fn groups_inv(groups: Seq<Group>, ms: Seq<Menu>, used: Set<i32>) -> bool {
    &&& forall|i: int|
        #![trigger groups[i]]
        0 <= i < groups.len() ==> {
            &&& !used.contains(groups[i].pid)
            &&& groups[i].kids@ == kids_of(ms, groups[i].pid)
            &&& groups[i].kids@.len() > 0
        }
    &&& forall|i: int, j: int|
        0 <= i < j < groups.len() ==> (#[trigger] groups[i]).pid != (#[trigger] groups[j]).pid
    &&& forall|p: i32|
        !used.contains(p) && #[trigger] kids_of(ms, p).len() > 0 ==> exists|i: int|
            0 <= i < groups.len() && (#[trigger] groups[i]).pid == p
}

/// Index of the group for `pid`, if any.
fn find_group(groups: &Vec<Group>, pid: i32) -> (r: Option<usize>)
    ensures
        match r {
            Some(i) => i < groups@.len() && groups@[i as int].pid == pid,
            None => forall|i: int| 0 <= i < groups@.len() ==> (#[trigger] groups@[i]).pid != pid,
        },
{
    let mut i: usize = 0;
    while i < groups.len()
        invariant
            i <= groups@.len(),
            forall|q: int| 0 <= q < i ==> (#[trigger] groups@[q]).pid != pid,
        decreases groups@.len() - i,
    {
        if groups[i].pid == pid {
            return Some(i);
        }
        i = i + 1;
    }
    None
}

/// Builds the node for `m`, consuming its children from `groups`.
fn attach_node(m: Menu, groups: &mut Vec<Group>, Ghost(ms): Ghost<Seq<Menu>>, Ghost(used): Ghost<Set<i32>>) -> (r: (MenuTreeNode, Ghost<Set<i32>>))
    requires
        groups_inv(old(groups)@, ms, used),
    ensures
        groups_inv(final(groups)@, ms, r.1@),
        (r.0.tview(), r.1@) == attach(ms, m, used),
    decreases pending(ms, used), 0nat,
{
    let ghost m0 = m;
    match find_group(groups, m.id) {
        Some(idx) => {
            let g = groups.remove(idx);
            let ghost used2 = used.insert(m0.id);
            proof {
                lemma_pending_drops(ms, used, m0.id);
                let gs = groups@;
                assert forall|p: i32|
                    !used2.contains(p) && #[trigger] kids_of(ms, p).len() > 0 implies exists|i: int|
                    0 <= i < gs.len() && (#[trigger] gs[i]).pid == p by {
                    let i = choose|i: int| 0 <= i < old(groups)@.len() && (#[trigger] old(groups)@[i]).pid == p;
                    if i < idx {
                        assert(gs[i] == old(groups)@[i]);
                    } else {
                        assert(i != idx);
                        assert(gs[i - 1] == old(groups)@[i]);
                    }
                }
                assert forall|i: int, j: int|
                    0 <= i < j < gs.len() implies (#[trigger] gs[i]).pid != (#[trigger] gs[j]).pid by {
                    let oi = if i < idx { i } else { i + 1 };
                    let oj = if j < idx { j } else { j + 1 };
                    assert(gs[i] == old(groups)@[oi]);
                    assert(gs[j] == old(groups)@[oj]);
                }
                assert forall|i: int| #![trigger gs[i]] 0 <= i < gs.len() implies !used2.contains(gs[i].pid) by {
                    let oi = if i < idx { i } else { i + 1 };
                    assert(gs[i] == old(groups)@[oi]);
                    assert(old(groups)@[oi].pid != old(groups)@[idx as int].pid);
                }
            }
            let kids = sort_menus(g.kids);
            let (children, Ghost(u)) = attach_level(kids, groups, Ghost(ms), Ghost(used2));
            let mut node = MenuTreeNode::from(m);
            node.children = children;
            proof {
                assert(node.tview().children =~= views(node.children@));
            }
            (node, Ghost(u))
        },
        None => {
            let node = MenuTreeNode::from(m);
            (node, Ghost(used))
        },
    }
}

/// Builds the nodes of one level, left to right.
fn attach_level(level: Vec<Menu>, groups: &mut Vec<Group>, Ghost(ms): Ghost<Seq<Menu>>, Ghost(used): Ghost<Set<i32>>) -> (r: (Vec<MenuTreeNode>, Ghost<Set<i32>>))
    requires
        groups_inv(old(groups)@, ms, used),
    ensures
        groups_inv(final(groups)@, ms, r.1@),
        (views(r.0@), r.1@) == attach_all(ms, level@, used),
    decreases pending(ms, used), level@.len() + 1,
{
    let mut level = level;
    if level.len() == 0 {
        let out: Vec<MenuTreeNode> = Vec::new();
        proof {
            assert(views(out@) =~= Seq::<TreeView>::empty());
        }
        return (out, Ghost(used));
    }
    let ghost lv = level@;
    let first = level.remove(0);
    let (t, Ghost(u1)) = attach_node(first, groups, Ghost(ms), Ghost(used));
    proof {
        lemma_attach_grows(ms, lv[0], used);
        assert(used.union(u1) =~= u1);
        lemma_pending_mono(ms, used, u1);
        assert(level@ =~= lv.drop_first());
    }
    let (mut rest, Ghost(u2)) = attach_level(level, groups, Ghost(ms), Ghost(u1));
    let ghost rest_v = views(rest@);
    rest.insert(0, t);
    proof {
        assert(views(rest@) =~= seq![t.tview()] + rest_v);
    }
    (rest, Ghost(u2))
}

/// Nests a flat list into a tree via `parent_id`, siblings ordered by
/// `order_index`. A menu whose parent is not in `menus` is dropped along
/// with its subtree instead of being promoted to a root.
pub fn build_tree(menus: Vec<Menu>) -> (tree: Vec<MenuTreeNode>)
    ensures
        views(tree@) == forest(menus@),
{
    let ghost ms = menus@;
    let mut src = menus;
    let mut roots: Vec<Menu> = Vec::new();
    let mut groups: Vec<Group> = Vec::new();
    let ghost mut done: int = 0;
    proof {
        assert(ms.take(0) =~= Seq::<Menu>::empty());
    }
    while src.len() > 0
        invariant
            0 <= done <= ms.len(),
            src@ == ms.skip(done),
            roots@ == roots_of(ms.take(done)),
            groups_inv(groups@, ms.take(done), Set::empty()),
        decreases src@.len(),
    {
        let m = src.remove(0);
        let ghost t0 = ms.take(done);
        let ghost t1 = ms.take(done + 1);
        proof {
            assert(t1.drop_last() =~= t0);
            assert(t1.last() == m);
        }
        match m.parent_id {
            None => {
                proof {
                    assert forall|p: i32| #[trigger] kids_of(t1, p) == kids_of(t0, p) by {}
                }
                roots.push(m);
            },
            Some(pid) => {
                proof {
                    assert forall|p: i32| p != pid implies #[trigger] kids_of(t1, p) == kids_of(t0, p) by {}
                    assert(kids_of(t1, pid) == kids_of(t0, pid).push(m));
                }
                let ghost gs0 = groups@;
                match find_group(&groups, pid) {
                    Some(idx) => {
                        let mut g = groups.remove(idx);
                        g.kids.push(m);
                        groups.insert(idx, g);
                        proof {
                            let gs = groups@;
                            assert forall|i: int| 0 <= i < gs.len() && i != idx implies #[trigger] gs[i] == gs0[i] by {}
                            assert forall|p: i32|
                                !Set::<i32>::empty().contains(p) && #[trigger] kids_of(t1, p).len() > 0 implies exists|i: int|
                                0 <= i < gs.len() && (#[trigger] gs[i]).pid == p by {
                                if p != pid {
                                    let i = choose|i: int| 0 <= i < gs0.len() && (#[trigger] gs0[i]).pid == p;
                                    assert(gs[i] == gs0[i]);
                                } else {
                                    assert(gs[idx as int].pid == p);
                                }
                            }
                            assert forall|i: int, j: int|
                                0 <= i < j < gs.len() implies (#[trigger] gs[i]).pid != (#[trigger] gs[j]).pid by {
                                assert(gs[i].pid == gs0[i].pid);
                                assert(gs[j].pid == gs0[j].pid);
                            }
                        }
                    },
                    None => {
                        let mut kids: Vec<Menu> = Vec::new();
                        kids.push(m);
                        groups.push(Group { pid, kids });
                        proof {
                            let gs = groups@;
                            assert(kids_of(t0, pid).len() == 0);
                            assert(kids_of(t1, pid) =~= seq![m]);
                            assert forall|i: int| 0 <= i < gs0.len() implies #[trigger] gs[i] == gs0[i] by {}
                            assert forall|p: i32|
                                !Set::<i32>::empty().contains(p) && #[trigger] kids_of(t1, p).len() > 0 implies exists|i: int|
                                0 <= i < gs.len() && (#[trigger] gs[i]).pid == p by {
                                if p != pid {
                                    let i = choose|i: int| 0 <= i < gs0.len() && (#[trigger] gs0[i]).pid == p;
                                    assert(gs[i] == gs0[i]);
                                } else {
                                    assert(gs[gs0.len() as int].pid == p);
                                }
                            }
                            assert forall|i: int, j: int|
                                0 <= i < j < gs.len() implies (#[trigger] gs[i]).pid != (#[trigger] gs[j]).pid by {
                                assert(gs[i] == gs0[i]);
                                if j < gs0.len() {
                                    assert(gs[j] == gs0[j]);
                                }
                            }
                        }
                    },
                }
            },
        }
        proof {
            done = done + 1;
            assert(src@ =~= ms.skip(done));
        }
    }
    proof {
        assert(ms.take(done) =~= ms);
    }
    let sorted_roots = sort_menus(roots);
    let (tree, _) = attach_level(sorted_roots, &mut groups, Ghost(ms), Ghost(Set::empty()));
    tree
}


// ---------------------------------------------------------------------
// What the tree guarantees
// ---------------------------------------------------------------------

/// Node `t` and all nodes below it show menus of `ms`; each node's children
/// name it as their parent and are ordered by `order_index`.
pub open spec fn well_nested(t: TreeView, ms: Seq<Menu>) -> bool
    decreases t,
{
    &&& exists|k: int| 0 <= k < ms.len() && shows(t, #[trigger] ms[k])
    &&& forall|i: int| 0 <= i < t.children.len() ==> (#[trigger] t.children[i]).parent_id == Some(t.id)
    &&& forall|i: int, j: int|
        0 <= i < j < t.children.len() ==> (#[trigger] t.children[i]).order_index
            <= (#[trigger] t.children[j]).order_index
    &&& forall|i: int| 0 <= i < t.children.len() ==> well_nested(#[trigger] t.children[i], ms)
}

proof fn lemma_kids_of_members(ms: Seq<Menu>, pid: i32)
    ensures
        forall|i: int|
            0 <= i < kids_of(ms, pid).len() ==> (#[trigger] kids_of(ms, pid)[i]).parent_id == Some(pid)
                && ms.contains(kids_of(ms, pid)[i]),
    decreases ms.len(),
{
    if ms.len() > 0 {
        let rest = ms.drop_last();
        lemma_kids_of_members(rest, pid);
        let ks = kids_of(ms, pid);
        assert forall|i: int| 0 <= i < ks.len() implies (#[trigger] ks[i]).parent_id == Some(pid) && ms.contains(ks[i]) by {
            if i < kids_of(rest, pid).len() {
                let k = choose|k: int| 0 <= k < rest.len() && rest[k] == kids_of(rest, pid)[i];
                assert(ms[k] == rest[k]);
            } else {
                assert(ms[ms.len() - 1] == ms.last());
            }
        }
    }
}

proof fn lemma_roots_of_members(ms: Seq<Menu>)
    ensures
        forall|i: int|
            0 <= i < roots_of(ms).len() ==> (#[trigger] roots_of(ms)[i]).parent_id is None
                && ms.contains(roots_of(ms)[i]),
    decreases ms.len(),
{
    if ms.len() > 0 {
        let rest = ms.drop_last();
        lemma_roots_of_members(rest);
        let rs = roots_of(ms);
        assert forall|i: int| 0 <= i < rs.len() implies (#[trigger] rs[i]).parent_id is None && ms.contains(rs[i]) by {
            if i < roots_of(rest).len() {
                let k = choose|k: int| 0 <= k < rest.len() && rest[k] == roots_of(rest)[i];
                assert(ms[k] == rest[k]);
            } else {
                assert(ms[ms.len() - 1] == ms.last());
            }
        }
    }
}

/// Ordering keeps exactly the elements it is given (each output element is
/// an input element).
pub proof fn lemma_sort_by_order_members(s: Seq<Menu>)
    ensures
        forall|i: int| 0 <= i < sort_by_order(s).len() ==> s.contains(#[trigger] sort_by_order(s)[i]),
    decreases s.len(),
{
    lemma_sort_by_order_ordered(s);
    if s.len() > 0 {
        let rest = s.drop_last();
        lemma_sort_by_order_members(rest);
        lemma_sort_by_order_ordered(rest);
        let t = sort_by_order(rest);
        let p = insert_pos(t, s.last().order_index) as int;
        lemma_insert_pos_bounds(t, s.last().order_index);
        let r = sort_by_order(s);
        assert forall|i: int| 0 <= i < r.len() implies s.contains(#[trigger] r[i]) by {
            if i < p {
                assert(r[i] == t[i]);
                let k = choose|k: int| 0 <= k < rest.len() && rest[k] == t[i];
                assert(s[k] == rest[k]);
            } else if i == p {
                assert(s[s.len() - 1] == s.last());
            } else {
                assert(r[i] == t[i - 1]);
                let k = choose|k: int| 0 <= k < rest.len() && rest[k] == t[i - 1];
                assert(s[k] == rest[k]);
            }
        }
    }
}

proof fn lemma_attach_nested(ms: Seq<Menu>, m: Menu, used: Set<i32>)
    requires
        ms.contains(m),
    ensures
        well_nested(attach(ms, m, used).0, ms),
        shows(attach(ms, m, used).0, m),
    decreases pending(ms, used), 0nat,
{
    if !used.contains(m.id) && kids_of(ms, m.id).len() > 0 {
        lemma_pending_drops(ms, used, m.id);
        let ks = kids_of(ms, m.id);
        let sk = sort_by_order(ks);
        lemma_kids_of_members(ms, m.id);
        lemma_sort_by_order_members(ks);
        lemma_sort_by_order_ordered(ks);
        assert forall|i: int| 0 <= i < sk.len() implies ms.contains(#[trigger] sk[i]) by {
            let k = choose|k: int| 0 <= k < ks.len() && ks[k] == sk[i];
        }
        lemma_attach_all_nested(ms, sk, used.insert(m.id));
        let r = attach_all(ms, sk, used.insert(m.id));
        let t = node_of(m, r.0);
        assert forall|i: int| 0 <= i < t.children.len() implies (#[trigger] t.children[i]).parent_id == Some(t.id) by {
            let k = choose|k: int| 0 <= k < ks.len() && ks[k] == sk[i];
        }
        let km = choose|k: int| 0 <= k < ms.len() && ms[k] == m;
        assert(shows(t, ms[km]));
    } else {
        let km = choose|k: int| 0 <= k < ms.len() && ms[k] == m;
        assert(shows(node_of(m, Seq::empty()), ms[km]));
    }
}

proof fn lemma_attach_all_nested(ms: Seq<Menu>, level: Seq<Menu>, used: Set<i32>)
    requires
        forall|i: int| 0 <= i < level.len() ==> ms.contains(#[trigger] level[i]),
    ensures
        attach_all(ms, level, used).0.len() == level.len(),
        forall|i: int|
            0 <= i < level.len() ==> well_nested(#[trigger] attach_all(ms, level, used).0[i], ms)
                && shows(attach_all(ms, level, used).0[i], level[i]),
    decreases pending(ms, used), level.len() + 1,
{
    if level.len() > 0 {
        let a = attach(ms, level[0], used);
        let u1 = used.union(a.1);
        lemma_pending_mono(ms, used, u1);
        lemma_attach_nested(ms, level[0], used);
        let rest = level.drop_first();
        assert forall|i: int| 0 <= i < rest.len() implies ms.contains(#[trigger] rest[i]) by {
            assert(rest[i] == level[i + 1]);
        }
        lemma_attach_all_nested(ms, rest, u1);
        let b = attach_all(ms, rest, u1);
        let out = attach_all(ms, level, used).0;
        assert forall|i: int| 0 <= i < level.len() implies well_nested(#[trigger] out[i], ms) && shows(out[i], level[i]) by {
            if i > 0 {
                assert(out[i] == b.0[i - 1]);
                assert(level[i] == rest[i - 1]);
            }
        }
    }
}

/// The shape of the forest built from `ms`: its top level shows exactly the
/// menus without a parent, ordered by `order_index`; and every node, at any
/// depth, shows a menu of `ms`, with children that name it as their parent
/// and are ordered by `order_index`. So a menu whose parent is absent
/// appears nowhere.
pub proof fn lemma_forest_shape(ms: Seq<Menu>)
    ensures
        forest(ms).len() == roots_of(ms).len(),
        forall|i: int|
            0 <= i < forest(ms).len() ==> shows(#[trigger] forest(ms)[i], sort_by_order(roots_of(ms))[i])
                && forest(ms)[i].parent_id is None && well_nested(forest(ms)[i], ms),
        forall|i: int, j: int|
            0 <= i < j < forest(ms).len() ==> (#[trigger] forest(ms)[i]).order_index
                <= (#[trigger] forest(ms)[j]).order_index,
{
    let rs = roots_of(ms);
    let sr = sort_by_order(rs);
    lemma_roots_of_members(ms);
    lemma_sort_by_order_members(rs);
    lemma_sort_by_order_ordered(rs);
    assert forall|i: int| 0 <= i < sr.len() implies ms.contains(#[trigger] sr[i]) by {
        let k = choose|k: int| 0 <= k < rs.len() && rs[k] == sr[i];
    }
    lemma_attach_all_nested(ms, sr, Set::empty());
    let f = forest(ms);
    assert forall|i: int| 0 <= i < f.len() implies (#[trigger] f[i]).parent_id is None by {
        let k = choose|k: int| 0 <= k < rs.len() && rs[k] == sr[i];
    }
    assert forall|i: int, j: int| 0 <= i < j < f.len() implies (#[trigger] f[i]).order_index <= (#[trigger] f[j]).order_index by {
        assert(shows(f[i], sr[i]));
        assert(shows(f[j], sr[j]));
    }
}


// ---------------------------------------------------------------------
// Completeness, when ids are unique
// ---------------------------------------------------------------------

/// No two menus of `ms` share an id.
pub open spec fn unique_ids(ms: Seq<Menu>) -> bool {
    forall|i: int, j: int| 0 <= i < j < ms.len() ==> (#[trigger] ms[i]).id != (#[trigger] ms[j]).id
}

/// Node `t` and every node below it have as children all the menus of `ms`
/// that name it as their parent, ordered by `order_index`.
pub open spec fn complete(t: TreeView, ms: Seq<Menu>) -> bool
    decreases t,
{
    &&& t.children.len() == sort_by_order(kids_of(ms, t.id)).len()
    &&& forall|i: int|
        0 <= i < t.children.len() ==> shows(
            #[trigger] t.children[i],
            sort_by_order(kids_of(ms, t.id))[i],
        ) && complete(t.children[i], ms)
}

spec fn parent_in(m: Menu, used: Set<i32>) -> bool {
    match m.parent_id {
        None => true,
        Some(p) => used.contains(p),
    }
}

/// Every consumed id is that of a menu whose parent is absent or consumed.
spec fn rooted(ms: Seq<Menu>, used: Set<i32>) -> bool {
    forall|q: i32|
        #![trigger used.contains(q)]
        used.contains(q) ==> exists|k: int|
            0 <= k < ms.len() && (#[trigger] ms[k]).id == q && parent_in(ms[k], used)
}

/// Every id consumed between `before` and `after` is that of a menu of
/// `level`, or of a menu whose parent was consumed in between.
spec fn fresh_from(ms: Seq<Menu>, level: Seq<Menu>, before: Set<i32>, after: Set<i32>) -> bool {
    forall|q: i32|
        #![trigger after.contains(q)]
        after.contains(q) && !before.contains(q) ==> exists|k: int|
            0 <= k < ms.len() && (#[trigger] ms[k]).id == q && (level.contains(ms[k]) || (
            ms[k].parent_id matches Some(r) && after.contains(r) && !before.contains(r)))
}

spec fn distinct_ids(s: Seq<Menu>) -> bool {
    forall|i: int, j: int| 0 <= i < j < s.len() ==> (#[trigger] s[i]).id != (#[trigger] s[j]).id
}

proof fn lemma_kids_of_distinct(ms: Seq<Menu>, pid: i32)
    requires
        unique_ids(ms),
    ensures
        distinct_ids(kids_of(ms, pid)),
    decreases ms.len(),
{
    if ms.len() > 0 {
        let rest = ms.drop_last();
        assert(unique_ids(rest)) by {
            assert forall|i: int, j: int| 0 <= i < j < rest.len() implies (#[trigger] rest[i]).id
                != (#[trigger] rest[j]).id by {
                assert(rest[i] == ms[i] && rest[j] == ms[j]);
            }
        }
        lemma_kids_of_distinct(rest, pid);
        lemma_kids_of_members(rest, pid);
        let kr = kids_of(rest, pid);
        let ks = kids_of(ms, pid);
        if ms.last().parent_id == Some(pid) {
            assert forall|i: int, j: int| 0 <= i < j < ks.len() implies (#[trigger] ks[i]).id
                != (#[trigger] ks[j]).id by {
                if j == ks.len() - 1 {
                    let k = choose|k: int| 0 <= k < rest.len() && rest[k] == kr[i];
                    assert(ms[k] == rest[k]);
                    assert(ms[ms.len() - 1] == ms.last());
                } else {
                    assert(ks[i] == kr[i] && ks[j] == kr[j]);
                }
            }
        }
    }
}

proof fn lemma_roots_of_distinct(ms: Seq<Menu>)
    requires
        unique_ids(ms),
    ensures
        distinct_ids(roots_of(ms)),
    decreases ms.len(),
{
    if ms.len() > 0 {
        let rest = ms.drop_last();
        assert(unique_ids(rest)) by {
            assert forall|i: int, j: int| 0 <= i < j < rest.len() implies (#[trigger] rest[i]).id
                != (#[trigger] rest[j]).id by {
                assert(rest[i] == ms[i] && rest[j] == ms[j]);
            }
        }
        lemma_roots_of_distinct(rest);
        lemma_roots_of_members(rest);
        let rr = roots_of(rest);
        let rs = roots_of(ms);
        if ms.last().parent_id is None {
            assert forall|i: int, j: int| 0 <= i < j < rs.len() implies (#[trigger] rs[i]).id
                != (#[trigger] rs[j]).id by {
                if j == rs.len() - 1 {
                    let k = choose|k: int| 0 <= k < rest.len() && rest[k] == rr[i];
                    assert(ms[k] == rest[k]);
                    assert(ms[ms.len() - 1] == ms.last());
                } else {
                    assert(rs[i] == rr[i] && rs[j] == rr[j]);
                }
            }
        }
    }
}

proof fn lemma_sort_by_order_distinct(s: Seq<Menu>)
    requires
        distinct_ids(s),
    ensures
        distinct_ids(sort_by_order(s)),
    decreases s.len(),
{
    if s.len() > 0 {
        let rest = s.drop_last();
        assert(distinct_ids(rest)) by {
            assert forall|i: int, j: int| 0 <= i < j < rest.len() implies (#[trigger] rest[i]).id
                != (#[trigger] rest[j]).id by {
                assert(rest[i] == s[i] && rest[j] == s[j]);
            }
        }
        lemma_sort_by_order_distinct(rest);
        lemma_sort_by_order_members(rest);
        lemma_sort_by_order_ordered(rest);
        let t = sort_by_order(rest);
        let x = s.last();
        let p = insert_pos(t, x.order_index) as int;
        lemma_insert_pos_bounds(t, x.order_index);
        let r = sort_by_order(s);
        assert forall|q: int| 0 <= q < t.len() implies (#[trigger] t[q]).id != x.id by {
            let k = choose|k: int| 0 <= k < rest.len() && rest[k] == t[q];
            assert(s[k] == rest[k]);
            assert(s[s.len() - 1] == x);
        }
        assert forall|i: int, j: int| 0 <= i < j < r.len() implies (#[trigger] r[i]).id
            != (#[trigger] r[j]).id by {
            if j < p {
                assert(r[i] == t[i] && r[j] == t[j]);
            } else if j == p {
                assert(r[i] == t[i]);
            } else if i < p {
                assert(r[i] == t[i] && r[j] == t[j - 1]);
            } else if i == p {
                assert(r[j] == t[j - 1]);
            } else {
                assert(r[i] == t[i - 1] && r[j] == t[j - 1]);
            }
        }
    }
}

/// Two menus of `ms` with the same id are the same menu.
proof fn lemma_same_id(ms: Seq<Menu>, a: int, b: int)
    requires
        unique_ids(ms),
        0 <= a < ms.len(),
        0 <= b < ms.len(),
        ms[a].id == ms[b].id,
    ensures
        a == b,
{
    if a < b {
        assert(ms[a].id != ms[b].id);
    } else if b < a {
        assert(ms[b].id != ms[a].id);
    }
}

proof fn lemma_attach_complete(ms: Seq<Menu>, m: Menu, used: Set<i32>)
    requires
        unique_ids(ms),
        ms.contains(m),
        !used.contains(m.id),
        parent_in(m, used),
        rooted(ms, used),
    ensures
        complete(attach(ms, m, used).0, ms),
        shows(attach(ms, m, used).0, m),
        rooted(ms, attach(ms, m, used).1),
        used.subset_of(attach(ms, m, used).1),
        fresh_from(ms, seq![m], used, attach(ms, m, used).1),
    decreases pending(ms, used), 0nat,
{
    let km = choose|k: int| 0 <= k < ms.len() && ms[k] == m;
    let ks = kids_of(ms, m.id);
    lemma_sort_by_order_ordered(ks);
    if ks.len() > 0 {
        lemma_pending_drops(ms, used, m.id);
        let u2 = used.insert(m.id);
        let sk = sort_by_order(ks);
        lemma_kids_of_members(ms, m.id);
        lemma_sort_by_order_members(ks);
        lemma_kids_of_distinct(ms, m.id);
        lemma_sort_by_order_distinct(ks);
        assert(rooted(ms, u2)) by {
            assert forall|q: i32| #![trigger u2.contains(q)] u2.contains(q) implies exists|k: int|
                0 <= k < ms.len() && (#[trigger] ms[k]).id == q && parent_in(ms[k], u2) by {
                if q == m.id {
                    assert(ms[km].id == q && parent_in(ms[km], u2));
                } else {
                    assert(used.contains(q));
                    let k = choose|k: int|
                        0 <= k < ms.len() && (#[trigger] ms[k]).id == q && parent_in(ms[k], used);
                    assert(parent_in(ms[k], u2));
                }
            }
        }
        assert forall|i: int| 0 <= i < sk.len() implies ms.contains(#[trigger] sk[i]) && !u2.contains(
            sk[i].id,
        ) && parent_in(sk[i], u2) by {
            let j = choose|j: int| 0 <= j < ks.len() && ks[j] == sk[i];
            let k = choose|k: int| 0 <= k < ms.len() && ms[k] == ks[j];
            assert(ks[j].parent_id == Some(m.id));
            if sk[i].id == m.id {
                lemma_same_id(ms, k, km);
            }
            if used.contains(sk[i].id) {
                let k2 = choose|k2: int|
                    0 <= k2 < ms.len() && (#[trigger] ms[k2]).id == sk[i].id && parent_in(ms[k2], used);
                lemma_same_id(ms, k, k2);
            }
        }
        lemma_attach_all_complete(ms, sk, u2);
        let r = attach_all(ms, sk, u2);
        let t = node_of(m, r.0);
        assert(t == attach(ms, m, used).0);
        assert(complete(t, ms));
        assert(fresh_from(ms, seq![m], used, r.1)) by {
            assert forall|q: i32| #![trigger r.1.contains(q)] r.1.contains(q) && !used.contains(q) implies exists|k: int|
                0 <= k < ms.len() && (#[trigger] ms[k]).id == q && (seq![m].contains(ms[k]) || (
                ms[k].parent_id matches Some(p) && r.1.contains(p) && !used.contains(p))) by {
                if q == m.id {
                    assert(seq![m][0] == ms[km]);
                    assert(ms[km].id == q);
                } else {
                    let k = choose|k: int|
                        0 <= k < ms.len() && (#[trigger] ms[k]).id == q && (sk.contains(ms[k]) || (
                        ms[k].parent_id matches Some(p) && r.1.contains(p) && !u2.contains(p)));
                    if sk.contains(ms[k]) {
                        let i = choose|i: int| 0 <= i < sk.len() && sk[i] == ms[k];
                        let j = choose|j: int| 0 <= j < ks.len() && ks[j] == sk[i];
                        assert(ks[j].parent_id == Some(m.id));
                    }
                }
            }
        }
    } else {
        assert(sort_by_order(ks).len() == 0);
        assert(shows(node_of(m, Seq::empty()), m));
    }
}

proof fn lemma_attach_all_complete(ms: Seq<Menu>, level: Seq<Menu>, used: Set<i32>)
    requires
        unique_ids(ms),
        distinct_ids(level),
        forall|i: int|
            0 <= i < level.len() ==> ms.contains(#[trigger] level[i]) && !used.contains(level[i].id)
                && parent_in(level[i], used),
        rooted(ms, used),
    ensures
        attach_all(ms, level, used).0.len() == level.len(),
        forall|i: int|
            0 <= i < level.len() ==> complete(#[trigger] attach_all(ms, level, used).0[i], ms)
                && shows(attach_all(ms, level, used).0[i], level[i]),
        rooted(ms, attach_all(ms, level, used).1),
        used.subset_of(attach_all(ms, level, used).1),
        fresh_from(ms, level, used, attach_all(ms, level, used).1),
    decreases pending(ms, used), level.len() + 1,
{
    if level.len() > 0 {
        let x = level[0];
        let a = attach(ms, x, used);
        let u1 = used.union(a.1);
        lemma_attach_complete(ms, x, used);
        assert(u1 =~= a.1);
        lemma_pending_mono(ms, used, u1);
        let rest = level.drop_first();
        assert(distinct_ids(rest)) by {
            assert forall|i: int, j: int| 0 <= i < j < rest.len() implies (#[trigger] rest[i]).id
                != (#[trigger] rest[j]).id by {
                assert(rest[i] == level[i + 1] && rest[j] == level[j + 1]);
            }
        }
        assert forall|i: int| 0 <= i < rest.len() implies ms.contains(#[trigger] rest[i]) && !u1.contains(
            rest[i].id,
        ) && parent_in(rest[i], u1) by {
            let y = rest[i];
            assert(y == level[i + 1]);
            assert(level[0].id != level[i + 1].id);
            let ky = choose|k: int| 0 <= k < ms.len() && ms[k] == y;
            if u1.contains(y.id) {
                assert(a.1.contains(y.id));
                let k = choose|k: int|
                    0 <= k < ms.len() && (#[trigger] ms[k]).id == y.id && (seq![x].contains(ms[k]) || (
                    ms[k].parent_id matches Some(r) && a.1.contains(r) && !used.contains(r)));
                lemma_same_id(ms, k, ky);
                if seq![x].contains(ms[k]) {
                    assert(seq![x][0] == x);
                }
            }
        }
        lemma_attach_all_complete(ms, rest, u1);
        let b = attach_all(ms, rest, u1);
        let out = attach_all(ms, level, used).0;
        assert forall|i: int| 0 <= i < level.len() implies complete(#[trigger] out[i], ms) && shows(
            out[i],
            level[i],
        ) by {
            if i > 0 {
                assert(out[i] == b.0[i - 1]);
                assert(level[i] == rest[i - 1]);
            }
        }
        let fin = b.1;
        assert(fresh_from(ms, level, used, fin)) by {
            assert forall|q: i32| #![trigger fin.contains(q)] fin.contains(q) && !used.contains(q) implies exists|k: int|
                0 <= k < ms.len() && (#[trigger] ms[k]).id == q && (level.contains(ms[k]) || (
                ms[k].parent_id matches Some(r) && fin.contains(r) && !used.contains(r))) by {
                if a.1.contains(q) {
                    let k = choose|k: int|
                        0 <= k < ms.len() && (#[trigger] ms[k]).id == q && (seq![x].contains(ms[k]) || (
                        ms[k].parent_id matches Some(r) && a.1.contains(r) && !used.contains(r)));
                    if seq![x].contains(ms[k]) {
                        assert(seq![x][0] == x);
                        assert(level[0] == x);
                    }
                } else {
                    let k = choose|k: int|
                        0 <= k < ms.len() && (#[trigger] ms[k]).id == q && (rest.contains(ms[k]) || (
                        ms[k].parent_id matches Some(r) && fin.contains(r) && !u1.contains(r)));
                    if rest.contains(ms[k]) {
                        let i = choose|i: int| 0 <= i < rest.len() && rest[i] == ms[k];
                        assert(level[i + 1] == rest[i]);
                    }
                }
            }
        }
    }
}

/// When no two menus share an id (as in the `menus` table), the forest is
/// complete: every node, at any depth, has as children all the menus of `ms`
/// that name it as their parent, ordered by `order_index`. With the top
/// level holding every menu without a parent, a menu appears exactly where
/// its chain of parents leads to a root.
pub proof fn lemma_forest_complete(ms: Seq<Menu>)
    requires
        unique_ids(ms),
    ensures
        forall|i: int| 0 <= i < forest(ms).len() ==> complete(#[trigger] forest(ms)[i], ms),
{
    let rs = roots_of(ms);
    let sr = sort_by_order(rs);
    lemma_roots_of_members(ms);
    lemma_sort_by_order_members(rs);
    lemma_roots_of_distinct(ms);
    lemma_sort_by_order_distinct(rs);
    assert forall|i: int| 0 <= i < sr.len() implies ms.contains(#[trigger] sr[i]) && !Set::<i32>::empty().contains(
        sr[i].id,
    ) && parent_in(sr[i], Set::<i32>::empty()) by {
        let k = choose|k: int| 0 <= k < rs.len() && rs[k] == sr[i];
    }
    lemma_attach_all_complete(ms, sr, Set::empty());
}


// ---------------------------------------------------------------------
// Which menus are children of which
// ---------------------------------------------------------------------

/// The candidates for children of parent id `pid` are exactly the menus of
/// `ms` whose `parent_id` is `Some(pid)`, whatever their other fields, in
/// input order.
pub proof fn lemma_kids_are_all_with_parent(ms: Seq<Menu>, pid: i32)
    ensures
        kids_of(ms, pid) == ms.filter(|m: Menu| m.parent_id == Some(pid)),
    decreases ms.len(),
{
    reveal_with_fuel(Seq::filter, 1);
    if ms.len() > 0 {
        lemma_kids_are_all_with_parent(ms.drop_last(), pid);
    }
}

/// The top-level candidates are exactly the menus of `ms` without a parent,
/// in input order.
pub proof fn lemma_roots_are_all_without_parent(ms: Seq<Menu>)
    ensures
        roots_of(ms) == ms.filter(|m: Menu| m.parent_id is None),
    decreases ms.len(),
{
    reveal_with_fuel(Seq::filter, 1);
    if ms.len() > 0 {
        lemma_roots_are_all_without_parent(ms.drop_last());
    }
}

/// Ordering by `order_index` loses no element.
pub proof fn lemma_sort_by_order_keeps_all(s: Seq<Menu>)
    ensures
        forall|k: int| 0 <= k < s.len() ==> sort_by_order(s).contains(#[trigger] s[k]),
    decreases s.len(),
{
    if s.len() > 0 {
        let rest = s.drop_last();
        lemma_sort_by_order_keeps_all(rest);
        lemma_sort_by_order_ordered(rest);
        let t = sort_by_order(rest);
        let x = s.last();
        let p = insert_pos(t, x.order_index) as int;
        lemma_insert_pos_bounds(t, x.order_index);
        let r = sort_by_order(s);
        assert(r == t.insert(p, x));
        assert forall|k: int| 0 <= k < s.len() implies r.contains(#[trigger] s[k]) by {
            if k == s.len() - 1 {
                assert(r[p] == x);
            } else {
                assert(s[k] == rest[k]);
                let q = choose|q: int| 0 <= q < t.len() && t[q] == rest[k];
                if q < p {
                    assert(r[q] == t[q]);
                } else {
                    assert(r[q + 1] == t[q]);
                }
            }
        }
    }
}

/// In a complete node, the children show exactly the menus of `ms` that
/// name the node's id as their parent: each such menu is shown by some
/// child, and each child shows such a menu.
pub proof fn lemma_complete_children(t: TreeView, ms: Seq<Menu>)
    requires
        complete(t, ms),
    ensures
        forall|k: int|
            0 <= k < ms.len() && (#[trigger] ms[k]).parent_id == Some(t.id) ==> exists|i: int|
                0 <= i < t.children.len() && shows(#[trigger] t.children[i], ms[k]),
        forall|i: int|
            0 <= i < t.children.len() ==> exists|k: int|
                0 <= k < ms.len() && ms[k].parent_id == Some(t.id) && shows(
                    #[trigger] t.children[i],
                    #[trigger] ms[k],
                ),
{
    let ks = kids_of(ms, t.id);
    let sk = sort_by_order(ks);
    lemma_kids_are_all_with_parent(ms, t.id);
    lemma_kids_of_members(ms, t.id);
    lemma_sort_by_order_members(ks);
    lemma_sort_by_order_keeps_all(ks);
    assert forall|k: int|
        0 <= k < ms.len() && (#[trigger] ms[k]).parent_id == Some(t.id) implies exists|i: int|
        0 <= i < t.children.len() && shows(#[trigger] t.children[i], ms[k]) by {
        let pred = |m: Menu| m.parent_id == Some(t.id);
        assert(pred(ms[k]));
        assert(ms.contains(ms[k]));
        assert(ms.filter(pred).contains(ms[k]));
        let j = choose|j: int| 0 <= j < ks.len() && ks[j] == ms[k];
        assert(sk.contains(ks[j]));
        let i = choose|i: int| 0 <= i < sk.len() && sk[i] == ks[j];
        assert(shows(t.children[i], sk[i]));
    }
    assert forall|i: int| 0 <= i < t.children.len() implies exists|k: int|
        0 <= k < ms.len() && ms[k].parent_id == Some(t.id) && shows(
            #[trigger] t.children[i],
            #[trigger] ms[k],
        ) by {
        assert(shows(t.children[i], sk[i]));
        let j = choose|j: int| 0 <= j < ks.len() && ks[j] == sk[i];
        let k = choose|k: int| 0 <= k < ms.len() && ms[k] == ks[j];
    }
}

/// With unique ids, every node of the forest, at any depth, has as children
/// exactly the menus of `ms` naming it as parent: `complete` holds at the
/// top level (`lemma_forest_complete`), passes to every child, and gives the
/// children by `lemma_complete_children`.
pub proof fn lemma_complete_passes_down(t: TreeView, ms: Seq<Menu>, i: int)
    requires
        complete(t, ms),
        0 <= i < t.children.len(),
    ensures
        complete(t.children[i], ms),
{
}


/// Ordering by `order_index` is stable: two menus with equal order keep
/// their input order.
pub proof fn lemma_sort_by_order_stable(s: Seq<Menu>)
    ensures
        forall|a: int, b: int|
            0 <= a < b < s.len() && (#[trigger] s[a]).order_index == (#[trigger] s[b]).order_index
                ==> exists|p: int, q: int|
                0 <= p < q < sort_by_order(s).len() && #[trigger] sort_by_order(s)[p] == s[a]
                    && #[trigger] sort_by_order(s)[q] == s[b],
    decreases s.len(),
{
    if s.len() > 0 {
        let rest = s.drop_last();
        lemma_sort_by_order_stable(rest);
        lemma_sort_by_order_keeps_all(rest);
        lemma_sort_by_order_ordered(rest);
        let t = sort_by_order(rest);
        let x = s.last();
        let ip = insert_pos(t, x.order_index) as int;
        lemma_insert_pos_bounds(t, x.order_index);
        let r = sort_by_order(s);
        assert(r == t.insert(ip, x));
        assert forall|a: int, b: int|
            0 <= a < b < s.len() && (#[trigger] s[a]).order_index == (#[trigger] s[b]).order_index
                implies exists|p: int, q: int|
            0 <= p < q < r.len() && #[trigger] r[p] == s[a] && #[trigger] r[q] == s[b] by {
            assert(s[a] == rest[a]);
            if b == s.len() - 1 {
                let q0 = choose|q0: int| 0 <= q0 < t.len() && t[q0] == rest[a];
                if q0 >= ip {
                    assert(t[ip].order_index <= t[q0].order_index);
                }
                assert(r[q0] == t[q0]);
                assert(r[ip] == x);
                assert(x == s[b]);
            } else {
                assert(s[b] == rest[b]);
                assert(rest[a].order_index == rest[b].order_index);
                let (p0, q0) = choose|p0: int, q0: int|
                    0 <= p0 < q0 < t.len() && #[trigger] t[p0] == rest[a] && #[trigger] t[q0] == rest[b];
                let p1 = if p0 < ip { p0 } else { p0 + 1 };
                let q1 = if q0 < ip { q0 } else { q0 + 1 };
                assert(r[p1] == t[p0]);
                assert(r[q1] == t[q0]);
            }
        }
    }
}
} // verus!
