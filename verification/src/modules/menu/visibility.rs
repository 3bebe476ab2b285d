//! Which menus a caller may see.

use vstd::prelude::*;

use super::entity::{Menu, TreeView, shows};
use super::tree::{forest, lemma_forest_shape, well_nested};

verus! {

/// Some permission in `required` is held (by value) in `held`.
pub open spec fn holds_any(required: Seq<String>, held: Seq<String>) -> bool {
    exists|i: int, j: int|
        0 <= i < required.len() && 0 <= j < held.len() && #[trigger] required[i]@ == #[trigger] held[j]@
}

/// A caller holding `held` sees `m`: it is active, and either it requires
/// no permission or the caller holds one of those it lists.
pub open spec fn can_see(m: Menu, held: Seq<String>) -> bool {
    m.is_active && (m.permissions@.len() == 0 || holds_any(m.permissions@, held))
}

/// The menus of `ms` that a caller holding `held` sees, in input order.
pub open spec fn visible(ms: Seq<Menu>, held: Seq<String>) -> Seq<Menu>
    decreases ms.len(),
{
    if ms.len() == 0 {
        Seq::empty()
    } else if can_see(ms.last(), held) {
        visible(ms.drop_last(), held).push(ms.last())
    } else {
        visible(ms.drop_last(), held)
    }
}

/// Every menu kept by `visible` is one of `ms` that the caller sees.
pub proof fn lemma_visible_sound(ms: Seq<Menu>, held: Seq<String>)
    ensures
        forall|i: int|
            0 <= i < visible(ms, held).len() ==> can_see(#[trigger] visible(ms, held)[i], held)
                && ms.contains(visible(ms, held)[i]),
    decreases ms.len(),
{
    if ms.len() > 0 {
        let rest = ms.drop_last();
        lemma_visible_sound(rest, held);
        let v = visible(ms, held);
        assert forall|i: int| 0 <= i < v.len() implies can_see(#[trigger] v[i], held) && ms.contains(v[i]) by {
            if i < visible(rest, held).len() {
                let k = choose|k: int| 0 <= k < rest.len() && rest[k] == visible(rest, held)[i];
                assert(ms[k] == rest[k]);
            } else {
                assert(ms[ms.len() - 1] == ms.last());
            }
        }
    }
}

/// The visibility filter keeps exactly, in input order, the active menus
/// that list no permission or list some permission, at any position, equal
/// to one the caller holds.
pub proof fn lemma_visible_is_permission_filter(ms: Seq<Menu>, held: Seq<String>)
    ensures
        visible(ms, held) == ms.filter(
            |m: Menu|
                m.is_active && (m.permissions@.len() == 0 || exists|i: int, j: int|
                    0 <= i < m.permissions@.len() && 0 <= j < held.len()
                        && #[trigger] m.permissions@[i]@ == #[trigger] held[j]@),
        ),
    decreases ms.len(),
{
    reveal_with_fuel(Seq::filter, 1);
    if ms.len() > 0 {
        lemma_visible_is_permission_filter(ms.drop_last(), held);
    }
}

/// Does `held` contain a permission equal to `p`?
fn holds(held: &[String], p: &String) -> (r: bool)
    ensures
        r == exists|j: int| 0 <= j < held@.len() && #[trigger] held@[j]@ == p@,
{
    let mut j: usize = 0;
    while j < held.len()
        invariant
            j <= held@.len(),
            forall|q: int| 0 <= q < j ==> (#[trigger] held@[q])@ != p@,
        decreases held@.len() - j,
    {
        if held[j] == *p {
            return true;
        }
        j = j + 1;
    }
    false
}

/// Whether a caller holding `held` sees `m`.
pub fn is_visible_to(m: &Menu, held: &[String]) -> (r: bool)
    ensures
        r == can_see(*m, held@),
{
    if !m.is_active {
        return false;
    }
    if m.permissions.len() == 0 {
        return true;
    }
    let mut i: usize = 0;
    while i < m.permissions.len()
        invariant
            m.is_active,
            i <= m.permissions@.len(),
            forall|q: int, j: int|
                0 <= q < i && 0 <= j < held@.len() ==> #[trigger] m.permissions@[q]@ != #[trigger] held@[j]@,
        decreases m.permissions@.len() - i,
    {
        if holds(held, &m.permissions[i]) {
            proof {
                let j = choose|j: int| 0 <= j < held@.len() && #[trigger] held@[j]@ == m.permissions@[i as int]@;
                assert(m.permissions@[i as int]@ == held@[j]@);
            }
            return true;
        }
        i = i + 1;
    }
    false
}

/// Keeps only the active menus the caller can see: those with no
/// permission requirement, and those listing a permission the caller holds.
pub fn filter_visible(menus: Vec<Menu>, user_permissions: &[String]) -> (r: Vec<Menu>)
    ensures
        r@ == visible(menus@, user_permissions@),
{
    let ghost ms = menus@;
    let ghost held = user_permissions@;
    let mut src = menus;
    let mut out: Vec<Menu> = Vec::new();
    let ghost mut done: int = 0;
    proof {
        assert(ms.take(0) =~= Seq::<Menu>::empty());
    }
    while src.len() > 0
        invariant
            0 <= done <= ms.len(),
            held == user_permissions@,
            src@ == ms.skip(done),
            out@ == visible(ms.take(done), held),
        decreases src@.len(),
    {
        let m = src.remove(0);
        proof {
            assert(ms.take(done + 1).drop_last() =~= ms.take(done));
            assert(ms.take(done + 1).last() == m);
        }
        if is_visible_to(&m, user_permissions) {
            out.push(m);
        }
        proof {
            done = done + 1;
            assert(src@ =~= ms.skip(done));
        }
    }
    proof {
        assert(ms.take(done) =~= ms);
    }
    out
}


/// Node `t` and every node below it are seen by a caller holding `held`.
pub open spec fn all_seen(t: TreeView, held: Seq<String>) -> bool
    decreases t,
{
    &&& t.is_active
    &&& (t.permissions@.len() == 0 || holds_any(t.permissions@, held))
    &&& forall|i: int| 0 <= i < t.children.len() ==> all_seen(#[trigger] t.children[i], held)
}

proof fn lemma_nested_all_seen(t: TreeView, vs: Seq<Menu>, held: Seq<String>)
    requires
        well_nested(t, vs),
        forall|i: int| 0 <= i < vs.len() ==> can_see(#[trigger] vs[i], held),
    ensures
        all_seen(t, held),
    decreases t,
{
    let k = choose|k: int| 0 <= k < vs.len() && shows(t, #[trigger] vs[k]);
    assert(can_see(vs[k], held));
    assert forall|i: int| 0 <= i < t.children.len() implies all_seen(#[trigger] t.children[i], held) by {
        lemma_nested_all_seen(t.children[i], vs, held);
    }
}

/// The tree built from the visible menus shows, at every depth, only menus
/// the caller sees: a menu whose parent is hidden is hidden with it.
pub proof fn lemma_visible_tree_only_shows_seen(ms: Seq<Menu>, held: Seq<String>)
    ensures
        forall|i: int|
            0 <= i < forest(visible(ms, held)).len() ==> all_seen(
                #[trigger] forest(visible(ms, held))[i],
                held,
            ),
{
    let vs = visible(ms, held);
    lemma_forest_shape(vs);
    lemma_visible_sound(ms, held);
    assert forall|i: int| 0 <= i < forest(vs).len() implies all_seen(#[trigger] forest(vs)[i], held) by {
        lemma_nested_all_seen(forest(vs)[i], vs, held);
    }
}

} // verus!
