//! The parent chain of menus, and the cycle check for reparenting.

use vstd::prelude::*;

use super::entity::Menu;

verus! {

/// The parent of menu `c` as recorded in `all`: that of the last menu with
/// id `c`, or `None` when `c` is absent or is a top-level menu.
pub open spec fn parent_of(all: Seq<Menu>, c: i32) -> Option<i32>
    decreases all.len(),
{
    if all.len() == 0 {
        None
    } else if all.last().id == c {
        all.last().parent_id
    } else {
        parent_of(all.drop_last(), c)
    }
}

/// Some menu of `all` has id `c`.
pub open spec fn has_id(all: Seq<Menu>, c: i32) -> bool {
    exists|i: int| 0 <= i < all.len() && (#[trigger] all[i]).id == c
}

/// The `k`-th step up the parent chain from `start` (step 0 is `start`
/// itself); `None` once the chain has left the top level.
pub open spec fn ancestor_at(all: Seq<Menu>, start: i32, k: nat) -> Option<i32>
    decreases k,
{
    if k == 0 {
        Some(start)
    } else {
        match ancestor_at(all, start, (k - 1) as nat) {
            Some(c) => parent_of(all, c),
            None => None,
        }
    }
}

/// `target` is `from` or one of its ancestors.
pub open spec fn reaches(all: Seq<Menu>, from: i32, target: i32) -> bool {
    exists|k: nat| #[trigger] ancestor_at(all, from, k) == Some(target)
}

/// Walking up from `from` either leaves the top level or meets `target`.
pub open spec fn chain_stops(all: Seq<Menu>, from: i32, target: i32) -> bool {
    exists|k: nat|
        #![trigger ancestor_at(all, from, k)]
        ancestor_at(all, from, k) is None || ancestor_at(all, from, k) == Some(target)
}

/// Every parent chain in `all` leaves the top level after finitely many
/// steps: the parent links hold no cycle.
pub open spec fn chains_end(all: Seq<Menu>) -> bool {
    forall|c: i32| #[trigger] chain_ends_from(all, c)
}

/// Walking up from `c` leaves the top level after finitely many steps.
pub open spec fn chain_ends_from(all: Seq<Menu>, c: i32) -> bool {
    exists|k: nat| #[trigger] ancestor_at(all, c, k) is None
}

/// `all` after menu `id` is moved under `p`.
pub open spec fn reparented(all: Seq<Menu>, id: i32, p: i32) -> Seq<Menu> {
    all.map_values(
        |m: Menu|
            if m.id == id {
                Menu { parent_id: Some(p), ..m }
            } else {
                m
            },
    )
}

/// The parent recorded for `c` in the first `i` menus.
fn parent_in(all: &[Menu], c: i32) -> (r: Option<i32>)
    ensures
        r == parent_of(all@, c),
{
    let mut i: usize = all.len();
    proof {
        assert(all@.take(i as int) =~= all@);
    }
    while i > 0
        invariant
            i <= all@.len(),
            parent_of(all@, c) == parent_of(all@.take(i as int), c),
        decreases i,
    {
        proof {
            assert(all@.take(i as int).drop_last() =~= all@.take(i - 1));
            assert(all@.take(i as int).last() == all@[i - 1]);
        }
        if all[i - 1].id == c {
            return all[i - 1].parent_id;
        }
        i = i - 1;
    }
    None
}

proof fn lemma_none_stays(all: Seq<Menu>, c: i32, j: nat, k: nat)
    requires
        j <= k,
        ancestor_at(all, c, j) is None,
    ensures
        ancestor_at(all, c, k) is None,
    decreases k - j,
{
    if j < k {
        lemma_none_stays(all, c, j, (k - 1) as nat);
    }
}

/// True if moving `id` under `new_parent` would make `id` its own
/// ancestor: `new_parent` is `id`, or `id` is on `new_parent`'s parent
/// chain.
pub fn would_create_cycle(id: i32, new_parent: i32, all: &[Menu]) -> (r: bool)
    requires
        chain_stops(all@, new_parent, id),
    ensures
        r == reaches(all@, new_parent, id),
{
    if new_parent == id {
        proof {
            assert(ancestor_at(all@, new_parent, 0) == Some(id));
        }
        return true;
    }
    let ghost bound: nat = choose|k: nat|
        #![trigger ancestor_at(all@, new_parent, k)]
        ancestor_at(all@, new_parent, k) is None || ancestor_at(all@, new_parent, k) == Some(id);
    let mut current: Option<i32> = Some(new_parent);
    let ghost mut k: nat = 0;
    while current.is_some()
        invariant
            current == ancestor_at(all@, new_parent, k),
            k <= bound,
            ancestor_at(all@, new_parent, bound) is None || ancestor_at(all@, new_parent, bound)
                == Some(id),
            forall|j: nat| j < k ==> #[trigger] ancestor_at(all@, new_parent, j) != Some(id),
        decreases bound - k,
    {
        let cur = current.unwrap();
        if cur == id {
            return true;
        }
        current = parent_in(all, cur);
        proof {
            assert(ancestor_at(all@, new_parent, k + 1) == parent_of(all@, cur));
            k = k + 1;
        }
    }
    proof {
        assert forall|j: nat| #[trigger] ancestor_at(all@, new_parent, j) != Some(id) by {
            if j >= k {
                lemma_none_stays(all@, new_parent, k, j);
            }
        }
    }
    false
}

// ---------------------------------------------------------------------
// What the cycle check guarantees
// ---------------------------------------------------------------------

proof fn lemma_parent_of_reparented(all: Seq<Menu>, id: i32, p: i32, c: i32)
    ensures
        parent_of(reparented(all, id, p), c) == (if c == id && has_id(all, id) {
            Some(p)
        } else {
            parent_of(all, c)
        }),
    decreases all.len(),
{
    let r = reparented(all, id, p);
    if all.len() > 0 {
        let rest = all.drop_last();
        assert(r.drop_last() =~= reparented(rest, id, p));
        lemma_parent_of_reparented(rest, id, p, c);
        if c == id {
            if has_id(rest, id) {
                let i = choose|i: int| 0 <= i < rest.len() && (#[trigger] rest[i]).id == id;
                assert(all[i] == rest[i]);
            }
            if has_id(all, id) && all.last().id != id {
                let i = choose|i: int| 0 <= i < all.len() && (#[trigger] all[i]).id == id;
                assert(i != all.len() - 1);
                assert(rest[i] == all[i]);
            }
            if !has_id(all, id) {
                assert(all[all.len() - 1].id != id);
            }
        }
    } else {
        assert(r.len() == 0);
    }
}

proof fn lemma_shift(g: Seq<Menu>, c: i32, a: nat, b: nat)
    ensures
        ancestor_at(g, c, a + b) == (match ancestor_at(g, c, a) {
            Some(x) => ancestor_at(g, x, b),
            None => None,
        }),
    decreases b,
{
    if b > 0 {
        lemma_shift(g, c, a, (b - 1) as nat);
        assert((a + b - 1) as nat == a + (b - 1) as nat);
    }
}

/// Where the chain from `c` avoids `id`, moving `id` does not change it.
proof fn lemma_agree(all: Seq<Menu>, id: i32, p: i32, c: i32, k: nat)
    requires
        forall|j: nat| j < k ==> #[trigger] ancestor_at(all, c, j) != Some(id),
    ensures
        ancestor_at(reparented(all, id, p), c, k) == ancestor_at(all, c, k),
    decreases k,
{
    if k > 0 {
        lemma_agree(all, id, p, c, (k - 1) as nat);
        let prev = ancestor_at(all, c, (k - 1) as nat);
        if let Some(x) = prev {
            lemma_parent_of_reparented(all, id, p, x);
        }
    }
}

proof fn lemma_first_hit(g: Seq<Menu>, c: i32, id: i32, k: nat) -> (j0: nat)
    requires
        ancestor_at(g, c, k) == Some(id),
    ensures
        j0 <= k,
        ancestor_at(g, c, j0) == Some(id),
        forall|j: nat| j < j0 ==> #[trigger] ancestor_at(g, c, j) != Some(id),
    decreases k,
{
    if exists|j: nat| j < k && #[trigger] ancestor_at(g, c, j) == Some(id) {
        let j = choose|j: nat| j < k && #[trigger] ancestor_at(g, c, j) == Some(id);
        lemma_first_hit(g, c, id, j)
    } else {
        k
    }
}

/// Reparenting that the cycle check lets through keeps the hierarchy
/// free of cycles: if every parent chain ended before, and `id` is not
/// `p` or one of `p`'s ancestors, every chain still ends after `id` is
/// moved under `p`.
pub proof fn lemma_allowed_reparent_keeps_chains_finite(all: Seq<Menu>, id: i32, p: i32)
    requires
        chains_end(all),
        !reaches(all, p, id),
    ensures
        chains_end(reparented(all, id, p)),
{
    let g = reparented(all, id, p);
    if !has_id(all, id) {
        assert(g =~= all);
    } else {
        assert forall|c: i32| #[trigger] chain_ends_from(g, c) by {
            assert(chain_ends_from(all, c));
            assert(chain_ends_from(all, p));
            let kc = choose|k: nat| #[trigger] ancestor_at(all, c, k) is None;
            if exists|j: nat| j < kc && #[trigger] ancestor_at(all, c, j) == Some(id) {
                let j = choose|j: nat| j < kc && #[trigger] ancestor_at(all, c, j) == Some(id);
                let j0 = lemma_first_hit(all, c, id, j);
                lemma_agree(all, id, p, c, j0);
                lemma_parent_of_reparented(all, id, p, id);
                assert(ancestor_at(g, c, j0 + 1) == Some(p));
                let kp = choose|k: nat| #[trigger] ancestor_at(all, p, k) is None;
                assert forall|j: nat| j < kp implies #[trigger] ancestor_at(all, p, j) != Some(id) by {
                    if ancestor_at(all, p, j) == Some(id) {
                        assert(reaches(all, p, id));
                    }
                }
                lemma_agree(all, id, p, p, kp);
                lemma_shift(g, c, j0 + 1, kp);
                assert(ancestor_at(g, c, j0 + 1 + kp) is None);
            } else {
                lemma_agree(all, id, p, c, kc);
            }
        }
    }
}

/// Reparenting that the cycle check refuses would close a cycle: if `id`
/// is `p` or one of `p`'s ancestors, then after `id` is moved under `p`,
/// walking up from `id` comes back to `id`.
pub proof fn lemma_refused_reparent_closes_cycle(all: Seq<Menu>, id: i32, p: i32)
    requires
        reaches(all, p, id),
        has_id(all, id),
    ensures
        exists|k: nat| k > 0 && #[trigger] ancestor_at(reparented(all, id, p), id, k) == Some(id),
{
    let g = reparented(all, id, p);
    let k = choose|k: nat| #[trigger] ancestor_at(all, p, k) == Some(id);
    let j0 = lemma_first_hit(all, p, id, k);
    lemma_agree(all, id, p, p, j0);
    lemma_parent_of_reparented(all, id, p, id);
    assert(ancestor_at(g, id, 0) == Some(id));
    assert(ancestor_at(g, id, 1) == Some(p));
    lemma_shift(g, id, 1, j0);
    assert(ancestor_at(g, id, 1 + j0) == Some(id));
}


// ---------------------------------------------------------------------
// Deciding whether a walk up the chain stops
// ---------------------------------------------------------------------

proof fn lemma_parent_means_present(all: Seq<Menu>, c: i32)
    requires
        parent_of(all, c) is Some,
    ensures
        has_id(all, c),
    decreases all.len(),
{
    if all.last().id == c {
        assert(all[all.len() - 1].id == c);
    } else {
        lemma_parent_means_present(all.drop_last(), c);
        let i = choose|i: int| 0 <= i < all.drop_last().len() && (#[trigger] all.drop_last()[i]).id == c;
        assert(all[i] == all.drop_last()[i]);
    }
}

/// A chain that returns to an earlier step repeats forever: if the steps
/// before `k` are all menus other than `target`, and step `k` equals step
/// `i < k`, no step is `None` or `target`.
proof fn lemma_cycle_never_stops(all: Seq<Menu>, from: i32, target: i32, i: nat, k: nat, m: nat)
    requires
        i < k,
        ancestor_at(all, from, k) == ancestor_at(all, from, i),
        forall|j: nat| j < k ==> (#[trigger] ancestor_at(all, from, j)) is Some && ancestor_at(all, from, j) != Some(target),
    ensures
        ancestor_at(all, from, m) is Some && ancestor_at(all, from, m) != Some(target),
    decreases m,
{
    if m >= k {
        let t = (m - k) as nat;
        lemma_shift(all, from, k, t);
        lemma_shift(all, from, i, t);
        assert(m == k + t);
        lemma_cycle_never_stops(all, from, target, i, k, i + t);
    }
}

/// Whether walking up from `from` leaves the top level or meets `target`
/// (rather than going round a cycle of parent links forever).
pub fn parent_chain_stops(all: &[Menu], from: i32, target: i32) -> (r: bool)
    ensures
        r == chain_stops(all@, from, target),
{
    let ghost ids = all@.map_values(|m: Menu| m.id);
    let mut visited: Vec<i32> = Vec::new();
    let mut cur: i32 = from;
    let ghost mut k: nat = 0;
    loop
        invariant
            visited@.len() == k,
            ancestor_at(all@, from, k) == Some(cur),
            forall|j: int| 0 <= j < k ==> ancestor_at(all@, from, j as nat) == Some(#[trigger] visited@[j]),
            forall|j: int| 0 <= j < k ==> visited@[j] != target,
            forall|j: int| 0 <= j < k ==> ids.contains(#[trigger] visited@[j]),
            visited@.no_duplicates(),
            visited@.len() <= all@.len(),
            ids == all@.map_values(|m: Menu| m.id),
        decreases all@.len() - visited@.len(),
    {
        if cur == target {
            proof {
                assert(ancestor_at(all@, from, k) == Some(target));
            }
            return true;
        }
        let mut seen = false;
        let mut q: usize = 0;
        while q < visited.len()
            invariant
                q <= visited@.len(),
                !seen ==> forall|j: int| 0 <= j < q ==> visited@[j] != cur,
                seen ==> visited@.contains(cur),
            decreases visited@.len() - q,
        {
            if visited[q] == cur {
                seen = true;
            }
            q = q + 1;
        }
        if seen {
            proof {
                let i = choose|i: int| 0 <= i < visited@.len() && visited@[i] == cur;
                assert(ancestor_at(all@, from, i as nat) == Some(cur));
                assert forall|j: nat| j < k implies (#[trigger] ancestor_at(all@, from, j)) is Some && ancestor_at(all@, from, j) != Some(target) by {
                    assert(ancestor_at(all@, from, j) == Some(visited@[j as int]));
                }
                assert forall|m: nat| !(#[trigger] ancestor_at(all@, from, m) is None || ancestor_at(all@, from, m) == Some(target)) by {
                    lemma_cycle_never_stops(all@, from, target, i as nat, k, m);
                }
            }
            return false;
        }
        match parent_in(all, cur) {
            None => {
                proof {
                    assert(ancestor_at(all@, from, k + 1) is None);
                }
                return true;
            },
            Some(p) => {
                let ghost old_visited = visited@;
                proof {
                    lemma_parent_means_present(all@, cur);
                    let w = choose|w: int| 0 <= w < all@.len() && (#[trigger] all@[w]).id == cur;
                    assert(ids[w] == cur);
                }
                visited.push(cur);
                proof {
                    assert forall|a: int, b: int| 0 <= a < visited@.len() && 0 <= b < visited@.len() && a != b implies visited@[a] != visited@[b] by {
                        if a < old_visited.len() && b < old_visited.len() {
                            assert(old_visited[a] != old_visited[b]);
                        }
                    }
                    assert forall|x: i32| visited@.to_set().contains(x) implies ids.to_set().contains(x) by {
                        assert(visited@.contains(x));
                        let j = choose|j: int| 0 <= j < visited@.len() && visited@[j] == x;
                        assert(ids.contains(visited@[j]));
                    }
                    visited@.unique_seq_to_set();
                    ids.lemma_cardinality_of_set();
                    vstd::set_lib::lemma_len_subset(visited@.to_set(), ids.to_set());
                    assert(ancestor_at(all@, from, k + 1) == Some(p));
                    k = k + 1;
                }
                cur = p;
            },
        }
    }
}


/// The parent recorded for menu `c` is that of the last menu of `all` with
/// id `c` (later records win, as when rows are collected into a map), and
/// there is none when no menu has id `c`.
pub proof fn lemma_parent_is_last_record(all: Seq<Menu>, c: i32)
    ensures
        forall|k: int|
            0 <= k < all.len() && (#[trigger] all[k]).id == c && (forall|j: int|
                k < j < all.len() ==> (#[trigger] all[j]).id != c) ==> parent_of(all, c)
                == all[k].parent_id,
        (forall|j: int| 0 <= j < all.len() ==> (#[trigger] all[j]).id != c) ==> parent_of(all, c)
            is None,
    decreases all.len(),
{
    if all.len() > 0 {
        let rest = all.drop_last();
        lemma_parent_is_last_record(rest, c);
        let n = all.len() - 1;
        assert forall|k: int|
            0 <= k < all.len() && (#[trigger] all[k]).id == c && (forall|j: int|
                k < j < all.len() ==> (#[trigger] all[j]).id != c) implies parent_of(all, c)
            == all[k].parent_id by {
            if k < n {
                assert(all[n].id != c);
                assert(rest[k] == all[k]);
                assert forall|j: int| k < j < rest.len() implies (#[trigger] rest[j]).id != c by {
                    assert(rest[j] == all[j]);
                }
            }
        }
        if forall|j: int| 0 <= j < all.len() ==> (#[trigger] all[j]).id != c {
            assert(all[n].id != c);
            assert forall|j: int| 0 <= j < rest.len() implies (#[trigger] rest[j]).id != c by {
                assert(rest[j] == all[j]);
            }
        }
    }
}

/// The chain from `from` meets `target` exactly when `from` is `target`
/// (a menu moved under itself), or `from` has a recorded parent whose chain
/// meets `target`.
pub proof fn lemma_reaches_step(all: Seq<Menu>, from: i32, target: i32)
    ensures
        reaches(all, from, target) <==> (from == target || (parent_of(all, from) matches Some(q)
            && reaches(all, q, target))),
{
    assert(ancestor_at(all, from, 0) == Some(from));
    if reaches(all, from, target) && from != target {
        let k = choose|k: nat| #[trigger] ancestor_at(all, from, k) == Some(target);
        assert(k > 0);
        lemma_shift(all, from, 1, (k - 1) as nat);
        assert((1 + (k - 1) as nat) as nat == k);
        match parent_of(all, from) {
            Some(q) => {
                assert(ancestor_at(all, from, 1) == Some(q));
                assert(ancestor_at(all, q, (k - 1) as nat) == Some(target));
            },
            None => {
                assert(ancestor_at(all, from, 1) is None);
            },
        }
    }
    if parent_of(all, from) matches Some(q) && reaches(all, q, target) {
        let q = parent_of(all, from)->0;
        let k = choose|k: nat| #[trigger] ancestor_at(all, q, k) == Some(target);
        lemma_shift(all, from, 1, k);
        assert(ancestor_at(all, from, 1) == Some(q));
        assert(ancestor_at(all, from, 1 + k) == Some(target));
    }
}
} // verus!
