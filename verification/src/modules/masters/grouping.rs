//! Giving each listed group its items.

use vstd::prelude::*;

use super::entity::{MasterGroup, MasterItem};

verus! {

/// The items of `items` that belong to group `gid`, in order.
pub open spec fn items_of(items: Seq<MasterItem>, gid: i64) -> Seq<MasterItem>
    decreases items.len(),
{
    if items.len() == 0 {
        Seq::empty()
    } else if items.last().group_id == gid {
        items_of(items.drop_last(), gid).push(items.last())
    } else {
        items_of(items.drop_last(), gid)
    }
}

/// A group's items are exactly the items whose `group_id` is the group's id,
/// whatever their other fields, in input order.
pub proof fn lemma_items_of_is_group_filter(items: Seq<MasterItem>, gid: i64)
    ensures
        items_of(items, gid) == items.filter(|it: MasterItem| it.group_id == gid),
    decreases items.len(),
{
    reveal_with_fuel(Seq::filter, 1);
    if items.len() > 0 {
        lemma_items_of_is_group_filter(items.drop_last(), gid);
    }
}

/// Copies of the items of group `gid`, in order.
pub fn collect_items(items: &[MasterItem], gid: i64) -> (r: Vec<MasterItem>)
    ensures
        r@ == items_of(items@, gid),
{
    let mut out: Vec<MasterItem> = Vec::new();
    let mut i: usize = 0;
    proof {
        assert(items@.take(0) =~= Seq::<MasterItem>::empty());
    }
    while i < items.len()
        invariant
            i <= items@.len(),
            out@ == items_of(items@.take(i as int), gid),
        decreases items@.len() - i,
    {
        proof {
            assert(items@.take(i + 1).drop_last() =~= items@.take(i as int));
            assert(items@.take(i + 1).last() == items@[i as int]);
        }
        if items[i].group_id == gid {
            out.push(items[i].duplicate());
        }
        i = i + 1;
    }
    proof {
        assert(items@.take(i as int) =~= items@);
    }
    out
}

/// Each group of `groups` with its items set to those of `items` that
/// belong to it, in the order `items` lists them.
pub fn attach_items(groups: Vec<MasterGroup>, items: &[MasterItem]) -> (r: Vec<MasterGroup>)
    ensures
        r@.len() == groups@.len(),
        forall|i: int|
            0 <= i < groups@.len() ==> (#[trigger] r@[i]) == (MasterGroup {
                items: r@[i].items,
                ..groups@[i]
            }) && r@[i].items@ == items_of(items@, groups@[i].id),
{
    let ghost gs = groups@;
    let mut src = groups;
    let mut out: Vec<MasterGroup> = Vec::new();
    let ghost mut done: int = 0;
    while src.len() > 0
        invariant
            0 <= done <= gs.len(),
            src@ == gs.skip(done),
            out@.len() == done,
            forall|i: int|
                0 <= i < done ==> (#[trigger] out@[i]) == (MasterGroup { items: out@[i].items, ..gs[i] })
                    && out@[i].items@ == items_of(items@, gs[i].id),
        decreases src@.len(),
    {
        let mut g = src.remove(0);
        proof {
            assert(g == gs[done]);
        }
        g.items = collect_items(items, g.id);
        out.push(g);
        proof {
            done = done + 1;
            assert(src@ =~= gs.skip(done));
        }
    }
    out
}

} // verus!
