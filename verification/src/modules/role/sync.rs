//! Reconciling a role's permission set: the requested ids without
//! repeats, and the message naming the unknown ones.

use vstd::prelude::*;

use crate::text::{decimal, i64_to_string};

verus! {

pub open spec fn strictly_increasing(s: Seq<i32>) -> bool {
    forall|i: int, j: int| 0 <= i < j < s.len() ==> s[i] < s[j]
}

/// `r` lists the ids of `ids` once each, in increasing order (what sorting
/// and removing repeats gives).
pub open spec fn sorted_unique_of(ids: Seq<i32>, r: Seq<i32>) -> bool {
    &&& strictly_increasing(r)
    &&& forall|x: i32| r.contains(x) <==> ids.contains(x)
}

/// Two increasing sequences with the same elements are the same sequence:
/// the requested id list determines what the role is reconciled to.
pub proof fn lemma_sorted_unique_is_unique(a: Seq<i32>, b: Seq<i32>)
    requires
        strictly_increasing(a),
        strictly_increasing(b),
        forall|x: i32| a.contains(x) <==> b.contains(x),
    ensures
        a == b,
    decreases a.len(),
{
    if a.len() == 0 {
        if b.len() > 0 {
            assert(b.contains(b[0]));
        }
        assert(a =~= b);
    } else {
        assert(a.contains(a[0]));
        assert(b.len() > 0);
        assert(b.contains(b[0]));
        let ka = choose|k: int| 0 <= k < a.len() && a[k] == b[0];
        let kb = choose|k: int| 0 <= k < b.len() && b[k] == a[0];
        assert(a[0] <= a[ka]);
        assert(b[0] <= b[kb]);
        assert(a[0] == b[0]);
        let a1 = a.drop_first();
        let b1 = b.drop_first();
        assert forall|x: i32| a1.contains(x) <==> b1.contains(x) by {
            if a1.contains(x) {
                let k = choose|k: int| 0 <= k < a1.len() && a1[k] == x;
                assert(a[k + 1] == x);
                assert(x > a[0]);
                assert(b.contains(x));
                let m = choose|m: int| 0 <= m < b.len() && b[m] == x;
                assert(m != 0);
                assert(b1[m - 1] == x);
            }
            if b1.contains(x) {
                let k = choose|k: int| 0 <= k < b1.len() && b1[k] == x;
                assert(b[k + 1] == x);
                assert(x > b[0]);
                assert(a.contains(x));
                let m = choose|m: int| 0 <= m < a.len() && a[m] == x;
                assert(m != 0);
                assert(a1[m - 1] == x);
            }
        }
        lemma_sorted_unique_is_unique(a1, b1);
        assert(a =~= seq![a[0]] + a1);
        assert(b =~= seq![b[0]] + b1);
    }
}

/// The ids of `ids`, each once, in increasing order.
pub fn sorted_unique(ids: &[i32]) -> (r: Vec<i32>)
    ensures
        sorted_unique_of(ids@, r@),
{
    let mut out: Vec<i32> = Vec::new();
    let mut i: usize = 0;
    while i < ids.len()
        invariant
            i <= ids@.len(),
            strictly_increasing(out@),
            forall|x: i32| out@.contains(x) <==> ids@.take(i as int).contains(x),
        decreases ids@.len() - i,
    {
        let x = ids[i];
        let mut j: usize = 0;
        while j < out.len() && out[j] < x
            invariant
                j <= out@.len(),
                forall|q: int| 0 <= q < j ==> out@[q] < x,
            decreases out@.len() - j,
        {
            j = j + 1;
        }
        let ghost before = out@;
        let ghost t0 = ids@.take(i as int);
        let ghost t1 = ids@.take(i + 1);
        proof {
            assert forall|y: i32| t1.contains(y) <==> (t0.contains(y) || y == x) by {
                if t1.contains(y) {
                    let k = choose|k: int| 0 <= k < t1.len() && #[trigger] t1[k] == y;
                    if k < i {
                        assert(t0[k] == y);
                    }
                }
                if t0.contains(y) {
                    let k = choose|k: int| 0 <= k < t0.len() && #[trigger] t0[k] == y;
                    assert(t1[k] == y);
                }
                if y == x {
                    assert(t1[i as int] == y);
                }
            }
        }
        if j < out.len() && out[j] == x {
            proof {
                assert(out@[j as int] == x);
                assert(out@.contains(x));
            }
        } else {
            out.insert(j, x);
            proof {
                assert forall|a: int, b: int| 0 <= a < b < out@.len() implies out@[a] < out@[b] by {
                    if b < j {
                    } else if b == j {
                        assert(out@[a] == before[a]);
                    } else if a < j {
                        assert(out@[b] == before[b - 1]);
                        assert(out@[a] == before[a]);
                        if j < before.len() {
                            assert(before[j as int] > x || before[j as int] == x);
                        }
                    } else if a == j {
                        assert(out@[b] == before[b - 1]);
                        assert(before[j as int] >= x);
                        assert(before[j as int] != x);
                        if b - 1 > j {
                            assert(before[j as int] < before[b - 1]);
                        }
                    } else {
                        assert(out@[b] == before[b - 1]);
                        assert(out@[a] == before[a - 1]);
                    }
                }
                assert forall|y: i32| out@.contains(y) <==> (before.contains(y) || y == x) by {
                    if out@.contains(y) {
                        let k = choose|k: int| 0 <= k < out@.len() && out@[k] == y;
                        if k < j {
                            assert(before[k] == y);
                        } else if k > j {
                            assert(before[k - 1] == y);
                        }
                    }
                    if before.contains(y) {
                        let k = choose|k: int| 0 <= k < before.len() && before[k] == y;
                        if k < j {
                            assert(out@[k] == y);
                        } else {
                            assert(out@[k + 1] == y);
                        }
                    }
                    if y == x {
                        assert(out@[j as int] == x);
                    }
                }
                assert(out@[j as int] == x);
                assert(out@.contains(x));
            }
        }
        proof {
            assert forall|y: i32| out@.contains(y) <==> t1.contains(y) by {
                assert(t1.contains(y) <==> (t0.contains(y) || y == x));
                assert(before.contains(y) <==> t0.contains(y));
                assert(out@.contains(x));
                if y != x {
                    assert(out@.contains(y) <==> before.contains(y));
                }
            }
        }
        i = i + 1;
    }
    proof {
        assert(ids@.take(i as int) =~= ids@);
    }
    out
}

/// The ids of `wanted` that are not in `found`, in order.
pub open spec fn absent(wanted: Seq<i32>, found: Seq<i32>) -> Seq<i32>
    decreases wanted.len(),
{
    if wanted.len() == 0 {
        Seq::empty()
    } else if found.contains(wanted.last()) {
        absent(wanted.drop_last(), found)
    } else {
        absent(wanted.drop_last(), found).push(wanted.last())
    }
}

/// The ids reported missing are exactly the wanted ids that were not
/// found, in the order they were wanted.
pub proof fn lemma_absent_is_not_found(wanted: Seq<i32>, found: Seq<i32>)
    ensures
        absent(wanted, found) == wanted.filter(|x: i32| !found.contains(x)),
    decreases wanted.len(),
{
    reveal_with_fuel(Seq::filter, 1);
    if wanted.len() > 0 {
        lemma_absent_is_not_found(wanted.drop_last(), found);
    }
}

/// The ids rendered in decimal and joined with ", ".
pub open spec fn joined(ids: Seq<i32>) -> Seq<char>
    decreases ids.len(),
{
    if ids.len() == 0 {
        Seq::empty()
    } else if ids.len() == 1 {
        decimal(ids[0] as int)
    } else {
        joined(ids.drop_last()) + ", "@ + decimal(ids.last() as int)
    }
}

/// The message for permission ids that do not exist.
pub open spec fn unknown_ids_message(missing: Seq<i32>) -> Seq<char> {
    "permission(s) not found: "@ + joined(missing)
}

fn contains_id(v: &Vec<i32>, x: i32) -> (r: bool)
    ensures
        r == v@.contains(x),
{
    let mut i: usize = 0;
    while i < v.len()
        invariant
            i <= v@.len(),
            forall|q: int| 0 <= q < i ==> v@[q] != x,
        decreases v@.len() - i,
    {
        if v[i] == x {
            return true;
        }
        i = i + 1;
    }
    false
}

/// The ids of `wanted` missing from `found`, in order.
pub fn missing_ids(wanted: &Vec<i32>, found: &Vec<i32>) -> (r: Vec<i32>)
    ensures
        r@ == absent(wanted@, found@),
{
    let mut out: Vec<i32> = Vec::new();
    let mut i: usize = 0;
    proof {
        assert(wanted@.take(0) =~= Seq::<i32>::empty());
    }
    while i < wanted.len()
        invariant
            i <= wanted@.len(),
            out@ == absent(wanted@.take(i as int), found@),
        decreases wanted@.len() - i,
    {
        proof {
            assert(wanted@.take(i + 1).drop_last() =~= wanted@.take(i as int));
            assert(wanted@.take(i + 1).last() == wanted@[i as int]);
        }
        if !contains_id(found, wanted[i]) {
            out.push(wanted[i]);
        }
        i = i + 1;
    }
    proof {
        assert(wanted@.take(i as int) =~= wanted@);
    }
    out
}

/// "permission(s) not found: " followed by the ids joined with ", ".
pub fn unknown_ids_text(missing: &Vec<i32>) -> (r: String)
    ensures
        r@ == unknown_ids_message(missing@),
{
    let mut list = String::new();
    let mut i: usize = 0;
    proof {
        assert(missing@.take(0) =~= Seq::<i32>::empty());
    }
    while i < missing.len()
        invariant
            i <= missing@.len(),
            list@ == joined(missing@.take(i as int)),
        decreases missing@.len() - i,
    {
        let d = i64_to_string(missing[i] as i64);
        proof {
            assert(missing@.take(i + 1).drop_last() =~= missing@.take(i as int));
            assert(missing@.take(i + 1).last() == missing@[i as int]);
        }
        if i == 0 {
            list = d;
            proof {
                assert(missing@.take(1) =~= seq![missing@[0]]);
            }
        } else {
            list = list.concat(", ").concat(d.as_str());
        }
        i = i + 1;
    }
    proof {
        assert(missing@.take(i as int) =~= missing@);
    }
    String::from_str("permission(s) not found: ").concat(list.as_str())
}

} // verus!
