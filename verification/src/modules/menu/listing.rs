//! The admin list of menus: search by name or slug, then one page.

use vstd::prelude::*;

use super::entity::Menu;
use crate::text::{chars_of, contains_chars, contains_seq, lowercase, to_lowercase};

verus! {

/// `m`'s name or slug contains `needle`, compared in lowercase.
pub open spec fn matches_search(m: Menu, needle: Seq<char>) -> bool {
    contains_seq(lowercase(m.name@), lowercase(needle)) || contains_seq(
        lowercase(m.slug@),
        lowercase(needle),
    )
}

/// The menus of `ms` that match `needle`, in order.
pub open spec fn search_filter(ms: Seq<Menu>, needle: Seq<char>) -> Seq<Menu>
    decreases ms.len(),
{
    if ms.len() == 0 {
        Seq::empty()
    } else if matches_search(ms.last(), needle) {
        search_filter(ms.drop_last(), needle).push(ms.last())
    } else {
        search_filter(ms.drop_last(), needle)
    }
}

/// A non-empty search keeps exactly, in input order, the menus whose
/// lowercased name or slug holds the lowercased search text at some
/// position, not only at the start.
pub proof fn lemma_search_keeps_substring_matches(ms: Seq<Menu>, needle: Seq<char>)
    ensures
        search_filter(ms, needle) == ms.filter(
            |m: Menu|
                (exists|i: int|
                    0 <= i && i + lowercase(needle).len() <= lowercase(m.name@).len()
                        && #[trigger] lowercase(m.name@).subrange(i, i + lowercase(needle).len())
                        =~= lowercase(needle)) || (exists|i: int|
                    0 <= i && i + lowercase(needle).len() <= lowercase(m.slug@).len()
                        && #[trigger] lowercase(m.slug@).subrange(i, i + lowercase(needle).len())
                        =~= lowercase(needle)),
        ),
    decreases ms.len(),
{
    reveal_with_fuel(Seq::filter, 1);
    if ms.len() > 0 {
        lemma_search_keeps_substring_matches(ms.drop_last(), needle);
    }
}

/// The menus a search keeps: all of them when there is no search text or it
/// is empty.
pub open spec fn searched(ms: Seq<Menu>, search: Option<Seq<char>>) -> Seq<Menu> {
    match search {
        Some(s) => if s.len() == 0 {
            ms
        } else {
            search_filter(ms, s)
        },
        None => ms,
    }
}

/// The page of `kept` that starts at item `offset` and holds up to `limit`
/// items.
pub open spec fn page_of(kept: Seq<Menu>, offset: nat, limit: nat) -> Seq<Menu> {
    let lo = if offset < kept.len() { offset } else { kept.len() };
    let hi = if offset + limit < kept.len() { offset + limit } else { kept.len() };
    kept.subrange(lo as int, hi as int)
}

/// The offset of page `page` of `limit` items, as the list computes it.
pub open spec fn page_offset(page: i64, limit: i64) -> int {
    let o = (page - 1) * limit;
    if o < 0 { 0 } else { o }
}

/// No search text, or an empty one, keeps every menu.
pub proof fn lemma_no_search_keeps_all(ms: Seq<Menu>)
    ensures
        searched(ms, None) == ms,
        searched(ms, Some(Seq::<char>::empty())) == ms,
{
}

/// A page holds the items of `kept` from `offset` on, at most `limit` of
/// them: item `i` of the page is item `offset + i` of `kept`, and the page
/// is empty once `offset` is past the end.
pub proof fn lemma_page_is_window(kept: Seq<Menu>, offset: nat, limit: nat)
    ensures
        page_of(kept, offset, limit).len() == (if offset >= kept.len() {
            0
        } else if limit <= kept.len() - offset {
            limit as int
        } else {
            kept.len() - offset
        }),
        forall|i: int|
            0 <= i < page_of(kept, offset, limit).len() ==> #[trigger] page_of(kept, offset, limit)[i]
                == kept[offset + i],
{
}

/// Pages are consecutive: the first starts at item 0, and each next page
/// starts `limit` items after the one before.
pub proof fn lemma_pages_are_consecutive(page: i64, limit: i64)
    requires
        page >= 1,
        limit >= 0,
    ensures
        page_offset(1, limit) == 0,
        page < i64::MAX ==> page_offset((page + 1) as i64, limit) == page_offset(page, limit)
            + limit,
{
    assert((page - 1) * limit >= 0) by (nonlinear_arith)
        requires
            page >= 1,
            limit >= 0,
    ;
    assert(page * limit == (page - 1) * limit + limit) by (nonlinear_arith);
}

fn matches(m: &Menu, needle_lower: &Vec<char>) -> (r: bool)
    requires
        exists|s: Seq<char>| needle_lower@ == lowercase(s),
    ensures
        forall|s: Seq<char>|
            needle_lower@ == lowercase(s) ==> (r == matches_search(*m, s)),
{
    let name = to_lowercase(m.name.as_str());
    let name_chars = chars_of(name.as_str());
    if contains_chars(&name_chars, needle_lower) {
        return true;
    }
    let slug = to_lowercase(m.slug.as_str());
    let slug_chars = chars_of(slug.as_str());
    contains_chars(&slug_chars, needle_lower)
}

/// Keeps the menus whose name or slug contains `search` (ignoring case),
/// then returns the page `page` of `limit` items and the number of menus
/// kept. An absent or empty search keeps every menu.
pub fn list_page(menus: Vec<Menu>, search: Option<&str>, page: i64, limit: i64) -> (r: (
    Vec<Menu>,
    i64,
))
    requires
        page > i64::MIN,
        i64::MIN <= (page - 1) * limit <= i64::MAX,
    ensures
        ({
            let kept = searched(menus@, match search {
                Some(s) => Some(s@),
                None => None,
            });
            &&& r.1 == kept.len() as i64
            &&& r.0@ == page_of(
                kept,
                (page_offset(page, limit) as usize) as nat,
                (limit as usize) as nat,
            )
        }),
{
    let ghost ms = menus@;
    let ghost sv = match search {
        Some(s) => Some(s@),
        None => None::<Seq<char>>,
    };
    let mut kept: Vec<Menu> = Vec::new();
    let mut src = menus;
    match search {
        Some(s) if !s.is_empty() => {
            let ghost needle = s@;
            let lower = to_lowercase(s);
            let lower_chars = chars_of(lower.as_str());
            let ghost mut done: int = 0;
            proof {
                assert(ms.take(0) =~= Seq::<Menu>::empty());
            }
            while src.len() > 0
                invariant
                    0 <= done <= ms.len(),
                    src@ == ms.skip(done),
                    lower_chars@ == lowercase(needle),
                    kept@ == search_filter(ms.take(done), needle),
                decreases src@.len(),
            {
                let m = src.remove(0);
                proof {
                    assert(ms.take(done + 1).drop_last() =~= ms.take(done));
                    assert(ms.take(done + 1).last() == m);
                }
                if matches(&m, &lower_chars) {
                    kept.push(m);
                }
                proof {
                    done = done + 1;
                    assert(src@ =~= ms.skip(done));
                }
            }
            proof {
                assert(ms.take(done) =~= ms);
            }
        },
        _ => {
            kept = src;
        },
    }
    let total = kept.len() as i64;
    let o = (page - 1) * limit;
    let offset: usize = if o < 0 {
        0
    } else {
        #[verifier::truncate]
        (o as usize)
    };
    let take = #[verifier::truncate] (limit as usize);
    let ghost kv = kept@;
    let n = kept.len();
    let lo = if offset < n { offset } else { n };
    let hi = if take < n - lo { lo + take } else { n };
    let mut out: Vec<Menu> = Vec::new();
    let mut rest = kept;
    let mut i: usize = 0;
    while i < hi
        invariant
            rest@ == kv.skip(i as int),
            i <= hi <= n == kv.len(),
            lo <= hi,
            out@ == (if i <= lo { Seq::empty() } else { kv.subrange(lo as int, i as int) }),
        decreases hi - i,
    {
        let m = rest.remove(0);
        if i >= lo {
            out.push(m);
        }
        proof {
            if i >= lo {
                assert(kv.subrange(lo as int, i + 1) =~= (if i <= lo { Seq::empty() } else { kv.subrange(lo as int, i as int) }).push(kv[i as int]));
            }
        }
        i = i + 1;
        proof {
            assert(rest@ =~= kv.skip(i as int));
        }
    }
    proof {
        if hi <= lo {
            assert(kv.subrange(lo as int, hi as int) =~= Seq::<Menu>::empty());
        }
    }
    (out, total)
}

} // verus!
