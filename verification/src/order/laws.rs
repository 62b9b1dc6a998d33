//! What orders, selections and pages are, in terms of the keys that rows are
//! listed by.

use vstd::prelude::*;

use crate::order::{
    is_page, is_selection, law_selection_is_deterministic, lemma_placement, left_behind, lists,
    page, page_of, placed_before, select, sorted_order, SortKey,
};
use crate::text::{lemma_text_order, text_before, text_less};

verus! {

/// Whether a key comes no later than another: by the first number, then the
/// second, then the third, then the bytes of the identity.
pub open spec fn no_later(a: SortKey, b: SortKey) -> bool {
    &&& a.first <= b.first
    &&& a.first == b.first ==> a.second <= b.second
    &&& a.first == b.first && a.second == b.second ==> a.third <= b.third
    &&& a.first == b.first && a.second == b.second && a.third == b.third ==> a.id@ == b.id@
        || text_before(a.id@, b.id@)
}

/// A row that is placed before another has no later key.
pub proof fn lemma_placed_no_later(keys: Seq<SortKey>, i: int, j: int)
    requires
        placed_before(keys, i, j),
    ensures
        no_later(keys[i], keys[j]),
        i != j,
{
    lemma_text_order(keys[i].id@, keys[j].id@, keys[i].id@);
    lemma_placement(keys, i, j, i);
}

/// A text comes before another exactly where their bytes agree up to a place at
/// which the first ends or has the smaller byte.
pub proof fn law_texts_are_ordered_by_bytes(a: &str, b: &str, less: bool)
    requires
        call_ensures(text_less, (a, b), less),
    ensures
        ({
            let x = vstd::utf8::encode_utf8(a@);
            let y = vstd::utf8::encode_utf8(b@);
            less <==> exists|n: int|
                0 <= n <= x.len() && n < y.len() && x.take(n) == #[trigger] y.take(n) && (n
                    == x.len() || x[n] < y[n])
        }),
{
    lemma_bytes_order(vstd::utf8::encode_utf8(a@), vstd::utf8::encode_utf8(b@));
}

proof fn lemma_bytes_order(x: Seq<u8>, y: Seq<u8>)
    ensures
        crate::text::bytes_less(x, y) <==> exists|n: int|
            0 <= n <= x.len() && n < y.len() && x.take(n) == #[trigger] y.take(n) && (n == x.len()
                || x[n] < y[n]),
    decreases x.len(),
{
    if y.len() == 0 {
    } else if x.len() == 0 {
        assert(x.take(0) =~= y.take(0));
    } else if x[0] != y[0] {
        if x[0] < y[0] {
            assert(x.take(0) =~= y.take(0));
        }
        assert forall|n: int|
            0 <= n <= x.len() && n < y.len() && x.take(n) == #[trigger] y.take(n) implies n
            == 0 by {
            if n > 0 {
                assert(x.take(n)[0] == y.take(n)[0]);
            }
        }
    } else {
        let xs = x.skip(1);
        let ys = y.skip(1);
        lemma_bytes_order(xs, ys);
        if crate::text::bytes_less(x, y) {
            let n = choose|n: int|
                0 <= n <= xs.len() && n < ys.len() && xs.take(n) == #[trigger] ys.take(n) && (n
                    == xs.len() || xs[n] < ys[n]);
            assert(x.take(n + 1) =~= seq![x[0]] + xs.take(n));
            assert(y.take(n + 1) =~= seq![y[0]] + ys.take(n));
        }
        assert forall|n: int|
            0 <= n <= x.len() && n < y.len() && x.take(n) == #[trigger] y.take(n) && (n == x.len()
                || x[n] < y[n]) implies crate::text::bytes_less(x, y) by {
            if n > 0 {
                assert(xs.take(n - 1) =~= x.take(n).skip(1));
                assert(ys.take(n - 1) =~= y.take(n).skip(1));
            }
        }
    }
}

/// Rows of a selection: eligible, each once, in the order of their keys. An
/// eligible row is left out only where the selection is full of rows that come
/// no later.
pub proof fn lemma_selection_rows(
    keys: Seq<SortKey>,
    eligible: Seq<bool>,
    limit: nat,
    picked: Seq<usize>,
)
    requires
        is_selection(keys, eligible, limit, picked),
    ensures
        picked.len() <= limit,
        forall|i: int|
            0 <= i < picked.len() ==> 0 <= #[trigger] picked[i] < keys.len()
                && eligible[picked[i] as int],
        forall|i: int, j: int|
            0 <= i < j < picked.len() ==> (#[trigger] picked[i]) != (#[trigger] picked[j])
                && no_later(keys[picked[i] as int], keys[picked[j] as int]),
        forall|k: int|
            0 <= k < keys.len() && #[trigger] eligible[k] ==> picked.contains(k as usize) || (
            picked.len() == limit && forall|i: int|
                0 <= i < picked.len() ==> no_later(keys[#[trigger] picked[i] as int], keys[k])),
{
    assert forall|i: int, j: int| 0 <= i < j < picked.len() implies (#[trigger] picked[i]) != (
    #[trigger] picked[j]) && no_later(keys[picked[i] as int], keys[picked[j] as int]) by {
        assert(placed_before(keys, picked[i] as int, picked[j] as int));
        lemma_placed_no_later(keys, picked[i] as int, picked[j] as int);
    }
    assert forall|k: int| 0 <= k < keys.len() && #[trigger] eligible[k] implies picked.contains(
        k as usize,
    ) || (picked.len() == limit && forall|i: int|
        0 <= i < picked.len() ==> no_later(keys[#[trigger] picked[i] as int], keys[k])) by {
        if lists(picked, k) {
            let i = choose|i: int| 0 <= i < picked.len() && #[trigger] picked[i] == k;
            assert(picked[i] == k as usize);
        } else {
            assert(left_behind(keys, limit, picked, k));
            assert forall|i: int| 0 <= i < picked.len() implies no_later(
                keys[#[trigger] picked[i] as int],
                keys[k],
            ) by {
                lemma_placed_no_later(keys, picked[i] as int, k);
            }
        }
    }
}

/// Rows of a page: eligible, each once, in the order of their keys or against
/// it. On the first page an eligible row is left out only where the page is full
/// of rows that come no later.
pub proof fn lemma_page_rows(
    keys: Seq<SortKey>,
    eligible: Seq<bool>,
    descending: bool,
    limit: nat,
    offset: nat,
    picked: Seq<usize>,
)
    requires
        is_page(keys, eligible, descending, limit, offset, picked),
    ensures
        picked.len() <= limit,
        forall|i: int|
            0 <= i < picked.len() ==> 0 <= #[trigger] picked[i] < keys.len()
                && eligible[picked[i] as int],
        forall|i: int, j: int|
            0 <= i < j < picked.len() ==> (#[trigger] picked[i]) != (#[trigger] picked[j]) && (
            if descending {
                no_later(keys[picked[j] as int], keys[picked[i] as int])
            } else {
                no_later(keys[picked[i] as int], keys[picked[j] as int])
            }),
        offset == 0 ==> forall|k: int|
            0 <= k < keys.len() && #[trigger] eligible[k] ==> picked.contains(k as usize) || (
            picked.len() == limit && forall|i: int|
                0 <= i < picked.len() ==> if descending {
                    no_later(keys[k], keys[#[trigger] picked[i] as int])
                } else {
                    no_later(keys[picked[i] as int], keys[k])
                }),
{
    let all = choose|all: Seq<usize>|
        {
            &&& #[trigger] is_selection(keys, eligible, keys.len(), all)
            &&& picked == page_of(
                if descending {
                    all.reverse()
                } else {
                    all
                },
                limit,
                offset,
            )
        };
    lemma_selection_rows(keys, eligible, keys.len(), all);
    let listing = if descending {
        all.reverse()
    } else {
        all
    };
    let from = if offset < all.len() {
        offset as int
    } else {
        all.len() as int
    };
    assert forall|i: int| 0 <= i < picked.len() implies picked[i] == listing[from + i] by {}
    assert forall|i: int, j: int| 0 <= i < j < picked.len() implies (#[trigger] picked[i]) != (
    #[trigger] picked[j]) && (if descending {
        no_later(keys[picked[j] as int], keys[picked[i] as int])
    } else {
        no_later(keys[picked[i] as int], keys[picked[j] as int])
    }) by {
        if descending {
            assert(picked[i] == all[all.len() - 1 - (from + i)]);
            assert(picked[j] == all[all.len() - 1 - (from + j)]);
        } else {
            assert(picked[i] == all[from + i]);
            assert(picked[j] == all[from + j]);
        }
    }
    if offset == 0 {
        assert forall|k: int| 0 <= k < keys.len() && #[trigger] eligible[k] implies picked.contains(
            k as usize,
        ) || (picked.len() == limit && forall|i: int|
            0 <= i < picked.len() ==> if descending {
                no_later(keys[k], keys[#[trigger] picked[i] as int])
            } else {
                no_later(keys[picked[i] as int], keys[k])
            }) by {
            lemma_all_listed(keys, eligible, all, k);
            let m = choose|m: int| 0 <= m < all.len() && #[trigger] all[m] == k;
            let at = if descending {
                all.len() - 1 - m
            } else {
                m
            };
            assert(listing[at] == k as usize);
            if at < picked.len() {
                assert(picked[at] == k as usize);
            } else {
                assert forall|i: int| 0 <= i < picked.len() implies if descending {
                    no_later(keys[k], keys[#[trigger] picked[i] as int])
                } else {
                    no_later(keys[picked[i] as int], keys[k])
                } by {
                    if descending {
                        assert(picked[i] == all[all.len() - 1 - i]);
                        assert(all[m] == k);
                    } else {
                        assert(picked[i] == all[i]);
                    }
                }
            }
        }
    }
}

/// A selection with room for every row leaves no eligible row out.
pub proof fn lemma_all_listed(
    keys: Seq<SortKey>,
    eligible: Seq<bool>,
    all: Seq<usize>,
    k: int,
)
    requires
        is_selection(keys, eligible, keys.len(), all),
        0 <= k < keys.len(),
        eligible[k],
    ensures
        lists(all, k),
        all.contains(k as usize),
{
    lemma_selection_rows(keys, eligible, keys.len(), all);
    if !lists(all, k) {
        assert(left_behind(keys, keys.len(), all, k));
        let numbers = all.map_values(|at: usize| at as int).push(k);
        assert forall|i: int, j: int| 0 <= i < j < numbers.len() implies numbers[i]
            != numbers[j] by {
            if j < all.len() {
                assert(all[i] != all[j]);
            } else {
                assert(all[i] != k);
            }
        }
        assert forall|i: int| 0 <= i < numbers.len() implies 0 <= #[trigger] numbers[i]
            < keys.len() by {
            if i < all.len() {
                assert(all[i] < keys.len());
            }
        }
        lemma_distinct_bounded(numbers, keys.len());
    } else {
        let i = choose|i: int| 0 <= i < all.len() && #[trigger] all[i] == k;
        assert(all[i] == k as usize);
    }
}

/// At most so many distinct numbers lie below a bound.
proof fn lemma_distinct_bounded(numbers: Seq<int>, bound: nat)
    requires
        numbers.no_duplicates(),
        forall|i: int| 0 <= i < numbers.len() ==> 0 <= #[trigger] numbers[i] < bound,
    ensures
        numbers.len() <= bound,
{
    numbers.unique_seq_to_set();
    let below = vstd::set_lib::set_int_range(0, bound as int);
    vstd::set_lib::lemma_int_range(0, bound as int);
    assert(numbers.to_set().subset_of(below)) by {
        assert forall|n: int| numbers.to_set().contains(n) implies below.contains(n) by {
            let i = choose|i: int| 0 <= i < numbers.len() && numbers[i] == n;
            assert(0 <= numbers[i] < bound);
        }
    }
    vstd::set_lib::lemma_len_subset(numbers.to_set(), below);
}

/// A sorted order lists every row once, each no later than those behind it.
pub proof fn law_orders_list_every_row(keys: &[SortKey], order: Vec<usize>)
    requires
        call_ensures(sorted_order, (keys,), order),
    ensures
        order@.len() == keys@.len(),
        forall|k: int| 0 <= k < keys@.len() ==> order@.contains(#[trigger] (k as usize)),
        forall|i: int, j: int|
            0 <= i < j < order@.len() ==> (#[trigger] order@[i]) != (#[trigger] order@[j]) && {
                let a = keys@[order@[i] as int];
                let b = keys@[order@[j] as int];
                &&& a.first <= b.first
                &&& a.first == b.first ==> a.second <= b.second
                &&& a.first == b.first && a.second == b.second ==> a.third <= b.third
                &&& a.first == b.first && a.second == b.second && a.third == b.third ==> a.id@
                    == b.id@ || text_before(a.id@, b.id@)
            },
{
    assert forall|k: int| 0 <= k < keys@.len() implies order@.contains(
        #[trigger] (k as usize),
    ) by {
        assert(lists(order@, k));
        let i = choose|i: int| 0 <= i < order@.len() && #[trigger] order@[i] == k;
        assert(order@[i] == k as usize);
    }
    assert forall|i: int, j: int| 0 <= i < j < order@.len() implies (#[trigger] order@[i]) != (
    #[trigger] order@[j]) && no_later(keys@[order@[i] as int], keys@[order@[j] as int]) by {
        assert(placed_before(keys@, order@[i] as int, order@[j] as int));
        lemma_placed_no_later(keys@, order@[i] as int, order@[j] as int);
    }
}

/// A selection holds eligible rows alone, each once and no later than those
/// behind it; what is eligible and left out comes no earlier than any of them,
/// and is left out only for want of room.
pub proof fn law_selections_hold_the_first(
    keys: &[SortKey],
    eligible: &[bool],
    limit: usize,
    picked: Vec<usize>,
)
    requires
        call_ensures(select, (keys, eligible, limit), picked),
    ensures
        picked@.len() <= limit,
        forall|i: int|
            0 <= i < picked@.len() ==> (#[trigger] picked@[i]) < keys@.len()
                && eligible@[picked@[i] as int],
        forall|i: int, j: int|
            0 <= i < j < picked@.len() ==> (#[trigger] picked@[i]) != (#[trigger] picked@[j]) && {
                let a = keys@[picked@[i] as int];
                let b = keys@[picked@[j] as int];
                &&& a.first <= b.first
                &&& a.first == b.first ==> a.second <= b.second
                &&& a.first == b.first && a.second == b.second ==> a.third <= b.third
                &&& a.first == b.first && a.second == b.second && a.third == b.third ==> a.id@
                    == b.id@ || text_before(a.id@, b.id@)
            },
        forall|k: int, i: int|
            0 <= k < keys@.len() && #[trigger] eligible@[k] && !picked@.contains(k as usize) && 0
                <= i < picked@.len() ==> picked@.len() == limit && {
                let a = keys@[#[trigger] picked@[i] as int];
                let b = keys@[k];
                &&& a.first <= b.first
                &&& a.first == b.first ==> a.second <= b.second
                &&& a.first == b.first && a.second == b.second ==> a.third <= b.third
                &&& a.first == b.first && a.second == b.second && a.third == b.third ==> a.id@
                    == b.id@ || text_before(a.id@, b.id@)
            },
        picked@.len() < limit ==> forall|k: int|
            0 <= k < keys@.len() && #[trigger] eligible@[k] ==> picked@.contains(k as usize),
{
    lemma_selection_rows(keys@, eligible@, limit as nat, picked@);
}

/// Pages at successive offsets are parts of one listing: a page is what a longer
/// first page shows behind the offset. Against the order, the first page of all
/// rows is the listing read backwards.
pub proof fn law_pages_are_parts_of_one_listing(
    keys: &[SortKey],
    eligible: &[bool],
    descending: bool,
    limit: u32,
    offset: u32,
    both: u32,
    whole: Vec<usize>,
    part: Vec<usize>,
)
    requires
        call_ensures(page, (keys, eligible, descending, limit, offset), part),
        call_ensures(page, (keys, eligible, descending, both, 0u32), whole),
        both == limit + offset,
    ensures
        offset <= whole@.len() ==> part@ == whole@.skip(offset as int),
        offset > whole@.len() ==> part@.len() == 0,
        whole@.len() <= both,
        forall|i: int|
            0 <= i < whole@.len() ==> (#[trigger] whole@[i]) < keys@.len()
                && eligible@[whole@[i] as int],
        forall|i: int, j: int|
            0 <= i < j < whole@.len() ==> (#[trigger] whole@[i]) != (#[trigger] whole@[j]) && {
                let a = keys@[if descending {
                    whole@[j]
                } else {
                    whole@[i]
                } as int];
                let b = keys@[if descending {
                    whole@[i]
                } else {
                    whole@[j]
                } as int];
                &&& a.first <= b.first
                &&& a.first == b.first ==> a.second <= b.second
                &&& a.first == b.first && a.second == b.second ==> a.third <= b.third
                &&& a.first == b.first && a.second == b.second && a.third == b.third ==> a.id@
                    == b.id@ || text_before(a.id@, b.id@)
            },
        whole@.len() < both ==> forall|k: int|
            0 <= k < keys@.len() && #[trigger] eligible@[k] ==> whole@.contains(k as usize),
{
    lemma_page_rows(keys@, eligible@, descending, both as nat, 0, whole@);
    lemma_page_parts(
        keys@,
        eligible@,
        descending,
        limit as nat,
        offset as nat,
        whole@,
        part@,
    );
}

/// A page is what a longer first page shows behind the offset.
pub proof fn lemma_page_parts(
    keys: Seq<SortKey>,
    eligible: Seq<bool>,
    descending: bool,
    limit: nat,
    offset: nat,
    whole: Seq<usize>,
    part: Seq<usize>,
)
    requires
        is_page(keys, eligible, descending, limit, offset, part),
        is_page(keys, eligible, descending, (limit + offset) as nat, 0, whole),
    ensures
        offset <= whole.len() ==> part == whole.skip(offset as int),
        offset > whole.len() ==> part.len() == 0,
{
    let a = choose|all: Seq<usize>|
        {
            &&& #[trigger] is_selection(keys, eligible, keys.len(), all)
            &&& part == page_of(
                if descending {
                    all.reverse()
                } else {
                    all
                },
                limit,
                offset,
            )
        };
    let b = choose|all: Seq<usize>|
        {
            &&& #[trigger] is_selection(keys, eligible, keys.len(), all)
            &&& whole == page_of(
                if descending {
                    all.reverse()
                } else {
                    all
                },
                (limit + offset) as nat,
                0,
            )
        };
    law_selection_is_deterministic(keys, eligible, keys.len(), a, b);
    if offset <= whole.len() {
        assert(part =~= whole.skip(offset as int));
    }
}

/// Whether positions list rows that are to be shown, each once and in order, at
/// most as many as asked for; a row is left out only where the list is full of
/// rows that come before it.
pub open spec fn is_listing(
    picked: Seq<usize>,
    rows: nat,
    limit: nat,
    shown: spec_fn(int) -> bool,
    before: spec_fn(int, int) -> bool,
) -> bool {
    &&& picked.len() <= limit
    &&& forall|i: int|
        0 <= i < picked.len() ==> (#[trigger] picked[i]) < rows && shown(picked[i] as int)
    &&& forall|i: int, j: int|
        0 <= i < j < picked.len() ==> (#[trigger] picked[i]) != (#[trigger] picked[j]) && before(
            picked[i] as int,
            picked[j] as int,
        )
    &&& forall|k: int|
        0 <= k < rows && #[trigger] shown(k) ==> picked.contains(k as usize) || (picked.len()
            == limit && forall|i: int|
            0 <= i < picked.len() ==> before(#[trigger] picked[i] as int, k))
}

/// A first page is a listing of the eligible rows.
pub proof fn lemma_page_listing(
    keys: Seq<SortKey>,
    eligible: Seq<bool>,
    limit: nat,
    picked: Seq<usize>,
    shown: spec_fn(int) -> bool,
    before: spec_fn(int, int) -> bool,
)
    requires
        is_page(keys, eligible, false, limit, 0, picked),
        forall|k: int| 0 <= k < keys.len() ==> #[trigger] eligible[k] == shown(k),
        forall|a: int, b: int|
            0 <= a < keys.len() && 0 <= b < keys.len() && no_later(keys[a], keys[b])
                ==> #[trigger] before(a, b),
    ensures
        is_listing(picked, keys.len(), limit, shown, before),
{
    lemma_page_rows(keys, eligible, false, limit, 0, picked);
    lemma_listing(keys, eligible, limit, picked, shown, before);
}

/// A selection is a listing of the eligible rows.
pub proof fn lemma_selection_listing(
    keys: Seq<SortKey>,
    eligible: Seq<bool>,
    limit: nat,
    picked: Seq<usize>,
    shown: spec_fn(int) -> bool,
    before: spec_fn(int, int) -> bool,
)
    requires
        is_selection(keys, eligible, limit, picked),
        forall|k: int| 0 <= k < keys.len() ==> #[trigger] eligible[k] == shown(k),
        forall|a: int, b: int|
            0 <= a < keys.len() && 0 <= b < keys.len() && no_later(keys[a], keys[b])
                ==> #[trigger] before(a, b),
    ensures
        is_listing(picked, keys.len(), limit, shown, before),
{
    lemma_selection_rows(keys, eligible, limit, picked);
    lemma_listing(keys, eligible, limit, picked, shown, before);
}

proof fn lemma_listing(
    keys: Seq<SortKey>,
    eligible: Seq<bool>,
    limit: nat,
    picked: Seq<usize>,
    shown: spec_fn(int) -> bool,
    before: spec_fn(int, int) -> bool,
)
    requires
        picked.len() <= limit,
        forall|i: int|
            0 <= i < picked.len() ==> 0 <= #[trigger] picked[i] < keys.len()
                && eligible[picked[i] as int],
        forall|i: int, j: int|
            0 <= i < j < picked.len() ==> (#[trigger] picked[i]) != (#[trigger] picked[j])
                && no_later(keys[picked[i] as int], keys[picked[j] as int]),
        forall|k: int|
            0 <= k < keys.len() && #[trigger] eligible[k] ==> picked.contains(k as usize) || (
            picked.len() == limit && forall|i: int|
                0 <= i < picked.len() ==> no_later(keys[#[trigger] picked[i] as int], keys[k])),
        forall|k: int| 0 <= k < keys.len() ==> #[trigger] eligible[k] == shown(k),
        forall|a: int, b: int|
            0 <= a < keys.len() && 0 <= b < keys.len() && no_later(keys[a], keys[b])
                ==> #[trigger] before(a, b),
    ensures
        is_listing(picked, keys.len(), limit, shown, before),
{
    assert forall|i: int, j: int| 0 <= i < j < picked.len() implies (#[trigger] picked[i]) != (
    #[trigger] picked[j]) && before(picked[i] as int, picked[j] as int) by {
        assert(no_later(keys[picked[i] as int], keys[picked[j] as int]));
    }
    assert forall|k: int| 0 <= k < keys.len() && #[trigger] shown(k) implies picked.contains(
        k as usize,
    ) || (picked.len() == limit && forall|i: int|
        0 <= i < picked.len() ==> before(#[trigger] picked[i] as int, k)) by {
        assert(eligible[k] == shown(k));
    }
}

} // verus!
