//! Deterministic ordering of rows by integer keys and an identity.

use vstd::prelude::*;

use crate::rows::{count, count_rows, lemma_count_strict};
use crate::text::{lemma_text_order, text_before, text_less};

pub mod laws;

verus! {

/// What rows are ordered by: three numbers, then the bytes of a text.
pub struct SortKey {
    pub first: i128,
    pub second: i128,
    pub third: i128,
    pub id: String,
}

/// Lexicographic order of keys.
pub open spec fn key_less(a: SortKey, b: SortKey) -> bool {
    ||| a.first < b.first
    ||| a.first == b.first && a.second < b.second
    ||| a.first == b.first && a.second == b.second && a.third < b.third
    ||| a.first == b.first && a.second == b.second && a.third == b.third && text_before(
        a.id@,
        b.id@,
    )
}

/// Whether row `i` comes before row `j`: by key, and rows with equal keys in
/// the order in which they are given.
pub open spec fn placed_before(keys: Seq<SortKey>, i: int, j: int) -> bool {
    key_less(keys[i], keys[j]) || (!key_less(keys[j], keys[i]) && i < j)
}

proof fn lemma_key_order(a: SortKey, b: SortKey, c: SortKey)
    ensures
        !key_less(a, a),
        !(key_less(a, b) && key_less(b, a)),
        key_less(a, b) && key_less(b, c) ==> key_less(a, c),
        key_less(a, b) && !key_less(c, b) ==> key_less(a, c),
        !key_less(b, a) && !key_less(c, b) ==> !key_less(c, a),
        key_less(a, b) ==> key_less(a, c) || key_less(c, b),
{
    lemma_text_order(a.id@, b.id@, c.id@);
    lemma_text_order(b.id@, a.id@, c.id@);
    lemma_text_order(c.id@, b.id@, a.id@);
    lemma_text_order(a.id@, c.id@, b.id@);
}

/// Row placement is a strict total order.
pub proof fn lemma_placement(keys: Seq<SortKey>, i: int, j: int, k: int)
    ensures
        !placed_before(keys, i, i),
        i == j || placed_before(keys, i, j) || placed_before(keys, j, i),
        !(placed_before(keys, i, j) && placed_before(keys, j, i)),
        placed_before(keys, i, j) && placed_before(keys, j, k) ==> placed_before(keys, i, k),
{
    lemma_key_order(keys[i], keys[j], keys[k]);
    lemma_key_order(keys[j], keys[k], keys[i]);
    lemma_key_order(keys[k], keys[i], keys[j]);
    lemma_key_order(keys[k], keys[j], keys[i]);
    lemma_key_order(keys[i], keys[k], keys[j]);
    lemma_key_order(keys[j], keys[i], keys[k]);
}

/// Decides [`key_less`].
pub fn is_key_less(a: &SortKey, b: &SortKey) -> (r: bool)
    ensures
        r == key_less(*a, *b),
{
    if a.first != b.first {
        a.first < b.first
    } else if a.second != b.second {
        a.second < b.second
    } else if a.third != b.third {
        a.third < b.third
    } else {
        text_less(a.id.as_str(), b.id.as_str())
    }
}

/// Whether row `k` is listed.
pub open spec fn lists(order: Seq<usize>, k: int) -> bool {
    exists|i: int| 0 <= i < order.len() && #[trigger] order[i] == k
}

/// Whether `order` lists every row exactly once, each before those that it is
/// placed before.
pub open spec fn is_order(keys: Seq<SortKey>, order: Seq<usize>) -> bool {
    &&& order.len() == keys.len()
    &&& forall|i: int| 0 <= i < order.len() ==> 0 <= #[trigger] order[i] < keys.len()
    &&& forall|i: int, j: int|
        0 <= i < j < order.len() ==> #[trigger] placed_before(
            keys,
            order[i] as int,
            order[j] as int,
        )
    &&& forall|k: int| 0 <= k < keys.len() ==> #[trigger] lists(order, k)
}

/// Whether row `i` comes before row `j`.
pub fn is_placed_before(keys: &[SortKey], i: usize, j: usize) -> (r: bool)
    requires
        i < keys@.len(),
        j < keys@.len(),
    ensures
        r == placed_before(keys@, i as int, j as int),
{
    is_key_less(&keys[i], &keys[j]) || (!is_key_less(&keys[j], &keys[i]) && i < j)
}

/// Positions of the rows in their order.
pub fn sorted_order(keys: &[SortKey]) -> (order: Vec<usize>)
    ensures
        is_order(keys@, order@),
{
    let mut order: Vec<usize> = Vec::new();
    let mut n: usize = 0;
    while n < keys.len()
        invariant
            n <= keys@.len(),
            order@.len() == n,
            forall|i: int| 0 <= i < order@.len() ==> 0 <= #[trigger] order@[i] < n,
            forall|i: int, j: int|
                0 <= i < j < order@.len() ==> #[trigger] placed_before(
                    keys@,
                    order@[i] as int,
                    order@[j] as int,
                ),
            forall|k: int| 0 <= k < n ==> #[trigger] lists(order@, k),
        decreases keys@.len() - n,
    {
        let mut at: usize = order.len();
        while at > 0 && is_placed_before(keys, n, order[at - 1])
            invariant
                n < keys@.len(),
                at <= order@.len(),
                order@.len() == n,
                forall|i: int| 0 <= i < order@.len() ==> 0 <= #[trigger] order@[i] < n,
                forall|i: int|
                    at <= i < order@.len() ==> placed_before(
                        keys@,
                        n as int,
                        #[trigger] order@[i] as int,
                    ),
            decreases at,
        {
            at -= 1;
        }
        let ghost before = order@;
        order.insert(at, n);
        proof {
            assert forall|i: int, j: int| 0 <= i < j < order@.len() implies #[trigger] placed_before(
                keys@,
                order@[i] as int,
                order@[j] as int,
            ) by {
                let a = order@[i] as int;
                let b = order@[j] as int;
                if i < at && j < at {
                    assert(placed_before(keys@, before[i] as int, before[j] as int));
                } else if i < at && j == at {
                    let top = before[at - 1] as int;
                    lemma_placement(keys@, top, n as int, a);
                    lemma_placement(keys@, a, top, n as int);
                    if i < at - 1 {
                        assert(placed_before(keys@, before[i] as int, before[at - 1] as int));
                    }
                } else if i < at && j > at {
                    assert(placed_before(keys@, before[i] as int, before[j - 1] as int));
                } else if i == at {
                    assert(placed_before(keys@, n as int, before[j - 1] as int));
                } else {
                    assert(placed_before(keys@, before[i - 1] as int, before[j - 1] as int));
                }
            }
            assert forall|k: int| 0 <= k < n + 1 implies #[trigger] lists(order@, k) by {
                if k == n {
                    assert(order@[at as int] == n);
                } else {
                    assert(lists(before, k));
                    let i = choose|i: int| 0 <= i < before.len() && #[trigger] before[i] == k;
                    if i < at {
                        assert(order@[i] == k);
                    } else {
                        assert(order@[i + 1] == k);
                    }
                }
            }
        }
        n += 1;
    }
    order
}

/// Whether `picked` holds, in their order, the first `limit` eligible rows.
pub open spec fn is_selection(
    keys: Seq<SortKey>,
    eligible: Seq<bool>,
    limit: nat,
    picked: Seq<usize>,
) -> bool {
    &&& picked.len() <= limit
    &&& forall|i: int|
        0 <= i < picked.len() ==> 0 <= #[trigger] picked[i] < keys.len() && eligible[picked[i] as int]
    &&& forall|i: int, j: int|
        0 <= i < j < picked.len() ==> #[trigger] placed_before(
            keys,
            picked[i] as int,
            picked[j] as int,
        )
    &&& forall|k: int|
        0 <= k < keys.len() && #[trigger] eligible[k] ==> lists(picked, k) || left_behind(
            keys,
            limit,
            picked,
            k,
        )
}

/// Whether `limit` rows are picked and row `k` comes after all of them.
pub open spec fn left_behind(keys: Seq<SortKey>, limit: nat, picked: Seq<usize>, k: int) -> bool {
    &&& picked.len() == limit
    &&& forall|i: int| 0 <= i < picked.len() ==> placed_before(keys, #[trigger] picked[i] as int, k)
}

/// Picks the first `limit` eligible rows, in their order.
pub fn select(keys: &[SortKey], eligible: &[bool], limit: usize) -> (picked: Vec<usize>)
    requires
        keys@.len() == eligible@.len(),
    ensures
        is_selection(keys@, eligible@, limit as nat, picked@),
{
    let order = sorted_order(keys);
    let mut picked: Vec<usize> = Vec::new();
    let mut n: usize = 0;
    while n < order.len() && picked.len() < limit
        invariant
            keys@.len() == eligible@.len(),
            is_order(keys@, order@),
            n <= order@.len(),
            picked@.len() <= limit,
            forall|i: int|
                0 <= i < picked@.len() ==> 0 <= #[trigger] picked@[i] < keys@.len()
                    && eligible@[picked@[i] as int],
            forall|i: int, j: int|
                0 <= i < j < picked@.len() ==> #[trigger] placed_before(
                    keys@,
                    picked@[i] as int,
                    picked@[j] as int,
                ),
            forall|i: int, m: int|
                0 <= i < picked@.len() && n <= m < order@.len() ==> placed_before(
                    keys@,
                    #[trigger] picked@[i] as int,
                    #[trigger] order@[m] as int,
                ),
            forall|m: int|
                0 <= m < n && eligible@[#[trigger] order@[m] as int] ==> lists(
                    picked@,
                    order@[m] as int,
                ),
        decreases order@.len() - n,
    {
        let at: usize = order[n];
        let ghost before = picked@;
        if eligible[at] {
            picked.push(at);
            proof {
                assert forall|m: int|
                    0 <= m < n + 1 && eligible@[#[trigger] order@[m] as int] implies lists(
                    picked@,
                    order@[m] as int,
                ) by {
                    if m < n {
                        assert(lists(before, order@[m] as int));
                        let i = choose|i: int|
                            0 <= i < before.len() && #[trigger] before[i] == order@[m] as int;
                        assert(picked@[i] == order@[m]);
                    } else {
                        assert(picked@[picked@.len() - 1] == at);
                    }
                }
                assert forall|i: int, m: int|
                    0 <= i < picked@.len() && n + 1 <= m < order@.len() implies placed_before(
                    keys@,
                    #[trigger] picked@[i] as int,
                    #[trigger] order@[m] as int,
                ) by {
                    if i < before.len() {
                        assert(placed_before(keys@, before[i] as int, order@[m] as int));
                    } else {
                        assert(placed_before(keys@, order@[n as int] as int, order@[m] as int));
                    }
                }
            }
        }
        n += 1;
    }
    proof {
        assert forall|k: int| 0 <= k < keys@.len() && #[trigger] eligible@[k] implies lists(
            picked@,
            k,
        ) || left_behind(keys@, limit as nat, picked@, k) by {
            assert(lists(order@, k));
            let m = choose|m: int| 0 <= m < order@.len() && #[trigger] order@[m] == k;
            if m < n {
                assert(eligible@[order@[m] as int]);
                assert(lists(picked@, order@[m] as int));
            }
        }
    }
    picked
}

proof fn lemma_selection_prefix(
    keys: Seq<SortKey>,
    eligible: Seq<bool>,
    limit: nat,
    a: Seq<usize>,
    b: Seq<usize>,
    n: int,
)
    requires
        is_selection(keys, eligible, limit, a),
        is_selection(keys, eligible, limit, b),
        0 <= n <= a.len(),
    ensures
        n <= b.len(),
        a.take(n) == b.take(n),
    decreases n,
{
    if n > 0 {
        lemma_selection_prefix(keys, eligible, limit, a, b, n - 1);
        let x = a[n - 1] as int;
        assert(eligible[x]);
        assert forall|i: int| 0 <= i < n - 1 implies a[i] == b[i] by {
            assert(a.take(n - 1)[i] == b.take(n - 1)[i]);
        }
        if b.len() == n - 1 {
            assert(lists(b, x) || left_behind(keys, limit, b, x));
            if lists(b, x) {
                let i = choose|i: int| 0 <= i < b.len() && #[trigger] b[i] == x;
                assert(placed_before(keys, a[i] as int, a[n - 1] as int));
                lemma_placement(keys, x, x, x);
            }
            assert(false);
        }
        let y = b[n - 1] as int;
        assert(eligible[y]);
        if x != y {
            lemma_placement(keys, x, y, x);
            if placed_before(keys, x, y) {
                assert(lists(b, x) || left_behind(keys, limit, b, x));
                if lists(b, x) {
                    let i = choose|i: int| 0 <= i < b.len() && #[trigger] b[i] == x;
                    if i < n - 1 {
                        assert(placed_before(keys, a[i] as int, a[n - 1] as int));
                        lemma_placement(keys, x, x, x);
                    } else if i > n - 1 {
                        assert(placed_before(keys, b[n - 1] as int, b[i] as int));
                    }
                } else {
                    assert(placed_before(keys, b[n - 1] as int, x));
                }
            } else {
                assert(lists(a, y) || left_behind(keys, limit, a, y));
                if lists(a, y) {
                    let i = choose|i: int| 0 <= i < a.len() && #[trigger] a[i] == y;
                    if i < n - 1 {
                        assert(placed_before(keys, b[i] as int, b[n - 1] as int));
                        lemma_placement(keys, y, y, y);
                    } else if i > n - 1 {
                        assert(placed_before(keys, a[n - 1] as int, a[i] as int));
                    }
                } else {
                    assert(placed_before(keys, a[n - 1] as int, y));
                }
            }
            assert(false);
        }
        assert(a.take(n) =~= a.take(n - 1).push(a[n - 1]));
        assert(b.take(n) =~= b.take(n - 1).push(b[n - 1]));
    } else {
        assert(a.take(0) =~= b.take(0));
    }
}

/// Which rows are picked is determined: two selections from the same rows are
/// the same.
pub proof fn law_selection_is_deterministic(
    keys: Seq<SortKey>,
    eligible: Seq<bool>,
    limit: nat,
    a: Seq<usize>,
    b: Seq<usize>,
)
    requires
        is_selection(keys, eligible, limit, a),
        is_selection(keys, eligible, limit, b),
    ensures
        a == b,
{
    lemma_selection_prefix(keys, eligible, limit, a, b, a.len() as int);
    lemma_selection_prefix(keys, eligible, limit, b, a, b.len() as int);
    assert(a.take(a.len() as int) =~= a);
    assert(b.take(b.len() as int) =~= b);
}

/// The part of a listing that a page shows.
pub open spec fn page_of(all: Seq<usize>, limit: nat, offset: nat) -> Seq<usize> {
    let from = if offset < all.len() {
        offset as int
    } else {
        all.len() as int
    };
    let to = if offset + limit < all.len() {
        (offset + limit) as int
    } else {
        all.len() as int
    };
    all.subrange(from, to)
}

/// Whether `picked` is one page of all eligible rows, in their order or in the
/// reverse of it.
pub open spec fn is_page(
    keys: Seq<SortKey>,
    eligible: Seq<bool>,
    descending: bool,
    limit: nat,
    offset: nat,
    picked: Seq<usize>,
) -> bool {
    exists|all: Seq<usize>|
        {
            &&& #[trigger] is_selection(keys, eligible, keys.len(), all)
            &&& picked == page_of(
                if descending {
                    all.reverse()
                } else {
                    all
                },
                limit,
                offset,
            )
        }
}

/// Positions of one page of the eligible rows.
pub fn page(keys: &[SortKey], eligible: &[bool], descending: bool, limit: u32, offset: u32) -> (picked: Vec<
    usize,
>)
    requires
        keys@.len() == eligible@.len(),
    ensures
        is_page(keys@, eligible@, descending, limit as nat, offset as nat, picked@),
{
    let all = select(keys, eligible, keys.len());
    let ghost listing = if descending {
        all@.reverse()
    } else {
        all@
    };
    let total: u64 = all.len() as u64;
    let from: u64 = if (offset as u64) < total {
        offset as u64
    } else {
        total
    };
    let end: u64 = offset as u64 + limit as u64;
    let to: u64 = if end < total {
        end
    } else {
        total
    };
    let mut picked: Vec<usize> = Vec::new();
    let mut at: u64 = from;
    while at < to
        invariant
            from <= at <= to <= total,
            total == all@.len(),
            listing == if descending {
                all@.reverse()
            } else {
                all@
            },
            picked@ == listing.subrange(from as int, at as int),
        decreases to - at,
    {
        let n: usize = all.len();
        let i: usize = at as usize;
        if descending {
            picked.push(all[n - 1 - i]);
        } else {
            picked.push(all[i]);
        }
        at += 1;
        assert(picked@ =~= listing.subrange(from as int, at as int));
    }
    assert(picked@ == page_of(listing, limit as nat, offset as nat));
    picked
}

/// A page shows at most `limit` rows, each of them eligible.
pub proof fn law_page_is_bounded(
    keys: Seq<SortKey>,
    eligible: Seq<bool>,
    descending: bool,
    limit: nat,
    offset: nat,
    picked: Seq<usize>,
)
    requires
        is_page(keys, eligible, descending, limit, offset, picked),
    ensures
        picked.len() <= limit,
        forall|i: int|
            0 <= i < picked.len() ==> 0 <= #[trigger] picked[i] < keys.len()
                && eligible[picked[i] as int],
{
    let all = choose|all: Seq<usize>|
        {
            &&& #[trigger] is_selection(keys, eligible, keys.len(), all)
            &&& picked == page_of(
                if descending {
                    all.reverse()
                } else {
                    all
                },
                limit,
                offset,
            )
        };
    let listing = if descending {
        all.reverse()
    } else {
        all
    };
    let from = if offset < listing.len() {
        offset as int
    } else {
        listing.len() as int
    };
    assert forall|i: int| 0 <= i < picked.len() implies 0 <= #[trigger] picked[i] < keys.len()
        && eligible[picked[i] as int] by {
        assert(picked[i] == listing[from + i]);
        if descending {
            assert(listing[from + i] == all[all.len() - 1 - (from + i)]);
        }
    }
}

/// Rows that have a place in a listing.
pub trait Keyed: Sized {
    /// What the row is listed in the order of.
    spec fn key(self) -> SortKey;

    /// What the row is listed in the order of.
    fn sort_key(&self) -> (k: SortKey)
        ensures
            k == self.key(),
    ;
}

/// Keys of rows, in order.
pub open spec fn keys<T: Keyed>(rows: Seq<T>) -> Seq<SortKey> {
    rows.map_values(|row: T| row.key())
}

/// Keys of rows, in order.
pub fn keys_of<T: Keyed>(rows: &[T]) -> (r: Vec<SortKey>)
    ensures
        r@ == keys(rows@),
{
    let mut out: Vec<SortKey> = Vec::new();
    let mut i: usize = 0;
    while i < rows.len()
        invariant
            i <= rows@.len(),
            out@ == keys(rows@).take(i as int),
        decreases rows@.len() - i,
    {
        out.push(rows[i].sort_key());
        i += 1;
        assert(out@ =~= keys(rows@).take(i as int));
    }
    assert(out@ =~= keys(rows@));
    out
}

impl Keyed for String {
    /// Texts are ordered by their bytes.
    open spec fn key(self) -> SortKey {
        SortKey { first: 0, second: 0, third: 0, id: self }
    }

    fn sort_key(&self) -> (k: SortKey) {
        SortKey { first: 0, second: 0, third: 0, id: self.clone() }
    }
}

/// Whether `sorted` holds exactly the given texts, in the order of their bytes.
pub open spec fn is_sorted_form(values: Seq<String>, sorted: Seq<String>) -> bool {
    exists|order: Seq<usize>|
        {
            &&& #[trigger] is_order(keys(values), order)
            &&& sorted.len() == values.len()
            &&& forall|i: int| 0 <= i < sorted.len() ==> #[trigger] sorted[i] == values[order[i] as int]
        }
}

/// Texts in the order of their bytes.
pub fn sort_texts(values: &[String]) -> (sorted: Vec<String>)
    ensures
        is_sorted_form(values@, sorted@),
{
    let order_keys = keys_of(values);
    let order = sorted_order(order_keys.as_slice());
    let mut sorted: Vec<String> = Vec::new();
    let mut i: usize = 0;
    while i < order.len()
        invariant
            i <= order@.len(),
            is_order(keys(values@), order@),
            sorted@.len() == i,
            forall|k: int| 0 <= k < i ==> #[trigger] sorted@[k] == values@[order@[k] as int],
        decreases order@.len() - i,
    {
        sorted.push(values[order[i]].clone());
        i += 1;
    }
    sorted
}

/// How many of the names come before a name.
pub open spec fn names_before(names: Seq<String>, name: Seq<char>) -> nat {
    count(names, |other: String| text_before(other@, name))
}

/// How many of the names come before a name.
pub fn count_before(names: &[String], name: &str) -> (r: usize)
    ensures
        r == names_before(names@, name@),
{
    let accepts = |other: &String| -> (yes: bool)
        ensures
            yes == text_before(other@, name@),
        { text_less(other.as_str(), name) };
    count_rows(names, accepts, Ghost(|other: String| text_before(other@, name@)))
}

/// Counting the names before it orders a name as its text does.
pub proof fn law_ranks_follow_names(names: Seq<String>, i: int, j: int)
    requires
        0 <= i < names.len(),
        0 <= j < names.len(),
    ensures
        text_before(names[i]@, names[j]@) <==> names_before(names, names[i]@) < names_before(
            names,
            names[j]@,
        ),
        names[i]@ == names[j]@ <==> names_before(names, names[i]@) == names_before(
            names,
            names[j]@,
        ),
{
    lemma_text_order(names[i]@, names[j]@, names[i]@);
    lemma_text_order(names[j]@, names[i]@, names[j]@);
    if text_before(names[i]@, names[j]@) {
        lemma_rank_step(names, i, j);
    }
    if text_before(names[j]@, names[i]@) {
        lemma_rank_step(names, j, i);
    }
}

/// A name has a lower rank than one that it comes before.
proof fn lemma_rank_step(names: Seq<String>, i: int, j: int)
    requires
        0 <= i < names.len(),
        0 <= j < names.len(),
        text_before(names[i]@, names[j]@),
    ensures
        names_before(names, names[i]@) < names_before(names, names[j]@),
{
    let low = |other: String| text_before(other@, names[i]@);
    let high = |other: String| text_before(other@, names[j]@);
    assert forall|row: String| #[trigger] low(row) implies high(row) by {
        lemma_text_order(row@, names[i]@, names[j]@);
    }
    lemma_text_order(names[i]@, names[i]@, names[i]@);
    lemma_count_strict(names, low, high, i);
}

} // verus!
