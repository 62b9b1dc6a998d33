//! What keeping, finding and counting rows means, row by row.

use vstd::prelude::*;

use crate::rows::{count, positions};

verus! {

/// The rows that a rule keeps are exactly those that were there and meet it.
pub proof fn lemma_kept<T>(rows: Seq<T>, rule: spec_fn(T) -> bool)
    ensures
        forall|row: T| #[trigger] rows.filter(rule).contains(row) <==> rows.contains(row) && rule(row),
        rows.filter(rule).len() <= rows.len(),
{
    rows.lemma_filter_len(rule);
    assert forall|row: T| #[trigger] rows.filter(rule).contains(row) <==> rows.contains(row)
        && rule(row) by {
        if rows.filter(rule).contains(row) {
            rows.lemma_filter_contains_rev(rule, row);
            let k = choose|k: int| 0 <= k < rows.filter(rule).len() && rows.filter(rule)[k] == row;
            rows.lemma_filter_pred(rule, k);
        }
        if rows.contains(row) && rule(row) {
            let k = choose|k: int| 0 <= k < rows.len() && rows[k] == row;
            rows.lemma_filter_contains(rule, k);
        }
    }
}

/// Where no row breaks a rule, all are kept in their order.
pub proof fn lemma_all_kept<T>(rows: Seq<T>, rule: spec_fn(T) -> bool)
    requires
        forall|k: int| 0 <= k < rows.len() ==> rule(#[trigger] rows[k]),
    ensures
        rows.filter(rule) == rows,
    decreases rows.len(),
{
    reveal(Seq::filter);
    if rows.len() > 0 {
        let fewer = rows.drop_last();
        assert forall|k: int| 0 <= k < fewer.len() implies rule(#[trigger] fewer[k]) by {
            assert(fewer[k] == rows[k]);
        }
        lemma_all_kept(fewer, rule);
        assert(rule(rows[rows.len() - 1]));
        assert(rows.filter(rule) =~= rows);
    } else {
        assert(rows.filter(rule) =~= rows);
    }
}

/// One row more counts exactly where it meets the rule.
pub proof fn lemma_count_push<T>(rows: Seq<T>, row: T, rule: spec_fn(T) -> bool)
    ensures
        count(rows.push(row), rule) == count(rows, rule) + if rule(row) {
            1nat
        } else {
            0nat
        },
{
    reveal(Seq::filter);
    assert(rows.push(row).drop_last() =~= rows);
}

/// A count is zero exactly where no row meets the rule.
pub proof fn lemma_count_zero<T>(rows: Seq<T>, rule: spec_fn(T) -> bool)
    ensures
        count(rows, rule) == 0 <==> forall|k: int| 0 <= k < rows.len() ==> !rule(#[trigger] rows[k]),
{
    lemma_kept(rows, rule);
    if count(rows, rule) > 0 {
        let row = rows.filter(rule)[0];
        assert(rows.filter(rule).contains(row));
        let k = choose|k: int| 0 <= k < rows.len() && rows[k] == row;
        assert(rule(rows[k]));
    } else {
        assert forall|k: int| 0 <= k < rows.len() implies !rule(#[trigger] rows[k]) by {
            if rule(rows[k]) {
                assert(rows.contains(rows[k]));
                assert(rows.filter(rule).contains(rows[k]));
            }
        }
    }
}

/// The positions of marked rows, from the first to the last.
pub proof fn law_positions_are_the_marked_rows(marked: &[bool], picked: Vec<usize>)
    requires
        call_ensures(positions, (marked,), picked),
    ensures
        forall|i: int| 0 <= i < picked@.len() ==> (#[trigger] picked@[i]) < marked@.len(),
        forall|i: int| 0 <= i < picked@.len() ==> marked@[#[trigger] picked@[i] as int],
        forall|i: int, j: int|
            0 <= i < j < picked@.len() ==> (#[trigger] picked@[i]) < (#[trigger] picked@[j]),
        forall|k: int| 0 <= k < marked@.len() && #[trigger] marked@[k] ==> picked@.contains(k as usize),
{
}

} // verus!
