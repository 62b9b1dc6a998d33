//! Work on stored rows: finding, keeping, changing and counting them.

use vstd::prelude::*;

pub mod laws;

verus! {

/// Position of the first row that a rule accepts.
pub open spec fn first_index<T>(rows: Seq<T>, rule: spec_fn(T) -> bool) -> Option<int>
    decreases rows.len(),
{
    if rows.len() == 0 {
        None
    } else {
        match first_index(rows.drop_last(), rule) {
            Some(i) => Some(i),
            None => if rule(rows.last()) {
                Some(rows.len() - 1)
            } else {
                None
            },
        }
    }
}

/// The first row that a rule accepts, where there is one.
pub open spec fn first_row<T>(rows: Seq<T>, rule: spec_fn(T) -> bool) -> Option<T> {
    match first_index(rows, rule) {
        Some(i) => Some(rows[i]),
        None => None,
    }
}

/// What `first_index` says: it gives the first accepted row, and nothing only
/// where no row is accepted.
pub proof fn lemma_first_index<T>(rows: Seq<T>, rule: spec_fn(T) -> bool)
    ensures
        match first_index(rows, rule) {
            Some(i) => 0 <= i < rows.len() && rule(rows[i]) && (forall|k: int|
                0 <= k < i ==> !rule(#[trigger] rows[k])),
            None => forall|k: int| 0 <= k < rows.len() ==> !rule(#[trigger] rows[k]),
        },
    decreases rows.len(),
{
    if rows.len() > 0 {
        let shorter = rows.drop_last();
        lemma_first_index(shorter, rule);
        assert forall|k: int| 0 <= k < shorter.len() implies shorter[k] == #[trigger] rows[k] by {}
        if first_index(shorter, rule) is None {
            assert forall|k: int| 0 <= k < rows.len() - 1 implies !rule(#[trigger] rows[k]) by {
                assert(!rule(shorter[k]));
            }
        }
    }
}

/// A row that a rule accepts, with none before it, is the first one.
pub proof fn lemma_first_index_is<T>(rows: Seq<T>, rule: spec_fn(T) -> bool, i: int)
    requires
        0 <= i < rows.len(),
        rule(rows[i]),
        forall|k: int| 0 <= k < i ==> !rule(#[trigger] rows[k]),
    ensures
        first_index(rows, rule) == Some(i),
{
    lemma_first_index(rows, rule);
}

/// Finds the first row that a rule accepts.
pub fn find<T, F: Fn(&T) -> bool>(rows: &[T], accepts: F, Ghost(rule): Ghost<
    spec_fn(T) -> bool,
>) -> (r: Option<usize>)
    requires
        forall|row: &T| #[trigger] accepts.requires((row,)),
        forall|row: &T, yes: bool| #[trigger] accepts.ensures((row,), yes) ==> yes == rule(*row),
    ensures
        match r {
            Some(i) => i < rows@.len() && first_index(rows@, rule) == Some(i as int),
            None => first_index(rows@, rule) is None,
        },
{
    let mut i: usize = 0;
    while i < rows.len()
        invariant
            i <= rows@.len(),
            forall|row: &T| #[trigger] accepts.requires((row,)),
            forall|row: &T, yes: bool| #[trigger] accepts.ensures((row,), yes) ==> yes == rule(*row),
            forall|k: int| 0 <= k < i ==> !rule(#[trigger] rows@[k]),
        decreases rows@.len() - i,
    {
        if accepts(&rows[i]) {
            proof {
                lemma_first_index_is(rows@, rule, i as int);
            }
            return Some(i);
        }
        i += 1;
    }
    proof {
        lemma_first_index(rows@, rule);
    }
    None
}

/// Whether some row meets a rule.
pub open spec fn some_row<T>(rows: Seq<T>, rule: spec_fn(T) -> bool) -> bool {
    exists|i: int| 0 <= i < rows.len() && rule(#[trigger] rows[i])
}

/// Whether some row meets a rule.
pub fn any<T, F: Fn(&T) -> bool>(rows: &[T], accepts: F, Ghost(rule): Ghost<
    spec_fn(T) -> bool,
>) -> (r: bool)
    requires
        forall|row: &T| #[trigger] accepts.requires((row,)),
        forall|row: &T, yes: bool| #[trigger] accepts.ensures((row,), yes) ==> yes == rule(*row),
    ensures
        r == some_row(rows@, rule),
{
    let found = find(rows, accepts, Ghost(rule));
    proof {
        lemma_first_index(rows@, rule);
    }
    found.is_some()
}

/// Keeps the rows that a rule accepts, in order.
pub fn keep<T, F: Fn(&T) -> bool>(rows: Vec<T>, accepts: F, Ghost(rule): Ghost<
    spec_fn(T) -> bool,
>) -> (r: Vec<T>)
    requires
        forall|row: &T| #[trigger] accepts.requires((row,)),
        forall|row: &T, yes: bool| #[trigger] accepts.ensures((row,), yes) ==> yes == rule(*row),
    ensures
        r@ == rows@.filter(rule),
{
    let ghost all = rows@;
    let mut rest = rows;
    let n: usize = rest.len();
    let mut kept: Vec<T> = Vec::new();
    let mut i: usize = 0;
    proof {
        reveal(Seq::filter);
        assert(rest@ =~= all.skip(0));
        assert(all.take(0) =~= Seq::empty());
    }
    while i < n
        invariant
            i <= n == all.len(),
            forall|row: &T| #[trigger] accepts.requires((row,)),
            forall|row: &T, yes: bool| #[trigger] accepts.ensures((row,), yes) ==> yes == rule(*row),
            rest@ == all.skip(i as int),
            kept@ == all.take(i as int).filter(rule),
        decreases n - i,
    {
        let row = rest.remove(0);
        proof {
            reveal(Seq::filter);
            assert(all.take(i + 1).drop_last() =~= all.take(i as int));
            assert(all.take(i + 1).last() == row);
        }
        if accepts(&row) {
            kept.push(row);
        }
        i += 1;
        assert(rest@ =~= all.skip(i as int));
    }
    assert(all.take(n as int) =~= all);
    kept
}

/// Changes every row by a rule.
pub fn change<T, F: Fn(T) -> T>(rows: Vec<T>, update: F, Ghost(rule): Ghost<spec_fn(T) -> T>) -> (r: Vec<
    T,
>)
    requires
        forall|row: T| #[trigger] update.requires((row,)),
        forall|row: T, next: T| #[trigger] update.ensures((row,), next) ==> next == rule(row),
    ensures
        r@ == rows@.map_values(rule),
{
    let ghost all = rows@;
    let mut rest = rows;
    let n: usize = rest.len();
    let mut after: Vec<T> = Vec::new();
    let mut i: usize = 0;
    assert(rest@ =~= all.skip(0));
    while i < n
        invariant
            i <= n == all.len(),
            forall|row: T| #[trigger] update.requires((row,)),
            forall|row: T, next: T| #[trigger] update.ensures((row,), next) ==> next == rule(row),
            rest@ == all.skip(i as int),
            after@ == all.take(i as int).map_values(rule),
        decreases n - i,
    {
        let row = rest.remove(0);
        after.push(update(row));
        i += 1;
        assert(rest@ =~= all.skip(i as int));
        assert(after@ =~= all.take(i as int).map_values(rule));
    }
    assert(all.take(n as int) =~= all);
    after
}

/// Number of rows that meet a rule.
pub open spec fn count<T>(rows: Seq<T>, rule: spec_fn(T) -> bool) -> nat {
    rows.filter(rule).len()
}

/// Counts the rows that meet a rule.
pub fn count_rows<T, F: Fn(&T) -> bool>(rows: &[T], accepts: F, Ghost(rule): Ghost<
    spec_fn(T) -> bool,
>) -> (r: usize)
    requires
        forall|row: &T| #[trigger] accepts.requires((row,)),
        forall|row: &T, yes: bool| #[trigger] accepts.ensures((row,), yes) ==> yes == rule(*row),
    ensures
        r == count(rows@, rule),
{
    let n: usize = rows.len();
    let mut found: usize = 0;
    let mut i: usize = 0;
    proof {
        reveal(Seq::filter);
        assert(rows@.take(0) =~= Seq::empty());
    }
    while i < n
        invariant
            i <= n == rows@.len(),
            forall|row: &T| #[trigger] accepts.requires((row,)),
            forall|row: &T, yes: bool| #[trigger] accepts.ensures((row,), yes) ==> yes == rule(*row),
            found <= i,
            found == count(rows@.take(i as int), rule),
        decreases n - i,
    {
        proof {
            reveal(Seq::filter);
            assert(rows@.take(i + 1).drop_last() =~= rows@.take(i as int));
            assert(rows@.take(i + 1).last() == rows@[i as int]);
        }
        if accepts(&rows[i]) {
            found += 1;
        }
        i += 1;
    }
    assert(rows@.take(n as int) =~= rows@);
    found
}

/// Makes one value out of each row, in order.
pub fn each<T, U, F: Fn(&T) -> U>(rows: &[T], make: F, Ghost(rule): Ghost<spec_fn(T) -> U>) -> (r: Vec<
    U,
>)
    requires
        forall|row: &T| #[trigger] make.requires((row,)),
        forall|row: &T, made: U| #[trigger] make.ensures((row,), made) ==> made == rule(*row),
    ensures
        r@ == rows@.map_values(rule),
{
    let mut out: Vec<U> = Vec::new();
    let mut i: usize = 0;
    while i < rows.len()
        invariant
            i <= rows@.len(),
            forall|row: &T| #[trigger] make.requires((row,)),
            forall|row: &T, made: U| #[trigger] make.ensures((row,), made) ==> made == rule(*row),
            out@ == rows@.take(i as int).map_values(rule),
        decreases rows@.len() - i,
    {
        let made = make(&rows[i]);
        out.push(made);
        i += 1;
        assert(out@ =~= rows@.take(i as int).map_values(rule));
    }
    assert(rows@.take(i as int) =~= rows@);
    out
}

/// Tells for each row whether it meets a rule.
pub fn marks<T, F: Fn(&T) -> bool>(rows: &[T], accepts: F, Ghost(rule): Ghost<
    spec_fn(T) -> bool,
>) -> (r: Vec<bool>)
    requires
        forall|row: &T| #[trigger] accepts.requires((row,)),
        forall|row: &T, yes: bool| #[trigger] accepts.ensures((row,), yes) ==> yes == rule(*row),
    ensures
        r@ == rows@.map_values(rule),
{
    each(rows, accepts, Ghost(rule))
}

/// Whether `picked` lists, in ascending order, exactly the positions of the
/// marked rows.
pub open spec fn is_positions(marked: Seq<bool>, picked: Seq<usize>) -> bool {
    &&& forall|i: int, j: int|
        0 <= i < j < picked.len() ==> (#[trigger] picked[i]) < (#[trigger] picked[j])
    &&& forall|i: int|
        0 <= i < picked.len() ==> (#[trigger] picked[i]) < marked.len() && marked[picked[i] as int]
    &&& forall|k: int| 0 <= k < marked.len() && #[trigger] marked[k] ==> picked.contains(k as usize)
}

/// Positions of the marked rows.
pub fn positions(marked: &[bool]) -> (picked: Vec<usize>)
    ensures
        is_positions(marked@, picked@),
{
    let mut picked: Vec<usize> = Vec::new();
    let mut i: usize = 0;
    while i < marked.len()
        invariant
            i <= marked@.len(),
            forall|a: int, b: int|
                0 <= a < b < picked@.len() ==> (#[trigger] picked@[a]) < (#[trigger] picked@[b]),
            forall|a: int|
                0 <= a < picked@.len() ==> (#[trigger] picked@[a]) < i && marked@[picked@[a] as int],
            forall|k: int|
                0 <= k < i && #[trigger] marked@[k] ==> picked@.contains(k as usize),
        decreases marked@.len() - i,
    {
        let ghost before = picked@;
        if marked[i] {
            picked.push(i);
            proof {
                assert(picked@[before.len() as int] == i);
                assert forall|k: int| 0 <= k < i + 1 && #[trigger] marked@[k] implies picked@.contains(
                    k as usize,
                ) by {
                    if k < i {
                        let a = choose|a: int| 0 <= a < before.len() && before[a] == k as usize;
                        assert(picked@[a] == k as usize);
                    }
                }
            }
        }
        i += 1;
    }
    picked
}

/// What a filter drops is not left.
pub proof fn lemma_filter_drops<T>(rows: Seq<T>, rule: spec_fn(T) -> bool)
    ensures
        !some_row(rows.filter(|row: T| !rule(row)), rule),
    decreases rows.len(),
{
    reveal(Seq::filter);
    let stays = |row: T| !rule(row);
    if rows.len() > 0 {
        lemma_filter_drops(rows.drop_last(), rule);
        let shorter = rows.drop_last().filter(stays);
        let all = rows.filter(stays);
        assert forall|i: int| 0 <= i < all.len() implies !rule(#[trigger] all[i]) by {
            if i < shorter.len() {
                assert(all[i] == shorter[i]);
                assert(!rule(shorter[i]));
            }
        }
    }
}

/// Where the first row that one rule accepts is replaced by a row that it
/// accepts too, or such a row is added because there was none, that row is the
/// first one that the rule accepts.
pub proof fn lemma_put_is_found<T>(rows: Seq<T>, rule: spec_fn(T) -> bool, row: T)
    requires
        rule(row),
    ensures
        match first_index(rows, rule) {
            Some(i) => first_index(rows.update(i, row), rule) == Some(i),
            None => first_index(rows.push(row), rule) == Some(rows.len() as int),
        },
{
    lemma_first_index(rows, rule);
    match first_index(rows, rule) {
        Some(i) => {
            let after = rows.update(i, row);
            assert forall|k: int| 0 <= k < i implies !rule(#[trigger] after[k]) by {
                assert(after[k] == rows[k]);
            }
            lemma_first_index_is(after, rule, i);
        },
        None => {
            let after = rows.push(row);
            assert forall|k: int| 0 <= k < rows.len() implies !rule(#[trigger] after[k]) by {
                assert(after[k] == rows[k]);
            }
            lemma_first_index_is(after, rule, rows.len() as int);
        },
    }
}

/// Replacing a row changes nothing for a rule that neither the old row nor the
/// new one meets.
pub proof fn lemma_update_keeps_others<T>(rows: Seq<T>, i: int, row: T, other: spec_fn(T) -> bool)
    requires
        0 <= i < rows.len(),
        !other(rows[i]),
        !other(row),
    ensures
        first_row(rows.update(i, row), other) == first_row(rows, other),
    decreases rows.len(),
{
    let after = rows.update(i, row);
    lemma_first_index(rows, other);
    lemma_first_index(after, other);
    assert forall|k: int| 0 <= k < rows.len() && k != i implies after[k] == #[trigger] rows[k] by {}
    match first_index(rows, other) {
        Some(n) => {
            assert forall|k: int| 0 <= k < n implies !other(#[trigger] after[k]) by {
                if k != i {
                    assert(!other(rows[k]));
                }
            }
            assert(after[n] == rows[n]);
            lemma_first_index_is(after, other, n);
        },
        None => {
            assert forall|k: int| 0 <= k < after.len() implies !other(#[trigger] after[k]) by {
                if k != i {
                    assert(!other(rows[k]));
                }
            }
        },
    }
}

/// Adding a row changes nothing for a rule that it does not meet.
pub proof fn lemma_push_keeps_others<T>(rows: Seq<T>, row: T, other: spec_fn(T) -> bool)
    requires
        !other(row),
    ensures
        first_row(rows.push(row), other) == first_row(rows, other),
{
    assert(rows.push(row).drop_last() =~= rows);
    lemma_first_index(rows, other);
}

/// A stronger rule is met by no more rows.
pub proof fn lemma_count_monotone<T>(
    rows: Seq<T>,
    stronger: spec_fn(T) -> bool,
    weaker: spec_fn(T) -> bool,
)
    requires
        forall|row: T| #[trigger] stronger(row) ==> weaker(row),
    ensures
        count(rows, stronger) <= count(rows, weaker),
    decreases rows.len(),
{
    reveal(Seq::filter);
    if rows.len() > 0 {
        lemma_count_monotone(rows.drop_last(), stronger, weaker);
        assert(stronger(rows.last()) ==> weaker(rows.last()));
    }
}

/// A stronger rule that some row of the weaker one does not meet is met by
/// fewer rows.
pub proof fn lemma_count_strict<T>(
    rows: Seq<T>,
    stronger: spec_fn(T) -> bool,
    weaker: spec_fn(T) -> bool,
    i: int,
)
    requires
        forall|row: T| #[trigger] stronger(row) ==> weaker(row),
        0 <= i < rows.len(),
        weaker(rows[i]),
        !stronger(rows[i]),
    ensures
        count(rows, stronger) < count(rows, weaker),
    decreases rows.len(),
{
    reveal(Seq::filter);
    if i == rows.len() - 1 {
        lemma_count_monotone(rows.drop_last(), stronger, weaker);
    } else {
        lemma_count_strict(rows.drop_last(), stronger, weaker, i);
        assert(stronger(rows.last()) ==> weaker(rows.last()));
    }
}

} // verus!
