//! Identities that were ever given to formal objects. A retired one stays
//! reserved.

use vstd::prelude::*;

use crate::current_memory::maintenance::formal_identity_reserved;
use crate::domain::Id;
use crate::rows::some_row;

verus! {

/// Whether an identity is reserved.
pub open spec fn is_reserved(reserved: Seq<Id>, id: Seq<char>) -> bool {
    some_row(reserved, |row: Id| row@ == id)
}

/// Whether reserving identities one after the other meets one that is reserved
/// already.
pub open spec fn reserved_twice(reserved: Seq<Id>, ids: Seq<Id>) -> bool {
    exists|i: int| 0 <= i < ids.len() && is_reserved(reserved + ids.take(i), (#[trigger] ids[i])@)
}

/// Reserved identities after some were added, each only if it was missing.
pub open spec fn reserved_after(reserved: Seq<Id>, ids: Seq<Id>) -> Seq<Id>
    decreases ids.len(),
{
    if ids.len() == 0 {
        reserved
    } else {
        let before = reserved_after(reserved, ids.drop_last());
        if is_reserved(before, ids.last()@) {
            before
        } else {
            before.push(ids.last())
        }
    }
}

/// Reserves new identities; none of them may be reserved already.
pub fn reserve_new(reserved: Vec<Id>, ids: &[Id]) -> (r: Option<Vec<Id>>)
    ensures
        match r {
            Some(after) => !reserved_twice(reserved@, ids@) && after@ == reserved@ + ids@,
            None => reserved_twice(reserved@, ids@),
        },
{
    let ghost before = reserved@;
    let mut after = reserved;
    let mut i: usize = 0;
    assert(after@ =~= before + ids@.take(0));
    while i < ids.len()
        invariant
            i <= ids@.len(),
            before == reserved@,
            after@ == before + ids@.take(i as int),
            forall|k: int|
                0 <= k < i ==> !is_reserved(before + ids@.take(k), (#[trigger] ids@[k])@),
        decreases ids@.len() - i,
    {
        if formal_identity_reserved(after.as_slice(), &ids[i]) {
            assert(is_reserved(before + ids@.take(i as int), ids@[i as int]@));
            return None;
        }
        after.push(ids[i].duplicate());
        i += 1;
        assert(after@ =~= before + ids@.take(i as int));
    }
    assert(ids@.take(i as int) =~= ids@);
    Some(after)
}

/// Reserves the identities that are not reserved yet.
pub fn reserve_missing(reserved: Vec<Id>, ids: &[Id]) -> (r: Vec<Id>)
    ensures
        r@ == reserved_after(reserved@, ids@),
{
    let ghost before = reserved@;
    let mut after = reserved;
    let mut i: usize = 0;
    assert(ids@.take(0) =~= Seq::empty());
    while i < ids.len()
        invariant
            i <= ids@.len(),
            after@ == reserved_after(before, ids@.take(i as int)),
        decreases ids@.len() - i,
    {
        assert(ids@.take(i + 1).drop_last() =~= ids@.take(i as int));
        if !formal_identity_reserved(after.as_slice(), &ids[i]) {
            after.push(ids[i].duplicate());
        }
        i += 1;
    }
    assert(ids@.take(i as int) =~= ids@);
    after
}

/// Reserving new identities keeps those that were reserved, and reserves each of
/// the new ones.
pub proof fn law_new_identities_are_reserved(reserved: Seq<Id>, ids: Seq<Id>, id: Seq<char>)
    ensures
        is_reserved(reserved, id) ==> is_reserved(reserved + ids, id),
        is_reserved(ids, id) ==> is_reserved(reserved + ids, id),
{
    let all = reserved + ids;
    if is_reserved(reserved, id) {
        let k = choose|k: int| 0 <= k < reserved.len() && reserved[k]@ == id;
        assert(all[k]@ == id);
    }
    if is_reserved(ids, id) {
        let k = choose|k: int| 0 <= k < ids.len() && ids[k]@ == id;
        assert(all[reserved.len() + k]@ == id);
    }
}

/// Reserving what is missing keeps what was reserved and reserves each identity;
/// nothing else becomes reserved.
pub proof fn law_missing_identities_are_reserved(reserved: Seq<Id>, ids: Seq<Id>, id: Seq<char>)
    ensures
        is_reserved(reserved_after(reserved, ids), id) <==> is_reserved(reserved, id)
            || is_reserved(ids, id),
    decreases ids.len(),
{
    if ids.len() > 0 {
        let fewer = ids.drop_last();
        let last = ids.last();
        let before = reserved_after(reserved, fewer);
        let after = reserved_after(reserved, ids);
        law_missing_identities_are_reserved(reserved, fewer, id);
        if is_reserved(fewer, id) {
            let k = choose|k: int| 0 <= k < fewer.len() && fewer[k]@ == id;
            assert(ids[k]@ == id);
        }
        if is_reserved(ids, id) {
            let k = choose|k: int| 0 <= k < ids.len() && ids[k]@ == id;
            if k < fewer.len() {
                assert(fewer[k]@ == id);
            }
        }
        if last@ == id {
            assert(ids[ids.len() - 1]@ == id);
        }
        if !is_reserved(before, last@) {
            if is_reserved(before, id) {
                let k = choose|k: int| 0 <= k < before.len() && before[k]@ == id;
                assert(after[k]@ == id);
            }
            if is_reserved(after, id) {
                let k = choose|k: int| 0 <= k < after.len() && after[k]@ == id;
                if k < before.len() {
                    assert(before[k]@ == id);
                }
            }
            if last@ == id {
                assert(after[before.len() as int]@ == id);
            }
        }
    }
}

} // verus!
