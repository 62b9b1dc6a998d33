//! Publishing, restoring and rewriting the memory set of a source note.

use vstd::prelude::*;

use crate::current_memory::publish::{
    put, put_item, storage_fault, check_storable, stored, unstorable,
};
use crate::current_memory::reads::{is_prepared, prepared_note_set_snapshot};
use crate::current_memory::{
    checked, validate_current_bundle, validate_note_set, validate_snapshot, CurrentMemoryBundle,
    CurrentMemoryOwnership, CurrentMemoryRecord, MemoryNoteSetRecord, MemoryNoteSetSnapshotRecord,
    StoredItem,
};
use crate::domain::{Id, Revision, VaultContext};
use crate::error::{duplicate_row, refuse_duplicate, StateError};
use crate::files::FileRecord;
use crate::order::keys;
use crate::rows::{any, find, first_index, first_row, keep, lemma_first_index, some_row};
use crate::text::text_eq;

verus! {

/// Rows that the memory sets of a vault are made of.
pub struct NoteMemoryState {
    pub items: Vec<StoredItem>,
    pub sets: Vec<MemoryNoteSetRecord>,
    pub snapshots: Vec<MemoryNoteSetSnapshotRecord>,
}

/// Whether an item may be published in a set.
pub open spec fn owned_by_set(bundle: CurrentMemoryBundle, set: Seq<char>) -> bool {
    &&& bundle.memory.ownership == CurrentMemoryOwnership::NoteDerived
    &&& bundle.memory.note_set_id is Some
    &&& bundle.memory.note_set_id->0@ == set
}

/// Why an item is refused for a set, if it is. A recovery also asks that the
/// bundle names the set itself.
pub open spec fn set_item_fault(
    bundle: CurrentMemoryBundle,
    vault: Seq<char>,
    set: Seq<char>,
    recovery: bool,
) -> Option<StateError> {
    match bundle.fault(vault) {
        Some(error) => Some(error),
        None => if owned_by_set(bundle, set) && (!recovery || (bundle.note_set is Some
            && bundle.note_set->0.id@ == set)) {
            None
        } else if recovery {
            Some(StateError::InvalidInput("note-set recovery ownership is invalid"))
        } else {
            Some(StateError::InvalidInput("note-set item ownership is invalid"))
        },
    }
}

/// The first fault among the items of a set, if any.
pub open spec fn set_items_fault(
    items: Seq<CurrentMemoryBundle>,
    vault: Seq<char>,
    set: Seq<char>,
    recovery: bool,
) -> Option<StateError>
    decreases items.len(),
{
    if items.len() == 0 {
        None
    } else {
        match set_items_fault(items.drop_last(), vault, set, recovery) {
            Some(error) => Some(error),
            None => set_item_fault(items.last(), vault, set, recovery),
        }
    }
}

/// A fault of the first items is a fault of all.
proof fn lemma_set_items_fault(
    items: Seq<CurrentMemoryBundle>,
    n: int,
    vault: Seq<char>,
    set: Seq<char>,
    recovery: bool,
)
    requires
        0 <= n <= items.len(),
    ensures
        set_items_fault(items.take(n), vault, set, recovery) is Some ==> set_items_fault(
            items,
            vault,
            set,
            recovery,
        ) == set_items_fault(items.take(n), vault, set, recovery),
    decreases items.len(),
{
    if n < items.len() {
        lemma_set_items_fault(items.drop_last(), n, vault, set, recovery);
        assert(items.drop_last().take(n) =~= items.take(n));
    } else {
        assert(items.take(n) =~= items);
    }
}

/// Checks the items of a set.
fn check_set_items(
    context: &VaultContext,
    items: &[CurrentMemoryBundle],
    set: &Id,
    recovery: bool,
) -> (r: Result<(), StateError>)
    ensures
        r == checked(set_items_fault(items@, context.id@, set@, recovery)),
{
    let mut i: usize = 0;
    while i < items.len()
        invariant
            i <= items@.len(),
            set_items_fault(items@.take(i as int), context.id@, set@, recovery) is None,
        decreases items@.len() - i,
    {
        let item = &items[i];
        proof {
            assert(items@.take(i + 1).drop_last() =~= items@.take(i as int));
            assert(items@.take(i + 1).last() == items@[i as int]);
            lemma_set_items_fault(items@, i + 1, context.id@, set@, recovery);
        }
        match validate_current_bundle(context, item) {
            Ok(()) => {},
            Err(error) => return Err(error),
        }
        let owned = match &item.memory.note_set_id {
            Some(id) => id.same(set) && item.memory.ownership
                == CurrentMemoryOwnership::NoteDerived,
            None => false,
        };
        let named = match &item.note_set {
            Some(own) => own.id.same(set),
            None => false,
        };
        if !owned || (recovery && !named) {
            if recovery {
                return Err(StateError::InvalidInput("note-set recovery ownership is invalid"));
            }
            return Err(StateError::InvalidInput("note-set item ownership is invalid"));
        }
        i += 1;
    }
    assert(items@.take(i as int) =~= items@);
    Ok(())
}

/// Why the files of a set do not back it, if so.
pub open spec fn set_files_fault(set: MemoryNoteSetRecord, files: Seq<FileRecord>) -> Option<
    StateError,
> {
    if !set.canonical_revision.storable() {
        Some(unstorable())
    } else if !set.current(files) {
        Some(StateError::Conflict)
    } else {
        None
    }
}

/// Checks that the source note still has the content that the set was made
/// from, and that the set's canonical file is the live one that it names.
pub fn ensure_note_set_files_current(set: &MemoryNoteSetRecord, files: &[FileRecord]) -> (r: Result<
    (),
    StateError,
>)
    ensures
        r == checked(set_files_fault(*set, files@)),
{
    match set.canonical_revision.as_i64() {
        Ok(_) => {},
        Err(error) => return Err(StateError::InvalidDomain(error)),
    }
    if !set.is_current(files) {
        return Err(StateError::Conflict);
    }
    Ok(())
}

/// Why the canonical file of a set does not back it, if so.
pub open spec fn set_canonical_fault(set: MemoryNoteSetRecord, files: Seq<FileRecord>) -> Option<
    StateError,
> {
    if !set.canonical_revision.storable() {
        Some(unstorable())
    } else if !set.canonical_live(files) {
        Some(StateError::Conflict)
    } else {
        None
    }
}

/// Checks that the source note and the set's canonical file are live, whatever
/// the note's content is now.
pub fn ensure_note_set_canonical_current(set: &MemoryNoteSetRecord, files: &[FileRecord]) -> (r: Result<
    (),
    StateError,
>)
    ensures
        r == checked(set_canonical_fault(*set, files@)),
{
    match set.canonical_revision.as_i64() {
        Ok(_) => {},
        Err(error) => return Err(StateError::InvalidDomain(error)),
    }
    if !set.is_canonical_live(files) {
        return Err(StateError::Conflict);
    }
    Ok(())
}

/// The position of the one set of a source note, current or not.
pub fn get_note_set_by_source(
    context: &VaultContext,
    sets: &[MemoryNoteSetRecord],
    source_file_id: &Id,
) -> (r: Option<usize>)
    ensures
        match r {
            Some(i) => i < sets@.len() && first_index(
                sets@,
                |set: MemoryNoteSetRecord| set.of_source(context.id@, source_file_id@),
            ) == Some(i as int),
            None => first_index(
                sets@,
                |set: MemoryNoteSetRecord| set.of_source(context.id@, source_file_id@),
            ) is None,
        },
{
    let accepts = |set: &MemoryNoteSetRecord| -> (yes: bool)
        ensures
            yes == set.of_source(context.id@, source_file_id@),
        { set.is_of_source(&context.id, source_file_id) };
    find(
        sets,
        accepts,
        Ghost(|set: MemoryNoteSetRecord| set.of_source(context.id@, source_file_id@)),
    )
}

/// The position of a set by its identity in a vault.
pub fn get_note_set(context: &VaultContext, sets: &[MemoryNoteSetRecord], set_id: &Id) -> (r: Option<
    usize,
>)
    ensures
        match r {
            Some(i) => i < sets@.len() && first_index(
                sets@,
                |set: MemoryNoteSetRecord| set.is(context.id@, set_id@),
            ) == Some(i as int),
            None => first_index(sets@, |set: MemoryNoteSetRecord| set.is(context.id@, set_id@))
                is None,
        },
{
    let accepts = |set: &MemoryNoteSetRecord| -> (yes: bool)
        ensures
            yes == set.is(context.id@, set_id@),
        { set.is_set(&context.id, set_id) };
    find(sets, accepts, Ghost(|set: MemoryNoteSetRecord| set.is(context.id@, set_id@)))
}

/// Why a proposal cannot be prepared, if it cannot.
pub open spec fn prepare_fault(
    snapshots: Seq<MemoryNoteSetSnapshotRecord>,
    snapshot: MemoryNoteSetSnapshotRecord,
    vault: Seq<char>,
) -> Option<StateError> {
    if !snapshot.acceptable(vault) {
        Some(StateError::InvalidInput("memory note-set snapshot is invalid"))
    } else if !snapshot.source_revision.storable() || !snapshot.proposed_set_revision.storable() {
        Some(unstorable())
    } else if some_row(
        snapshots,
        |held: MemoryNoteSetSnapshotRecord| held.pending(vault, snapshot.source_file_id@),
    ) {
        Some(duplicate_row())
    } else {
        None
    }
}

/// Stores one validated proposal, without an application time. At most one
/// proposal per source can be recovered: a second one is refused.
pub fn prepare_note_set_snapshot(
    context: &VaultContext,
    snapshots: Vec<MemoryNoteSetSnapshotRecord>,
    snapshot: MemoryNoteSetSnapshotRecord,
) -> (r: Result<Vec<MemoryNoteSetSnapshotRecord>, StateError>)
    ensures
        match prepare_fault(snapshots@, snapshot, context.id@) {
            Some(error) => r == Err::<Vec<MemoryNoteSetSnapshotRecord>, StateError>(error),
            None => r matches Ok(after) && after@ == snapshots@.push(
                MemoryNoteSetSnapshotRecord { applied_at: None, ..snapshot },
            ),
        },
{
    match validate_snapshot(context, &snapshot) {
        Ok(()) => {},
        Err(error) => return Err(error),
    }
    match snapshot.source_revision.as_i64() {
        Ok(_) => {},
        Err(error) => return Err(StateError::InvalidDomain(error)),
    }
    match snapshot.proposed_set_revision.as_i64() {
        Ok(_) => {},
        Err(error) => return Err(StateError::InvalidDomain(error)),
    }
    let held = {
        let source = &snapshot.source_file_id;
        let accepts = |held: &MemoryNoteSetSnapshotRecord| -> (yes: bool)
            ensures
                yes == held.pending(context.id@, source@),
            { held.is_pending(&context.id, source) };
        any(
            snapshots.as_slice(),
            accepts,
            Ghost(
                |held: MemoryNoteSetSnapshotRecord|
                    held.pending(context.id@, snapshot.source_file_id@),
            ),
        )
    };
    if held {
        return Err(refuse_duplicate());
    }
    let mut snapshots = snapshots;
    snapshots.push(MemoryNoteSetSnapshotRecord { applied_at: None, ..snapshot });
    Ok(snapshots)
}

/// At most one proposal of each vault and source waits for publication.
pub open spec fn one_proposal_per_source(snapshots: Seq<MemoryNoteSetSnapshotRecord>) -> bool {
    forall|i: int, j: int, vault: Seq<char>, source: Seq<char>|
        0 <= i < j < snapshots.len() && #[trigger] snapshots[i].pending(vault, source)
            ==> !#[trigger] snapshots[j].pending(vault, source)
}

/// At most one proposal per source can be recovered: preparing one keeps it so.
pub proof fn law_preparing_keeps_one_proposal(
    snapshots: Seq<MemoryNoteSetSnapshotRecord>,
    snapshot: MemoryNoteSetSnapshotRecord,
    vault: Seq<char>,
)
    requires
        one_proposal_per_source(snapshots),
        prepare_fault(snapshots, snapshot, vault) is None,
    ensures
        one_proposal_per_source(
            snapshots.push(MemoryNoteSetSnapshotRecord { applied_at: None, ..snapshot }),
        ),
{
    let new = MemoryNoteSetSnapshotRecord { applied_at: None, ..snapshot };
    let after = snapshots.push(new);
    let rule = |held: MemoryNoteSetSnapshotRecord| held.pending(vault, snapshot.source_file_id@);
    assert forall|i: int, j: int, owner: Seq<char>, source: Seq<char>|
        0 <= i < j < after.len() && #[trigger] after[i].pending(owner, source) implies !#[trigger] after[j].pending(
        owner,
        source,
    ) by {
        assert(after[i] == snapshots[i]);
        if j < snapshots.len() {
            assert(after[j] == snapshots[j]);
            assert(snapshots[i].pending(owner, source));
        } else if new.pending(owner, source) {
            assert(rule(snapshots[i]));
        }
    }
}

/// Closing proposals, as rejected or applied, keeps at most one per source.
pub proof fn law_closing_keeps_one_proposal(
    before: Seq<MemoryNoteSetSnapshotRecord>,
    after: Seq<MemoryNoteSetSnapshotRecord>,
    rule: spec_fn(MemoryNoteSetSnapshotRecord) -> bool,
    status: Seq<char>,
    at: Option<i64>,
)
    requires
        one_proposal_per_source(before),
        closed_where(before, after, rule, status, at),
        status != "prepared"@,
    ensures
        one_proposal_per_source(after),
{
    assert forall|i: int, j: int, vault: Seq<char>, source: Seq<char>|
        0 <= i < j < after.len() && #[trigger] after[i].pending(vault, source) implies !#[trigger] after[j].pending(
        vault,
        source,
    ) by {
        assert(rule(before[i]) ==> closed_as(before[i], after[i], status, at));
        assert(rule(before[j]) ==> closed_as(before[j], after[j], status, at));
        if after[j].pending(vault, source) {
            assert(after[i] == before[i] && after[j] == before[j]);
            assert(before[i].pending(vault, source));
            assert(before[j].pending(vault, source));
        }
    }
}

/// Whether a proposal got a new status, and an application time where one is
/// given.
pub open spec fn closed_as(
    before: MemoryNoteSetSnapshotRecord,
    after: MemoryNoteSetSnapshotRecord,
    status: Seq<char>,
    at: Option<i64>,
) -> bool {
    &&& after.status@ == status
    &&& after == (MemoryNoteSetSnapshotRecord {
        status: after.status,
        applied_at: if at is Some {
            at
        } else {
            before.applied_at
        },
        ..before
    })
}

/// Whether exactly the proposals that a rule accepts got a new status.
pub open spec fn closed_where(
    before: Seq<MemoryNoteSetSnapshotRecord>,
    after: Seq<MemoryNoteSetSnapshotRecord>,
    rule: spec_fn(MemoryNoteSetSnapshotRecord) -> bool,
    status: Seq<char>,
    at: Option<i64>,
) -> bool {
    &&& after.len() == before.len()
    &&& forall|i: int|
        0 <= i < before.len() ==> if rule(#[trigger] before[i]) {
            closed_as(before[i], after[i], status, at)
        } else {
            after[i] == before[i]
        }
}

/// Gives the proposals that a rule accepts a new status.
pub fn close_where<F: Fn(&MemoryNoteSetSnapshotRecord) -> bool>(
    snapshots: Vec<MemoryNoteSetSnapshotRecord>,
    accepts: F,
    status: &str,
    at: Option<i64>,
    Ghost(rule): Ghost<spec_fn(MemoryNoteSetSnapshotRecord) -> bool>,
) -> (r: Vec<MemoryNoteSetSnapshotRecord>)
    requires
        forall|row: &MemoryNoteSetSnapshotRecord| #[trigger] accepts.requires((row,)),
        forall|row: &MemoryNoteSetSnapshotRecord, yes: bool| #[trigger]
            accepts.ensures((row,), yes) ==> yes == rule(*row),
    ensures
        closed_where(snapshots@, r@, rule, status@, at),
{
    let ghost all = snapshots@;
    let mut rest = snapshots;
    let n: usize = rest.len();
    let mut after: Vec<MemoryNoteSetSnapshotRecord> = Vec::new();
    let mut i: usize = 0;
    assert(rest@ =~= all.skip(0));
    while i < n
        invariant
            i <= n == all.len(),
            forall|row: &MemoryNoteSetSnapshotRecord| #[trigger] accepts.requires((row,)),
            forall|row: &MemoryNoteSetSnapshotRecord, yes: bool| #[trigger]
                accepts.ensures((row,), yes) ==> yes == rule(*row),
            rest@ == all.skip(i as int),
            after@.len() == i,
            forall|k: int|
                0 <= k < i ==> if rule(#[trigger] all[k]) {
                    closed_as(all[k], after@[k], status@, at)
                } else {
                    after@[k] == all[k]
                },
        decreases n - i,
    {
        let row = rest.remove(0);
        assert(row == all[i as int]);
        if accepts(&row) {
            let applied_at = match at {
                Some(at) => Some(at),
                None => row.applied_at,
            };
            after.push(MemoryNoteSetSnapshotRecord { status: status.to_owned(), applied_at, ..row });
        } else {
            after.push(row);
        }
        i += 1;
        assert(rest@ =~= all.skip(i as int));
    }
    after
}

impl MemoryNoteSetSnapshotRecord {
    /// Whether this is the proposal with an identity, and waits for
    /// publication.
    pub open spec fn waiting(self, vault: Seq<char>, id: Seq<char>) -> bool {
        &&& self.vault_id@ == vault
        &&& self.id@ == id
        &&& self.status@ == "prepared"@
    }

    /// Whether this is the proposal with an identity, and waits for
    /// publication.
    pub fn is_waiting(&self, vault: &Id, id: &Id) -> (r: bool)
        ensures
            r == self.waiting(vault@, id@),
    {
        self.vault_id.same(vault) && self.id.same(id) && text_eq(self.status.as_str(), "prepared")
    }
}

/// Reject an obsolete prepared proposal without deleting its evidence. `None`
/// where no such proposal waits.
pub fn reject_note_set_snapshot(
    context: &VaultContext,
    snapshots: Vec<MemoryNoteSetSnapshotRecord>,
    snapshot_id: &Id,
) -> (r: Option<Vec<MemoryNoteSetSnapshotRecord>>)
    ensures
        if some_row(
            snapshots@,
            |p: MemoryNoteSetSnapshotRecord| p.waiting(context.id@, snapshot_id@),
        ) {
            r matches Some(after) && closed_where(
                snapshots@,
                after@,
                |p: MemoryNoteSetSnapshotRecord| p.waiting(context.id@, snapshot_id@),
                "rejected"@,
                None,
            )
        } else {
            r is None
        },
{
    let waiting = |p: &MemoryNoteSetSnapshotRecord| -> (yes: bool)
        ensures
            yes == p.waiting(context.id@, snapshot_id@),
        { p.is_waiting(&context.id, snapshot_id) };
    if !any(
        snapshots.as_slice(),
        waiting,
        Ghost(|p: MemoryNoteSetSnapshotRecord| p.waiting(context.id@, snapshot_id@)),
    ) {
        return None;
    }
    let waiting = |p: &MemoryNoteSetSnapshotRecord| -> (yes: bool)
        ensures
            yes == p.waiting(context.id@, snapshot_id@),
        { p.is_waiting(&context.id, snapshot_id) };
    Some(
        close_where(
            snapshots,
            waiting,
            "rejected",
            None,
            Ghost(|p: MemoryNoteSetSnapshotRecord| p.waiting(context.id@, snapshot_id@)),
        ),
    )
}

/// Why a set cannot be stored, if it cannot.
pub open spec fn set_storage_fault(set: MemoryNoteSetRecord) -> Option<StateError> {
    if !set.source_revision.storable() || !set.set_revision.storable()
        || !set.canonical_revision.storable() {
        Some(unstorable())
    } else {
        None
    }
}

/// Checks that a set fits its columns.
fn check_set_storable(set: &MemoryNoteSetRecord) -> (r: Result<(), StateError>)
    ensures
        r == checked(set_storage_fault(*set)),
{
    match set.source_revision.as_i64() {
        Ok(_) => {},
        Err(error) => return Err(StateError::InvalidDomain(error)),
    }
    match set.set_revision.as_i64() {
        Ok(_) => {},
        Err(error) => return Err(StateError::InvalidDomain(error)),
    }
    match set.canonical_revision.as_i64() {
        Ok(_) => {},
        Err(error) => return Err(StateError::InvalidDomain(error)),
    }
    Ok(())
}

/// A set after it is rewritten: its identity, source and creation time stay.
pub open spec fn rewritten(old: MemoryNoteSetRecord, new: MemoryNoteSetRecord) -> MemoryNoteSetRecord {
    MemoryNoteSetRecord {
        id: old.id,
        vault_id: old.vault_id,
        source_file_id: old.source_file_id,
        created_at: old.created_at,
        ..new
    }
}

/// Whether a stored set is the one that a rewrite replaces: the set of that
/// identity, at the revision just before the new one where that is compared.
pub open spec fn precedes(old: MemoryNoteSetRecord, new: MemoryNoteSetRecord, compare: bool) -> bool {
    &&& old.is(new.vault_id@, new.id@)
    &&& compare ==> old.set_revision.value + 1 == new.set_revision.value
}

/// Sets after a rewrite, or `None` where no stored set precedes it.
pub open spec fn sets_rewritten(
    sets: Seq<MemoryNoteSetRecord>,
    new: MemoryNoteSetRecord,
    compare: bool,
) -> Option<Seq<MemoryNoteSetRecord>> {
    match first_index(sets, |old: MemoryNoteSetRecord| precedes(old, new, compare)) {
        Some(i) => Some(sets.update(i, rewritten(sets[i], new))),
        None => None,
    }
}

/// Rewrites a stored set. With `compare_previous_revision` it must stand at the
/// revision just before the new one.
pub fn update_note_set(
    sets: Vec<MemoryNoteSetRecord>,
    set: MemoryNoteSetRecord,
    compare_previous_revision: bool,
) -> (r: Result<Vec<MemoryNoteSetRecord>, StateError>)
    ensures
        match set_storage_fault(set) {
            Some(error) => r == Err::<Vec<MemoryNoteSetRecord>, StateError>(error),
            None => match sets_rewritten(sets@, set, compare_previous_revision) {
                Some(after) => r matches Ok(rows) && rows@ == after,
                None => r == Err::<Vec<MemoryNoteSetRecord>, StateError>(StateError::Conflict),
            },
        },
{
    match check_set_storable(&set) {
        Ok(()) => {},
        Err(error) => return Err(error),
    }
    let mut sets = sets;
    let at = {
        let new = &set;
        let accepts = |old: &MemoryNoteSetRecord| -> (yes: bool)
            ensures
                yes == precedes(*old, *new, compare_previous_revision),
            {
                old.is_set(&new.vault_id, &new.id) && (!compare_previous_revision || (
                old.set_revision.value < u64::MAX && old.set_revision.value + 1
                    == new.set_revision.value))
            };
        find(
            sets.as_slice(),
            accepts,
            Ghost(|old: MemoryNoteSetRecord| precedes(old, set, compare_previous_revision)),
        )
    };
    match at {
        Some(i) => {
            let id = sets[i].id.duplicate();
            let vault_id = sets[i].vault_id.duplicate();
            let source_file_id = sets[i].source_file_id.duplicate();
            let created_at: i64 = sets[i].created_at;
            sets.set(
                i,
                MemoryNoteSetRecord { id, vault_id, source_file_id, created_at, ..set },
            );
            Ok(sets)
        },
        None => Err(StateError::Conflict),
    }
}

/// The first fault among items that are to be stored, if any.
pub open spec fn items_storage_fault(items: Seq<CurrentMemoryBundle>) -> Option<StateError>
    decreases items.len(),
{
    if items.len() == 0 {
        None
    } else {
        match items_storage_fault(items.drop_last()) {
            Some(error) => Some(error),
            None => storage_fault(items.last()),
        }
    }
}

/// A fault of the first items is a fault of all.
proof fn lemma_items_storage_fault(items: Seq<CurrentMemoryBundle>, n: int)
    requires
        0 <= n <= items.len(),
    ensures
        items_storage_fault(items.take(n)) is Some ==> items_storage_fault(items)
            == items_storage_fault(items.take(n)),
    decreases items.len(),
{
    if n < items.len() {
        lemma_items_storage_fault(items.drop_last(), n);
        assert(items.drop_last().take(n) =~= items.take(n));
    } else {
        assert(items.take(n) =~= items);
    }
}

/// Items after several are stored, one after the other.
pub open spec fn put_all(items: Seq<StoredItem>, new: Seq<CurrentMemoryBundle>) -> Seq<StoredItem>
    decreases new.len(),
{
    if new.len() == 0 {
        items
    } else {
        put(put_all(items, new.drop_last()), stored(new.last()))
    }
}

/// Stores several items, one after the other.
fn put_items(items: Vec<StoredItem>, new: Vec<CurrentMemoryBundle>) -> (r: Result<
    Vec<StoredItem>,
    StateError,
>)
    ensures
        match items_storage_fault(new@) {
            Some(error) => r == Err::<Vec<StoredItem>, StateError>(error),
            None => r matches Ok(after) && after@ == put_all(items@, new@),
        },
{
    let ghost base = items@;
    let ghost all = new@;
    let mut items = items;
    let mut rest = new;
    let n: usize = rest.len();
    let mut i: usize = 0;
    assert(rest@ =~= all.skip(0));
    while i < n
        invariant
            i <= n == all.len(),
            all == new@,
            rest@ == all.skip(i as int),
            items_storage_fault(all.take(i as int)) is None,
            items@ == put_all(base, all.take(i as int)),
        decreases n - i,
    {
        let bundle = rest.remove(0);
        proof {
            assert(bundle == all[i as int]);
            assert(all.take(i + 1).drop_last() =~= all.take(i as int));
            assert(all.take(i + 1).last() == bundle);
            lemma_items_storage_fault(all, i + 1);
        }
        match check_storable(&bundle) {
            Ok(()) => {},
            Err(error) => return Err(error),
        }
        items = put_item(items, StoredItem { memory: bundle.memory, sources: bundle.sources });
        i += 1;
        assert(rest@ =~= all.skip(i as int));
    }
    assert(all.take(n as int) =~= all);
    Ok(items)
}

/// Items without those of a set.
pub open spec fn without_set(items: Seq<StoredItem>, vault: Seq<char>, set: Seq<char>) -> Seq<
    StoredItem,
> {
    items.filter(|item: StoredItem| !item.in_set(vault, set))
}

/// Removes the items of a set.
pub fn drop_set_items(items: Vec<StoredItem>, vault: &Id, set: &Id) -> (r: Vec<StoredItem>)
    ensures
        r@ == without_set(items@, vault@, set@),
{
    let accepts = |item: &StoredItem| -> (yes: bool)
        ensures
            yes == !item.in_set(vault@, set@),
        { !item.is_in_set(vault, set) };
    keep(items, accepts, Ghost(|item: StoredItem| !item.in_set(vault@, set@)))
}

/// The proposal that waits for a source note, if any.
pub open spec fn prepared(
    snapshots: Seq<MemoryNoteSetSnapshotRecord>,
    vault: Seq<char>,
    source: Seq<char>,
) -> Option<MemoryNoteSetSnapshotRecord> {
    if exists|i: usize| is_prepared(snapshots, vault, source, i) {
        Some(snapshots[(choose|i: usize| is_prepared(snapshots, vault, source, i)) as int])
    } else {
        None
    }
}

/// There is one oldest waiting proposal.
proof fn lemma_prepared(
    snapshots: Seq<MemoryNoteSetSnapshotRecord>,
    vault: Seq<char>,
    source: Seq<char>,
    i: usize,
)
    requires
        is_prepared(snapshots, vault, source, i),
    ensures
        prepared(snapshots, vault, source) == Some(snapshots[i as int]),
{
    let j = choose|j: usize| is_prepared(snapshots, vault, source, j);
    crate::order::law_selection_is_deterministic(
        keys(snapshots),
        snapshots.map_values(|p: MemoryNoteSetSnapshotRecord| p.pending(vault, source)),
        1,
        seq![i],
        seq![j],
    );
    assert(seq![i][0] == seq![j][0]);
}

/// Where nothing waits there is no proposal.
proof fn lemma_nothing_prepared(
    snapshots: Seq<MemoryNoteSetSnapshotRecord>,
    vault: Seq<char>,
    source: Seq<char>,
)
    requires
        forall|k: int|
            0 <= k < snapshots.len() ==> !(#[trigger] snapshots[k]).pending(vault, source),
    ensures
        prepared(snapshots, vault, source) is None,
{
    if exists|i: usize| is_prepared(snapshots, vault, source, i) {
        let i = choose|i: usize| is_prepared(snapshots, vault, source, i);
        assert(seq![i][0] == i);
        assert(!snapshots[i as int].pending(vault, source));
    }
}

/// Whether a proposal proposed exactly this set.
pub open spec fn proposes(snapshot: MemoryNoteSetSnapshotRecord, set: MemoryNoteSetRecord) -> bool {
    &&& snapshot.note_set_id@ == set.id@
    &&& snapshot.source_content_hash@ == set.source_content_hash@
    &&& snapshot.source_revision == set.source_revision
    &&& snapshot.proposed_set_revision == set.set_revision
    &&& snapshot.canonical_path@ == set.canonical_path@
}

/// Revision of a stored set, where there is one.
pub open spec fn stored_set_revision(set: Option<MemoryNoteSetRecord>) -> Option<Revision> {
    match set {
        Some(set) => Some(set.set_revision),
        None => None,
    }
}

/// Why the publication of a set is refused before anything is written, if it
/// is.
pub open spec fn set_publication_fault(
    state: NoteMemoryState,
    files: Seq<FileRecord>,
    vault: Seq<char>,
    snapshot_id: Seq<char>,
    set: MemoryNoteSetRecord,
    items: Seq<CurrentMemoryBundle>,
) -> Option<StateError> {
    let snapshot = prepared(state.snapshots@, vault, set.source_file_id@);
    let current = first_row(
        state.sets@,
        |old: MemoryNoteSetRecord| old.of_source(vault, set.source_file_id@),
    );
    if !set.acceptable(vault) {
        Some(StateError::InvalidInput("memory note set is invalid"))
    } else if let Some(error) = set_items_fault(items, vault, set.id@, false) {
        Some(error)
    } else if let Some(error) = set_files_fault(set, files) {
        Some(error)
    } else if !(snapshot is Some && snapshot->0.id@ == snapshot_id && proposes(snapshot->0, set)) {
        Some(StateError::Conflict)
    } else if stored_set_revision(current) != snapshot->0.expected_set_revision {
        Some(StateError::Conflict)
    } else {
        None
    }
}

/// Sets after a set of a source is put in the place of the stored one, or
/// where there is none added, and the error if that cannot be.
pub open spec fn sets_published(
    sets: Seq<MemoryNoteSetRecord>,
    current: Option<MemoryNoteSetRecord>,
    set: MemoryNoteSetRecord,
) -> Result<Seq<MemoryNoteSetRecord>, StateError> {
    match set_storage_fault(set) {
        Some(error) => Err(error),
        None => if current is Some {
            match sets_rewritten(sets, set, true) {
                Some(after) => Ok(after),
                None => Err(StateError::Conflict),
            }
        } else {
            Ok(sets.push(set))
        },
    }
}

/// Publish a canonicalized source-owned set and replace every previously
/// current item of that source, in one step. The store refuses a new set whose
/// identity is taken.
pub fn publish_note_set(
    context: &VaultContext,
    state: NoteMemoryState,
    files: &[FileRecord],
    snapshot_id: &Id,
    note_set: MemoryNoteSetRecord,
    items: Vec<CurrentMemoryBundle>,
    now: i64,
) -> (r: Result<NoteMemoryState, StateError>)
    ensures
        ({
            let current = first_row(
                state.sets@,
                |old: MemoryNoteSetRecord| old.of_source(context.id@, note_set.source_file_id@),
            );
            match set_publication_fault(
                state,
                files@,
                context.id@,
                snapshot_id@,
                note_set,
                items@,
            ) {
                Some(error) => r == Err::<NoteMemoryState, StateError>(error),
                None => match sets_published(state.sets@, current, note_set) {
                    Err(error) => r == Err::<NoteMemoryState, StateError>(error),
                    Ok(sets) => match items_storage_fault(items@) {
                        Some(error) => r == Err::<NoteMemoryState, StateError>(error),
                        None => {
                            &&& r matches Ok(after)
                            &&& after.sets@ == sets
                            &&& after.items@ == put_all(
                                if current is Some {
                                    without_set(state.items@, context.id@, note_set.id@)
                                } else {
                                    state.items@
                                },
                                items@,
                            )
                            &&& closed_where(
                                state.snapshots@,
                                after.snapshots@,
                                |p: MemoryNoteSetSnapshotRecord|
                                    p.waiting(context.id@, snapshot_id@),
                                "applied"@,
                                Some(now),
                            )
                        },
                    },
                },
            }
        }),
{
    match validate_note_set(context, &note_set) {
        Ok(()) => {},
        Err(error) => return Err(error),
    }
    match check_set_items(context, items.as_slice(), &note_set.id, false) {
        Ok(()) => {},
        Err(error) => return Err(error),
    }
    match ensure_note_set_files_current(&note_set, files) {
        Ok(()) => {},
        Err(error) => return Err(error),
    }
    let at = prepared_note_set_snapshot(
        context,
        state.snapshots.as_slice(),
        &note_set.source_file_id,
    );
    let snapshot: &MemoryNoteSetSnapshotRecord = match at {
        Some(i) => {
            proof {
                lemma_prepared(state.snapshots@, context.id@, note_set.source_file_id@, i);
            }
            &state.snapshots[i]
        },
        None => {
            proof {
                lemma_nothing_prepared(
                    state.snapshots@,
                    context.id@,
                    note_set.source_file_id@,
                );
            }
            return Err(StateError::Conflict);
        },
    };
    if !snapshot.id.same(snapshot_id) {
        return Err(StateError::Conflict);
    }
    if !snapshot.note_set_id.same(&note_set.id) || !text_eq(
        snapshot.source_content_hash.as_str(),
        note_set.source_content_hash.as_str(),
    ) || snapshot.source_revision.value != note_set.source_revision.value
        || snapshot.proposed_set_revision.value != note_set.set_revision.value
        || !snapshot.canonical_path.same(&note_set.canonical_path) {
        return Err(StateError::Conflict);
    }
    let current = get_note_set_by_source(
        context,
        state.sets.as_slice(),
        &note_set.source_file_id,
    );
    let stored_revision = match current {
        Some(i) => Some(state.sets[i].set_revision),
        None => None,
    };
    let expected = snapshot.expected_set_revision;
    let unchanged = match (stored_revision, expected) {
        (Some(a), Some(b)) => a.value == b.value,
        (None, None) => true,
        _ => false,
    };
    if !unchanged {
        return Err(StateError::Conflict);
    }
    let NoteMemoryState { items: old_items, sets: old_sets, snapshots } = state;
    let (base, sets) = match current {
        Some(_) => {
            let base = drop_set_items(old_items, &context.id, &note_set.id);
            match update_note_set(old_sets, note_set, true) {
                Ok(sets) => (base, sets),
                Err(error) => return Err(error),
            }
        },
        None => {
            match check_set_storable(&note_set) {
                Ok(()) => {},
                Err(error) => return Err(error),
            }
            let mut sets = old_sets;
            sets.push(note_set);
            (old_items, sets)
        },
    };
    let items = match put_items(base, items) {
        Ok(items) => items,
        Err(error) => return Err(error),
    };
    let waiting = |p: &MemoryNoteSetSnapshotRecord| -> (yes: bool)
        ensures
            yes == p.waiting(context.id@, snapshot_id@),
        { p.is_waiting(&context.id, snapshot_id) };
    let snapshots = close_where(
        snapshots,
        waiting,
        "applied",
        Some(now),
        Ghost(|p: MemoryNoteSetSnapshotRecord| p.waiting(context.id@, snapshot_id@)),
    );
    Ok(NoteMemoryState { items, sets, snapshots })
}

/// Whether a stored item stands in the way of a recovery: it belongs to
/// something else than the recovered set or the source's stored one.
pub open spec fn taken(
    item: StoredItem,
    set: Seq<char>,
    current: Option<MemoryNoteSetRecord>,
) -> bool {
    !(item.memory.ownership == CurrentMemoryOwnership::NoteDerived && item.memory.note_set_id
        is Some && (item.memory.note_set_id->0@ == set || (current is Some
        && item.memory.note_set_id->0@ == current->0.id@)))
}

/// Whether the identity of a recovered item is taken by another owner.
pub open spec fn identity_taken(
    stored_items: Seq<StoredItem>,
    vault: Seq<char>,
    bundle: CurrentMemoryBundle,
    set: Seq<char>,
    current: Option<MemoryNoteSetRecord>,
) -> bool {
    let old = first_row(stored_items, |item: StoredItem| item.is(vault, bundle.memory.id@));
    old is Some && taken(old->0, set, current)
}

/// Checks that no recovered item takes the identity of another owner's.
fn check_identities(
    context: &VaultContext,
    stored_items: &[StoredItem],
    items: &[CurrentMemoryBundle],
    set: &Id,
    current: Option<&MemoryNoteSetRecord>,
) -> (r: Result<(), StateError>)
    ensures
        r == (if some_row(
            items@,
            |bundle: CurrentMemoryBundle|
                identity_taken(stored_items@, context.id@, bundle, set@, owned_set(current)),
        ) {
            Err::<(), StateError>(StateError::Conflict)
        } else {
            Ok(())
        }),
{
    let accepts = |bundle: &CurrentMemoryBundle| -> (yes: bool)
        ensures
            yes == identity_taken(
                stored_items@,
                context.id@,
                *bundle,
                set@,
                owned_set(current),
            ),
        {
            match crate::current_memory::reads::get_unchecked(
                context,
                stored_items,
                &bundle.memory.id,
            ) {
                Some(i) => {
                    let memory = &stored_items[i].memory;
                    let ours = match &memory.note_set_id {
                        Some(id) => id.same(set) || match current {
                            Some(current) => id.same(&current.id),
                            None => false,
                        },
                        None => false,
                    };
                    !(memory.ownership == CurrentMemoryOwnership::NoteDerived && ours)
                },
                None => false,
            }
        };
    if any(
        items,
        accepts,
        Ghost(
            |bundle: CurrentMemoryBundle|
                identity_taken(stored_items@, context.id@, bundle, set@, owned_set(current)),
        ),
    ) {
        return Err(StateError::Conflict);
    }
    Ok(())
}

/// The set behind an optional reference.
pub open spec fn owned_set(set: Option<&MemoryNoteSetRecord>) -> Option<MemoryNoteSetRecord> {
    match set {
        Some(set) => Some(*set),
        None => None,
    }
}

/// Why the recovery of a set is refused before anything is written, if it is.
pub open spec fn set_recovery_fault(
    state: NoteMemoryState,
    files: Seq<FileRecord>,
    vault: Seq<char>,
    set: MemoryNoteSetRecord,
    items: Seq<CurrentMemoryBundle>,
) -> Option<StateError> {
    let current = first_row(
        state.sets@,
        |old: MemoryNoteSetRecord| old.of_source(vault, set.source_file_id@),
    );
    let same = first_row(state.sets@, |old: MemoryNoteSetRecord| old.is(vault, set.id@));
    if !set.acceptable(vault) {
        Some(StateError::InvalidInput("memory note set is invalid"))
    } else if let Some(error) = set_items_fault(items, vault, set.id@, true) {
        Some(error)
    } else if let Some(error) = set_files_fault(set, files) {
        Some(error)
    } else if same is Some && same->0.source_file_id@ != set.source_file_id@ {
        Some(StateError::Conflict)
    } else if some_row(
        items,
        |bundle: CurrentMemoryBundle|
            identity_taken(state.items@, vault, bundle, set.id@, current),
    ) {
        Some(StateError::Conflict)
    } else {
        None
    }
}

/// Sets without one of them.
pub open spec fn without_note_set(sets: Seq<MemoryNoteSetRecord>, vault: Seq<char>, id: Seq<char>) -> Seq<
    MemoryNoteSetRecord,
> {
    sets.filter(|set: MemoryNoteSetRecord| !set.is(vault, id))
}

/// Removes a set.
fn drop_set(sets: Vec<MemoryNoteSetRecord>, vault: &Id, id: &Id) -> (r: Vec<MemoryNoteSetRecord>)
    ensures
        r@ == without_note_set(sets@, vault@, id@),
{
    let accepts = |set: &MemoryNoteSetRecord| -> (yes: bool)
        ensures
            yes == !set.is(vault@, id@),
        { !set.is_set(vault, id) };
    keep(sets, accepts, Ghost(|set: MemoryNoteSetRecord| !set.is(vault@, id@)))
}

/// Sets after a recovery, and the error if it cannot be.
pub open spec fn sets_recovered(
    sets: Seq<MemoryNoteSetRecord>,
    vault: Seq<char>,
    current: Option<MemoryNoteSetRecord>,
    set: MemoryNoteSetRecord,
) -> Result<Seq<MemoryNoteSetRecord>, StateError> {
    match set_storage_fault(set) {
        Some(error) => Err(error),
        None => if current is None {
            Ok(sets.push(set))
        } else if current->0.id@ == set.id@ {
            match sets_rewritten(sets, set, false) {
                Some(after) => Ok(after),
                None => Err(StateError::Conflict),
            }
        } else {
            Ok(without_note_set(sets, vault, current->0.id@).push(set))
        },
    }
}

/// Restore one complete source-owned set from already-current canonical
/// Markdown. It is deliberately separate from the publication of a proposal:
/// it checks the source content and the canonical file, and then replaces the
/// whole set in one step. Proposals that wait for the source are rejected.
pub fn restore_note_set_projection(
    context: &VaultContext,
    state: NoteMemoryState,
    files: &[FileRecord],
    note_set: MemoryNoteSetRecord,
    items: Vec<CurrentMemoryBundle>,
    now: i64,
) -> (r: Result<NoteMemoryState, StateError>)
    ensures
        ({
            let current = first_row(
                state.sets@,
                |old: MemoryNoteSetRecord| old.of_source(context.id@, note_set.source_file_id@),
            );
            match set_recovery_fault(state, files@, context.id@, note_set, items@) {
                Some(error) => r == Err::<NoteMemoryState, StateError>(error),
                None => match sets_recovered(state.sets@, context.id@, current, note_set) {
                    Err(error) => r == Err::<NoteMemoryState, StateError>(error),
                    Ok(sets) => match items_storage_fault(items@) {
                        Some(error) => r == Err::<NoteMemoryState, StateError>(error),
                        None => {
                            &&& r matches Ok(after)
                            &&& after.sets@ == sets
                            &&& after.items@ == put_all(
                                if current is Some {
                                    without_set(state.items@, context.id@, current->0.id@)
                                } else {
                                    state.items@
                                },
                                items@,
                            )
                            &&& closed_where(
                                state.snapshots@,
                                after.snapshots@,
                                |p: MemoryNoteSetSnapshotRecord|
                                    p.pending(context.id@, note_set.source_file_id@),
                                "rejected"@,
                                Some(now),
                            )
                        },
                    },
                },
            }
        }),
{
    match validate_note_set(context, &note_set) {
        Ok(()) => {},
        Err(error) => return Err(error),
    }
    match check_set_items(context, items.as_slice(), &note_set.id, true) {
        Ok(()) => {},
        Err(error) => return Err(error),
    }
    match ensure_note_set_files_current(&note_set, files) {
        Ok(()) => {},
        Err(error) => return Err(error),
    }
    let at = get_note_set_by_source(context, state.sets.as_slice(), &note_set.source_file_id);
    let current: Option<&MemoryNoteSetRecord> = match at {
        Some(i) => Some(&state.sets[i]),
        None => None,
    };
    match get_note_set(context, state.sets.as_slice(), &note_set.id) {
        Some(i) => {
            if !state.sets[i].source_file_id.same(&note_set.source_file_id) {
                return Err(StateError::Conflict);
            }
        },
        None => {},
    }
    match check_identities(
        context,
        state.items.as_slice(),
        items.as_slice(),
        &note_set.id,
        current,
    ) {
        Ok(()) => {},
        Err(error) => return Err(error),
    }
    let current_id: Option<Id> = match current {
        Some(set) => Some(set.id.duplicate()),
        None => None,
    };
    let source_file_id = note_set.source_file_id.duplicate();
    let NoteMemoryState { items: old_items, sets: old_sets, snapshots } = state;
    let (base, sets) = match current_id {
        Some(id) => {
            let base = drop_set_items(old_items, &context.id, &id);
            if id.same(&note_set.id) {
                match update_note_set(old_sets, note_set, false) {
                    Ok(sets) => (base, sets),
                    Err(error) => return Err(error),
                }
            } else {
                match check_set_storable(&note_set) {
                    Ok(()) => {},
                    Err(error) => return Err(error),
                }
                let mut sets = drop_set(old_sets, &context.id, &id);
                sets.push(note_set);
                (base, sets)
            }
        },
        None => {
            match check_set_storable(&note_set) {
                Ok(()) => {},
                Err(error) => return Err(error),
            }
            let mut sets = old_sets;
            sets.push(note_set);
            (old_items, sets)
        },
    };
    let items = match put_items(base, items) {
        Ok(items) => items,
        Err(error) => return Err(error),
    };
    let pending = |p: &MemoryNoteSetSnapshotRecord| -> (yes: bool)
        ensures
            yes == p.pending(context.id@, source_file_id@),
        { p.is_pending(&context.id, &source_file_id) };
    let snapshots = close_where(
        snapshots,
        pending,
        "rejected",
        Some(now),
        Ghost(
            |p: MemoryNoteSetSnapshotRecord| p.pending(context.id@, note_set.source_file_id@),
        ),
    );
    Ok(NoteMemoryState { items, sets, snapshots })
}

/// Items and sets after a change to one set.
pub struct RewrittenSet {
    pub items: Vec<StoredItem>,
    pub sets: Vec<MemoryNoteSetRecord>,
}

/// Why the manual deletion of a derived item is refused before anything is
/// written, if it is.
pub open spec fn pause_fault(
    items: Seq<StoredItem>,
    sets: Seq<MemoryNoteSetRecord>,
    files: Seq<FileRecord>,
    vault: Seq<char>,
    memory_id: Seq<char>,
    expected: Revision,
    updated: MemoryNoteSetRecord,
) -> Option<StateError> {
    let item = first_row(items, |item: StoredItem| item.is(vault, memory_id));
    let old = match item {
        Some(item) => match item.memory.note_set_id {
            Some(id) => first_row(sets, |set: MemoryNoteSetRecord| set.is(vault, id@)),
            None => None,
        },
        None => None,
    };
    if !updated.acceptable(vault) {
        Some(StateError::InvalidInput("memory note set is invalid"))
    } else if !updated.extraction_paused {
        Some(StateError::InvalidInput("manual note-memory deletion must pause extraction"))
    } else if let Some(error) = set_files_fault(updated, files) {
        Some(error)
    } else if item is None || old is None {
        Some(StateError::Conflict)
    } else if item->0.memory.ownership != CurrentMemoryOwnership::NoteDerived
        || item->0.memory.revision != expected || old->0.id@ != updated.id@ {
        Some(StateError::Conflict)
    } else {
        match old->0.set_revision.successor() {
            None => Some(unstorable()),
            Some(next) => if updated.set_revision != next {
                Some(StateError::Conflict)
            } else if !expected.storable() {
                Some(unstorable())
            } else {
                None
            },
        }
    }
}

/// Items without one item of a set.
pub open spec fn without_set_item(
    items: Seq<StoredItem>,
    vault: Seq<char>,
    id: Seq<char>,
    set: Seq<char>,
    revision: Revision,
) -> Seq<StoredItem> {
    items.filter(
        |item: StoredItem|
            !(item.is(vault, id) && item.in_set(vault, set) && item.memory.revision == revision),
    )
}

/// Rewrite a note-owned set after a manual item deletion and pause automatic
/// extraction for the source, in one step. The canonical bytes must already
/// have been committed.
pub fn delete_note_item_and_pause(
    context: &VaultContext,
    items: Vec<StoredItem>,
    sets: Vec<MemoryNoteSetRecord>,
    files: &[FileRecord],
    memory_id: &Id,
    expected_memory_revision: Revision,
    updated_set: MemoryNoteSetRecord,
) -> (r: Result<RewrittenSet, StateError>)
    ensures
        match pause_fault(
            items@,
            sets@,
            files@,
            context.id@,
            memory_id@,
            expected_memory_revision,
            updated_set,
        ) {
            Some(error) => r == Err::<RewrittenSet, StateError>(error),
            None => match set_storage_fault(updated_set) {
                Some(error) => r == Err::<RewrittenSet, StateError>(error),
                None => match sets_rewritten(sets@, updated_set, true) {
                    None => r == Err::<RewrittenSet, StateError>(StateError::Conflict),
                    Some(rewrites) => {
                        &&& r matches Ok(after)
                        &&& after.sets@ == rewrites
                        &&& after.items@ == without_set_item(
                            items@,
                            context.id@,
                            memory_id@,
                            updated_set.id@,
                            expected_memory_revision,
                        )
                    },
                },
            },
        },
{
    match validate_note_set(context, &updated_set) {
        Ok(()) => {},
        Err(error) => return Err(error),
    }
    if !updated_set.extraction_paused {
        return Err(
            StateError::InvalidInput("manual note-memory deletion must pause extraction"),
        );
    }
    match ensure_note_set_files_current(&updated_set, files) {
        Ok(()) => {},
        Err(error) => return Err(error),
    }
    let at = match crate::current_memory::reads::get_unchecked(
        context,
        items.as_slice(),
        memory_id,
    ) {
        Some(at) => at,
        None => return Err(StateError::Conflict),
    };
    let memory = &items[at].memory;
    let owner = match &memory.note_set_id {
        Some(id) => match get_note_set(context, sets.as_slice(), id) {
            Some(i) => i,
            None => return Err(StateError::Conflict),
        },
        None => return Err(StateError::Conflict),
    };
    let old_set = &sets[owner];
    if memory.ownership != CurrentMemoryOwnership::NoteDerived || memory.revision.value
        != expected_memory_revision.value || !old_set.id.same(&updated_set.id) {
        return Err(StateError::Conflict);
    }
    match old_set.set_revision.next() {
        Ok(next) => {
            if updated_set.set_revision.value != next.value {
                return Err(StateError::Conflict);
            }
        },
        Err(error) => return Err(StateError::InvalidDomain(error)),
    }
    match expected_memory_revision.as_i64() {
        Ok(_) => {},
        Err(error) => return Err(StateError::InvalidDomain(error)),
    }
    let kept = {
        let set_id = &updated_set.id;
        let accepts = |item: &StoredItem| -> (yes: bool)
            ensures
                yes == !(item.is(context.id@, memory_id@) && item.in_set(context.id@, set_id@)
                    && item.memory.revision == expected_memory_revision),
            {
                !(item.is_item(&context.id, memory_id) && item.is_in_set(&context.id, set_id)
                    && item.memory.revision.value == expected_memory_revision.value)
            };
        keep(
            items,
            accepts,
            Ghost(
                |item: StoredItem|
                    !(item.is(context.id@, memory_id@) && item.in_set(
                        context.id@,
                        updated_set.id@,
                    ) && item.memory.revision == expected_memory_revision),
            ),
        )
    };
    match update_note_set(sets, updated_set, true) {
        Ok(sets) => Ok(RewrittenSet { items: kept, sets }),
        Err(error) => Err(error),
    }
}

/// Why a change to a set alone is refused for its revision, if it is.
pub open spec fn step_fault(updated: MemoryNoteSetRecord, expected: Revision) -> Option<StateError> {
    match expected.successor() {
        None => Some(unstorable()),
        Some(next) => if updated.set_revision == next {
            None
        } else {
            Some(StateError::Conflict)
        },
    }
}

/// Why extraction is not resumed, if it is not.
pub open spec fn resume_fault(
    sets: Seq<MemoryNoteSetRecord>,
    files: Seq<FileRecord>,
    vault: Seq<char>,
    updated: MemoryNoteSetRecord,
    expected: Revision,
) -> Option<StateError> {
    let old = first_row(sets, |set: MemoryNoteSetRecord| set.is(vault, updated.id@));
    if !updated.acceptable(vault) {
        Some(StateError::InvalidInput("memory note set is invalid"))
    } else if updated.extraction_paused {
        Some(StateError::Conflict)
    } else if let Some(error) = step_fault(updated, expected) {
        Some(error)
    } else if let Some(error) = set_canonical_fault(updated, files) {
        Some(error)
    } else if !(old is Some && old->0.source_file_id@ == updated.source_file_id@
        && old->0.set_revision == expected && old->0.extraction_paused) {
        Some(StateError::Conflict)
    } else {
        None
    }
}

/// Sets after a set alone is changed.
pub open spec fn set_changed(
    sets: Seq<MemoryNoteSetRecord>,
    updated: MemoryNoteSetRecord,
    r: Result<Vec<MemoryNoteSetRecord>, StateError>,
) -> bool {
    match set_storage_fault(updated) {
        Some(error) => r == Err::<Vec<MemoryNoteSetRecord>, StateError>(error),
        None => match sets_rewritten(sets, updated, true) {
            None => r == Err::<Vec<MemoryNoteSetRecord>, StateError>(StateError::Conflict),
            Some(rewrites) => r matches Ok(after) && after@ == rewrites,
        },
    }
}

/// Resume automatic extraction explicitly. The set revision is compared so that
/// an operator cannot accidentally unpause a newer rewrite.
pub fn resume_note_extraction(
    context: &VaultContext,
    sets: Vec<MemoryNoteSetRecord>,
    files: &[FileRecord],
    updated_set: MemoryNoteSetRecord,
    expected_set_revision: Revision,
) -> (r: Result<Vec<MemoryNoteSetRecord>, StateError>)
    ensures
        match resume_fault(sets@, files@, context.id@, updated_set, expected_set_revision) {
            Some(error) => r == Err::<Vec<MemoryNoteSetRecord>, StateError>(error),
            None => set_changed(sets@, updated_set, r),
        },
{
    match validate_note_set(context, &updated_set) {
        Ok(()) => {},
        Err(error) => return Err(error),
    }
    if updated_set.extraction_paused {
        return Err(StateError::Conflict);
    }
    match expected_set_revision.next() {
        Ok(next) => {
            if updated_set.set_revision.value != next.value {
                return Err(StateError::Conflict);
            }
        },
        Err(error) => return Err(StateError::InvalidDomain(error)),
    }
    match ensure_note_set_canonical_current(&updated_set, files) {
        Ok(()) => {},
        Err(error) => return Err(error),
    }
    match get_note_set(context, sets.as_slice(), &updated_set.id) {
        Some(i) => {
            let set = &sets[i];
            if !set.source_file_id.same(&updated_set.source_file_id) || set.set_revision.value
                != expected_set_revision.value || !set.extraction_paused {
                return Err(StateError::Conflict);
            }
        },
        None => return Err(StateError::Conflict),
    }
    update_note_set(sets, updated_set, true)
}

/// Why a move of the source is not recorded, if it is not.
pub open spec fn move_fault(
    sets: Seq<MemoryNoteSetRecord>,
    files: Seq<FileRecord>,
    vault: Seq<char>,
    updated: MemoryNoteSetRecord,
    expected: Revision,
) -> Option<StateError> {
    let old = first_row(sets, |set: MemoryNoteSetRecord| set.is(vault, updated.id@));
    if !updated.acceptable(vault) {
        Some(StateError::InvalidInput("memory note set is invalid"))
    } else if let Some(error) = step_fault(updated, expected) {
        Some(error)
    } else if let Some(error) = set_files_fault(updated, files) {
        Some(error)
    } else if !(old is Some && old->0.source_file_id@ == updated.source_file_id@
        && old->0.source_content_hash@ == updated.source_content_hash@ && old->0.set_revision
        == expected && old->0.extraction_paused == updated.extraction_paused) {
        Some(StateError::Conflict)
    } else {
        None
    }
}

/// Update the navigable source path after a move that kept file identity and
/// content. This never changes extraction coverage.
pub fn move_note_set_source(
    context: &VaultContext,
    sets: Vec<MemoryNoteSetRecord>,
    files: &[FileRecord],
    updated_set: MemoryNoteSetRecord,
    expected_set_revision: Revision,
) -> (r: Result<Vec<MemoryNoteSetRecord>, StateError>)
    ensures
        match move_fault(sets@, files@, context.id@, updated_set, expected_set_revision) {
            Some(error) => r == Err::<Vec<MemoryNoteSetRecord>, StateError>(error),
            None => set_changed(sets@, updated_set, r),
        },
{
    match validate_note_set(context, &updated_set) {
        Ok(()) => {},
        Err(error) => return Err(error),
    }
    match expected_set_revision.next() {
        Ok(next) => {
            if updated_set.set_revision.value != next.value {
                return Err(StateError::Conflict);
            }
        },
        Err(error) => return Err(StateError::InvalidDomain(error)),
    }
    match ensure_note_set_files_current(&updated_set, files) {
        Ok(()) => {},
        Err(error) => return Err(error),
    }
    match get_note_set(context, sets.as_slice(), &updated_set.id) {
        Some(i) => {
            let set = &sets[i];
            if !set.source_file_id.same(&updated_set.source_file_id) || !text_eq(
                set.source_content_hash.as_str(),
                updated_set.source_content_hash.as_str(),
            ) || set.set_revision.value != expected_set_revision.value || set.extraction_paused
                != updated_set.extraction_paused {
                return Err(StateError::Conflict);
            }
        },
        None => return Err(StateError::Conflict),
    }
    update_note_set(sets, updated_set, true)
}

/// Delete one source-owned set, with its items, after its canonical file was
/// deleted. A retry may come after the file is already absent; the optimistic
/// set revision still prevents deleting a newer replacement.
pub fn delete_note_set_projection(
    context: &VaultContext,
    items: Vec<StoredItem>,
    sets: Vec<MemoryNoteSetRecord>,
    source_file_id: &Id,
    expected_set_revision: Revision,
) -> (r: Result<RewrittenSet, StateError>)
    ensures
        ({
            let old = first_row(
                sets@,
                |set: MemoryNoteSetRecord| set.of_source(context.id@, source_file_id@),
            );
            if !(old is Some && old->0.set_revision == expected_set_revision) {
                r == Err::<RewrittenSet, StateError>(StateError::Conflict)
            } else if !expected_set_revision.storable() {
                r == Err::<RewrittenSet, StateError>(unstorable())
            } else {
                &&& r matches Ok(after)
                &&& after.sets@ == without_note_set(sets@, context.id@, old->0.id@)
                &&& after.items@ == without_set(items@, context.id@, old->0.id@)
            }
        }),
{
    let id = match get_note_set_by_source(context, sets.as_slice(), source_file_id) {
        Some(i) => {
            if sets[i].set_revision.value != expected_set_revision.value {
                return Err(StateError::Conflict);
            }
            sets[i].id.duplicate()
        },
        None => return Err(StateError::Conflict),
    };
    match expected_set_revision.as_i64() {
        Ok(_) => {},
        Err(error) => return Err(StateError::InvalidDomain(error)),
    }
    let items = drop_set_items(items, &context.id, &id);
    let sets = drop_set(sets, &context.id, &id);
    Ok(RewrittenSet { items, sets })
}

/// An item after it was recalled as often as it is listed.
pub open spec fn recalled(item: StoredItem, vault: Seq<char>, ids: Seq<Id>, now: i64) -> StoredItem
    decreases ids.len(),
{
    if ids.len() == 0 {
        item
    } else {
        let before = recalled(item, vault, ids.drop_last(), now);
        if before.is(vault, ids.last()@) {
            StoredItem {
                memory: CurrentMemoryRecord {
                    last_recalled_at: Some(now),
                    recall_count: (before.memory.recall_count + 1) as u64,
                    ..before.memory
                },
                ..before
            }
        } else {
            before
        }
    }
}

/// A recall keeps everything of an item but its recall statistics, and counts
/// at most once for each listing.
pub proof fn law_recall_keeps_items(item: StoredItem, vault: Seq<char>, ids: Seq<Id>, now: i64)
    requires
        item.memory.recall_count + ids.len() <= u64::MAX,
    ensures
        ({
            let after = recalled(item, vault, ids, now);
            &&& after.sources == item.sources
            &&& after.memory == (CurrentMemoryRecord {
                last_recalled_at: after.memory.last_recalled_at,
                recall_count: after.memory.recall_count,
                ..item.memory
            })
            &&& item.memory.recall_count <= after.memory.recall_count
                <= item.memory.recall_count + ids.len()
        }),
    decreases ids.len(),
{
    if ids.len() > 0 {
        law_recall_keeps_items(item, vault, ids.drop_last(), now);
    }
}

/// Record successful recalls without affecting what can be read.
pub fn mark_recalled(context: &VaultContext, items: Vec<StoredItem>, memory_ids: &[Id], now: i64) -> (r: Vec<
    StoredItem,
>)
    requires
        forall|i: int|
            0 <= i < items@.len() ==> (#[trigger] items@[i]).memory.recall_count
                + memory_ids@.len() <= i64::MAX,
    ensures
        r@ == items@.map_values(
            |item: StoredItem| recalled(item, context.id@, memory_ids@, now),
        ),
{
    let ghost all = items@;
    let mut rest = items;
    let n: usize = rest.len();
    let mut after: Vec<StoredItem> = Vec::new();
    let mut i: usize = 0;
    let ghost rule = |item: StoredItem| recalled(item, context.id@, memory_ids@, now);
    assert(rest@ =~= all.skip(0));
    while i < n
        invariant
            i <= n == all.len(),
            forall|k: int|
                0 <= k < all.len() ==> (#[trigger] all[k]).memory.recall_count
                    + memory_ids@.len() <= i64::MAX,
            rule == (|item: StoredItem| recalled(item, context.id@, memory_ids@, now)),
            rest@ == all.skip(i as int),
            after@ == all.take(i as int).map_values(rule),
        decreases n - i,
    {
        let mut item = rest.remove(0);
        assert(item == all[i as int]);
        let mut k: usize = 0;
        while k < memory_ids.len()
            invariant
                k <= memory_ids@.len(),
                i < all.len(),
                all[i as int].memory.recall_count + memory_ids@.len() <= i64::MAX,
                item == recalled(all[i as int], context.id@, memory_ids@.take(k as int), now),
            decreases memory_ids@.len() - k,
        {
            proof {
                assert(memory_ids@.take(k + 1).drop_last() =~= memory_ids@.take(k as int));
                assert(memory_ids@.take(k + 1).last() == memory_ids@[k as int]);
                law_recall_keeps_items(
                    all[i as int],
                    context.id@,
                    memory_ids@.take(k as int),
                    now,
                );
            }
            if item.is_item(&context.id, &memory_ids[k]) {
                let StoredItem { memory, sources } = item;
                let recall_count: u64 = memory.recall_count + 1;
                item = StoredItem {
                    memory: CurrentMemoryRecord {
                        last_recalled_at: Some(now),
                        recall_count,
                        ..memory
                    },
                    sources,
                };
            }
            k += 1;
        }
        assert(memory_ids@.take(k as int) =~= memory_ids@);
        after.push(item);
        i += 1;
        assert(rest@ =~= all.skip(i as int));
        assert(after@ =~= all.take(i as int).map_values(rule));
    }
    assert(all.take(n as int) =~= all);
    after
}

/// What storing items leaves: an item is one of the new ones or was there
/// before.
proof fn lemma_put_all(items: Seq<StoredItem>, new: Seq<CurrentMemoryBundle>, i: int)
    requires
        0 <= i < put_all(items, new).len(),
    ensures
        ({
            let item = put_all(items, new)[i];
            ||| exists|k: int|
                0 <= k < new.len() && item.is(
                    (#[trigger] new[k]).memory.vault_id@,
                    new[k].memory.id@,
                ) && item.memory.content == new[k].memory.content && item.memory.note_set_id
                    == new[k].memory.note_set_id
            ||| i < items.len() && item == items[i]
        }),
    decreases new.len(),
{
    if new.len() > 0 {
        let last = stored(new.last());
        let before = put_all(items, new.drop_last());
        let same = |item: StoredItem| item.is(last.memory.vault_id@, last.memory.id@);
        lemma_first_index(before, same);
        let at = match first_index(before, same) {
            Some(i) => i,
            None => before.len() as int,
        };
        let item = put_all(items, new)[i];
        if i == at {
            assert(item.memory.content == new[new.len() - 1].memory.content);
        } else {
            assert(item == before[i]);
            lemma_put_all(items, new.drop_last(), i);
            if exists|k: int|
                0 <= k < new.drop_last().len() && item.is(
                    (#[trigger] new.drop_last()[k]).memory.vault_id@,
                    new.drop_last()[k].memory.id@,
                ) && item.memory.content == new.drop_last()[k].memory.content
                    && item.memory.note_set_id == new.drop_last()[k].memory.note_set_id {
                let k = choose|k: int|
                    0 <= k < new.drop_last().len() && item.is(
                        (#[trigger] new.drop_last()[k]).memory.vault_id@,
                        new.drop_last()[k].memory.id@,
                    ) && item.memory.content == new.drop_last()[k].memory.content
                        && item.memory.note_set_id == new.drop_last()[k].memory.note_set_id;
                assert(new[k] == new.drop_last()[k]);
            }
        }
    }
}

/// No item of a set is left where the set's items are removed.
proof fn lemma_without_set(items: Seq<StoredItem>, vault: Seq<char>, set: Seq<char>)
    ensures
        forall|i: int|
            0 <= i < without_set(items, vault, set).len() ==> !(
            #[trigger] without_set(items, vault, set)[i]).in_set(vault, set),
    decreases items.len(),
{
    reveal(Seq::filter);
    if items.len() > 0 {
        lemma_without_set(items.drop_last(), vault, set);
    }
}

/// A publication replaces the whole set: afterwards every item of the set is
/// one of the published items, with the published content.
pub proof fn law_publication_replaces_the_set(
    items: Seq<StoredItem>,
    new: Seq<CurrentMemoryBundle>,
    vault: Seq<char>,
    set: Seq<char>,
    i: int,
)
    requires
        ({
            let after = put_all(without_set(items, vault, set), new);
            0 <= i < after.len() && after[i].in_set(vault, set)
        }),
    ensures
        ({
            let item = put_all(without_set(items, vault, set), new)[i];
            exists|k: int|
                0 <= k < new.len() && item.is(
                    (#[trigger] new[k]).memory.vault_id@,
                    new[k].memory.id@,
                ) && item.memory.content == new[k].memory.content
        }),
{
    lemma_without_set(items, vault, set);
    lemma_put_all(without_set(items, vault, set), new, i);
}

/// A set stays the set of its source: a rewrite never moves it to another note,
/// another vault or another identity.
pub proof fn law_rewrite_keeps_source(
    sets: Seq<MemoryNoteSetRecord>,
    new: MemoryNoteSetRecord,
    compare: bool,
    i: int,
)
    requires
        0 <= i < sets.len(),
        sets_rewritten(sets, new, compare) is Some,
    ensures
        ({
            let after = sets_rewritten(sets, new, compare)->0;
            &&& after.len() == sets.len()
            &&& after[i].id == sets[i].id
            &&& after[i].vault_id == sets[i].vault_id
            &&& after[i].source_file_id == sets[i].source_file_id
            &&& after[i].created_at == sets[i].created_at
        }),
{
    lemma_first_index(sets, |old: MemoryNoteSetRecord| precedes(old, new, compare));
}

/// A rewrite that compares revisions advances the set by exactly one, and
/// leaves every other set as it was.
pub proof fn law_rewrite_advances_by_one(
    sets: Seq<MemoryNoteSetRecord>,
    new: MemoryNoteSetRecord,
    i: int,
)
    requires
        0 <= i < sets.len(),
        sets_rewritten(sets, new, true) is Some,
        sets_rewritten(sets, new, true)->0[i] != sets[i],
    ensures
        sets[i].is(new.vault_id@, new.id@),
        sets_rewritten(sets, new, true)->0[i].set_revision.value == sets[i].set_revision.value + 1,
{
    lemma_first_index(sets, |old: MemoryNoteSetRecord| precedes(old, new, true));
}

} // verus!
