//! Committing and restoring formal memories.

use vstd::prelude::*;

use crate::current_memory::formal::{
    contribution_owner, is_starting_from, owns, seen_revision_fault, set_revision_of, starts_from,
    FormalMemoryDocument, FormalMemoryOperation, FormalMemorySupport, FormalSourceRewrite,
};
use crate::current_memory::identities::{reserve_missing, reserved_after};
use crate::current_memory::note_sets::{
    close_where, closed_where, drop_set_items, get_note_set, set_storage_fault, sets_rewritten,
    update_note_set, without_set, NoteMemoryState,
};
use crate::current_memory::publish::{item_storage_fault, put, put_item, stored, unstorable};
use crate::current_memory::{
    checked, CurrentMemoryBundle, CurrentMemoryRecord, CurrentMemorySourceRecord,
    MemoryNoteSetRecord, MemoryNoteSetSnapshotRecord, StoredItem,
};
use crate::domain::{Id, VaultContext};
use crate::error::{invalid, StateError};
use crate::rows::{
    any, change, each, find, first_index, first_row, keep, lemma_filter_drops, lemma_first_index,
    lemma_push_keeps_others, lemma_put_is_found, lemma_update_keeps_others, some_row,
};
use crate::text::text_eq;

verus! {

/// Why a provenance row cannot be stored with an item, if it cannot.
pub open spec fn source_fault(
    source: CurrentMemorySourceRecord,
    vault: Seq<char>,
    memory: Seq<char>,
) -> Option<StateError> {
    if source.vault_id@ != vault || source.memory_id@ != memory {
        Some(StateError::InvalidInput("current-memory source scope is invalid"))
    } else if source.note_revision is Some && !source.note_revision->0.storable() {
        Some(unstorable())
    } else {
        None
    }
}

/// The first provenance row that cannot be stored, if any.
pub open spec fn sources_fault(
    sources: Seq<CurrentMemorySourceRecord>,
    vault: Seq<char>,
    memory: Seq<char>,
) -> Option<StateError>
    decreases sources.len(),
{
    if sources.len() == 0 {
        None
    } else {
        match sources_fault(sources.drop_last(), vault, memory) {
            Some(error) => Some(error),
            None => source_fault(sources.last(), vault, memory),
        }
    }
}

/// A fault of the first rows is a fault of all.
proof fn lemma_sources_fault(
    sources: Seq<CurrentMemorySourceRecord>,
    n: int,
    vault: Seq<char>,
    memory: Seq<char>,
)
    requires
        0 <= n <= sources.len(),
    ensures
        sources_fault(sources.take(n), vault, memory) is Some ==> sources_fault(
            sources,
            vault,
            memory,
        ) == sources_fault(sources.take(n), vault, memory),
    decreases sources.len(),
{
    if n < sources.len() {
        lemma_sources_fault(sources.drop_last(), n, vault, memory);
        assert(sources.drop_last().take(n) =~= sources.take(n));
    } else {
        assert(sources.take(n) =~= sources);
    }
}

/// Checks that provenance belongs to an item and fits its columns.
pub fn check_sources(vault: &Id, memory: &Id, sources: &[CurrentMemorySourceRecord]) -> (r: Result<
    (),
    StateError,
>)
    ensures
        r == checked(sources_fault(sources@, vault@, memory@)),
{
    let mut i: usize = 0;
    while i < sources.len()
        invariant
            i <= sources@.len(),
            sources_fault(sources@.take(i as int), vault@, memory@) is None,
        decreases sources@.len() - i,
    {
        proof {
            assert(sources@.take(i + 1).drop_last() =~= sources@.take(i as int));
            assert(sources@.take(i + 1).last() == sources@[i as int]);
            lemma_sources_fault(sources@, i + 1, vault@, memory@);
        }
        let source = &sources[i];
        if !source.vault_id.same(vault) || !source.memory_id.same(memory) {
            return Err(StateError::InvalidInput("current-memory source scope is invalid"));
        }
        match source.note_revision {
            Some(revision) => match revision.as_i64() {
                Ok(_) => {},
                Err(error) => return Err(StateError::InvalidDomain(error)),
            },
            None => {},
        }
        i += 1;
    }
    assert(sources@.take(i as int) =~= sources@);
    Ok(())
}

/// Checks that an item fits its columns.
pub fn check_item(memory: &CurrentMemoryRecord) -> (r: Result<(), StateError>)
    ensures
        r == checked(item_storage_fault(*memory)),
{
    match memory.revision.as_i64() {
        Ok(_) => {},
        Err(error) => return Err(StateError::InvalidDomain(error)),
    }
    match memory.canonical_revision {
        Some(revision) => match revision.as_i64() {
            Ok(_) => {},
            Err(error) => return Err(StateError::InvalidDomain(error)),
        },
        None => {},
    }
    if memory.recall_count > i64::MAX as u64 {
        return Err(StateError::InvalidInput("current-memory recall count is invalid"));
    }
    Ok(())
}

/// Why a surviving contribution cannot be stored, if it cannot.
pub open spec fn survivor_fault(bundle: CurrentMemoryBundle, vault: Seq<char>) -> Option<StateError> {
    match item_storage_fault(bundle.memory) {
        Some(error) => Some(error),
        None => sources_fault(bundle.sources@, vault, bundle.memory.id@),
    }
}

/// Items after surviving contributions are stored one after the other, and the
/// first error if one cannot be.
pub open spec fn survivors_put(
    items: Seq<StoredItem>,
    survivors: Seq<CurrentMemoryBundle>,
    vault: Seq<char>,
) -> Result<Seq<StoredItem>, StateError>
    decreases survivors.len(),
{
    if survivors.len() == 0 {
        Ok(items)
    } else {
        match survivors_put(items, survivors.drop_last(), vault) {
            Err(error) => Err(error),
            Ok(before) => match survivor_fault(survivors.last(), vault) {
                Some(error) => Err(error),
                None => Ok(put(before, stored(survivors.last()))),
            },
        }
    }
}

/// An error of the first contributions is an error of all.
proof fn lemma_survivors_put(
    items: Seq<StoredItem>,
    survivors: Seq<CurrentMemoryBundle>,
    n: int,
    vault: Seq<char>,
)
    requires
        0 <= n <= survivors.len(),
    ensures
        survivors_put(items, survivors.take(n), vault) is Err ==> survivors_put(
            items,
            survivors,
            vault,
        ) == survivors_put(items, survivors.take(n), vault),
    decreases survivors.len(),
{
    if n < survivors.len() {
        lemma_survivors_put(items, survivors.drop_last(), n, vault);
        assert(survivors.drop_last().take(n) =~= survivors.take(n));
    } else {
        assert(survivors.take(n) =~= survivors);
    }
}

/// Stores surviving contributions one after the other.
fn put_survivors(items: Vec<StoredItem>, survivors: Vec<CurrentMemoryBundle>, vault: &Id) -> (r: Result<
    Vec<StoredItem>,
    StateError,
>)
    ensures
        match survivors_put(items@, survivors@, vault@) {
            Err(error) => r == Err::<Vec<StoredItem>, StateError>(error),
            Ok(after) => r matches Ok(rows) && rows@ == after,
        },
{
    let ghost base = items@;
    let ghost all = survivors@;
    let mut kept = items;
    let mut rest = survivors;
    let n: usize = rest.len();
    let mut i: usize = 0;
    assert(rest@ =~= all.skip(0));
    while i < n
        invariant
            i <= n == all.len(),
            all == survivors@,
            base == items@,
            rest@ == all.skip(i as int),
            survivors_put(base, all.take(i as int), vault@) == Ok::<Seq<StoredItem>, StateError>(
                kept@,
            ),
        decreases n - i,
    {
        let bundle = rest.remove(0);
        proof {
            assert(bundle == all[i as int]);
            assert(all.take(i + 1).drop_last() =~= all.take(i as int));
            assert(all.take(i + 1).last() == bundle);
            lemma_survivors_put(base, all, i + 1, vault@);
        }
        match check_item(&bundle.memory) {
            Ok(()) => {},
            Err(error) => return Err(error),
        }
        match check_sources(vault, &bundle.memory.id, bundle.sources.as_slice()) {
            Ok(()) => {},
            Err(error) => return Err(error),
        }
        kept = put_item(kept, StoredItem { memory: bundle.memory, sources: bundle.sources });
        i += 1;
        assert(rest@ =~= all.skip(i as int));
    }
    assert(all.take(n as int) =~= all);
    Ok(kept)
}

/// Items and sets after one source rewrite, and the error if it cannot be.
pub open spec fn rewrite_applied(
    items: Seq<StoredItem>,
    sets: Seq<MemoryNoteSetRecord>,
    rewrite: FormalSourceRewrite,
    vault: Seq<char>,
) -> Result<(Seq<StoredItem>, Seq<MemoryNoteSetRecord>), StateError> {
    if let Some(error) = seen_revision_fault(
        set_revision_of(sets, vault, rewrite.set.id@),
        rewrite.expected_revision,
    ) {
        Err(error)
    } else if let Some(error) = set_storage_fault(rewrite.set) {
        Err(error)
    } else {
        match sets_rewritten(sets, rewrite.set, true) {
            None => Err(StateError::Conflict),
            Some(after_sets) => match survivors_put(
                without_set(items, vault, rewrite.set.id@),
                rewrite.items@,
                vault,
            ) {
                Err(error) => Err(error),
                Ok(after_items) => Ok((after_items, after_sets)),
            },
        }
    }
}

/// Items and sets after several source rewrites, one after the other.
pub open spec fn rewrites_applied(
    items: Seq<StoredItem>,
    sets: Seq<MemoryNoteSetRecord>,
    rewrites: Seq<FormalSourceRewrite>,
    vault: Seq<char>,
) -> Result<(Seq<StoredItem>, Seq<MemoryNoteSetRecord>), StateError>
    decreases rewrites.len(),
{
    if rewrites.len() == 0 {
        Ok((items, sets))
    } else {
        match rewrites_applied(items, sets, rewrites.drop_last(), vault) {
            Err(error) => Err(error),
            Ok((items, sets)) => rewrite_applied(items, sets, rewrites.last(), vault),
        }
    }
}

/// An error of the first rewrites is an error of all.
proof fn lemma_rewrites_applied(
    items: Seq<StoredItem>,
    sets: Seq<MemoryNoteSetRecord>,
    rewrites: Seq<FormalSourceRewrite>,
    n: int,
    vault: Seq<char>,
)
    requires
        0 <= n <= rewrites.len(),
    ensures
        rewrites_applied(items, sets, rewrites.take(n), vault) is Err ==> rewrites_applied(
            items,
            sets,
            rewrites,
            vault,
        ) == rewrites_applied(items, sets, rewrites.take(n), vault),
    decreases rewrites.len(),
{
    if n < rewrites.len() {
        lemma_rewrites_applied(items, sets, rewrites.drop_last(), n, vault);
        assert(rewrites.drop_last().take(n) =~= rewrites.take(n));
    } else {
        assert(rewrites.take(n) =~= rewrites);
    }
}

/// Items and sets.
pub struct SourceState {
    pub items: Vec<StoredItem>,
    pub sets: Vec<MemoryNoteSetRecord>,
}

/// Performs one source rewrite.
fn apply_rewrite(context: &VaultContext, state: SourceState, rewrite: FormalSourceRewrite) -> (r: Result<
    SourceState,
    StateError,
>)
    ensures
        match rewrite_applied(state.items@, state.sets@, rewrite, context.id@) {
            Err(error) => r == Err::<SourceState, StateError>(error),
            Ok((items, sets)) => r matches Ok(after) && after.items@ == items && after.sets@
                == sets,
        },
{
    let SourceState { items, sets } = state;
    match rewrite.expected_revision.as_i64() {
        Ok(_) => {},
        Err(error) => return Err(StateError::InvalidDomain(error)),
    }
    match get_note_set(context, sets.as_slice(), &rewrite.set.id) {
        Some(i) => {
            if sets[i].set_revision.value != rewrite.expected_revision.value {
                return Err(StateError::Conflict);
            }
        },
        None => return Err(StateError::Conflict),
    }
    let kept = drop_set_items(items, &context.id, &rewrite.set.id);
    let sets = match update_note_set(sets, rewrite.set, true) {
        Ok(sets) => sets,
        Err(error) => return Err(error),
    };
    match put_survivors(kept, rewrite.items, &context.id) {
        Ok(items) => Ok(SourceState { items, sets }),
        Err(error) => Err(error),
    }
}

/// Performs source rewrites one after the other.
fn apply_rewrites(
    context: &VaultContext,
    state: SourceState,
    rewrites: Vec<FormalSourceRewrite>,
) -> (r: Result<SourceState, StateError>)
    ensures
        match rewrites_applied(state.items@, state.sets@, rewrites@, context.id@) {
            Err(error) => r == Err::<SourceState, StateError>(error),
            Ok((items, sets)) => r matches Ok(after) && after.items@ == items && after.sets@
                == sets,
        },
{
    let ghost first = state;
    let ghost all = rewrites@;
    let mut now = state;
    let mut rest = rewrites;
    let n: usize = rest.len();
    let mut i: usize = 0;
    assert(rest@ =~= all.skip(0));
    while i < n
        invariant
            i <= n == all.len(),
            all == rewrites@,
            first == state,
            rest@ == all.skip(i as int),
            rewrites_applied(first.items@, first.sets@, all.take(i as int), context.id@) == Ok::<
                (Seq<StoredItem>, Seq<MemoryNoteSetRecord>),
                StateError,
            >((now.items@, now.sets@)),
        decreases n - i,
    {
        let rewrite = rest.remove(0);
        proof {
            assert(rewrite == all[i as int]);
            assert(all.take(i + 1).drop_last() =~= all.take(i as int));
            assert(all.take(i + 1).last() == rewrite);
            lemma_rewrites_applied(first.items@, first.sets@, all, i + 1, context.id@);
        }
        now = match apply_rewrite(context, now, rewrite) {
            Ok(next) => next,
            Err(error) => return Err(error),
        };
        i += 1;
        assert(rest@ =~= all.skip(i as int));
    }
    assert(all.take(n as int) =~= all);
    Ok(now)
}

/// Whether contents are those of the object with the given identity in a vault.
pub open spec fn contents_are(
    document: (CurrentMemoryRecord, Seq<FormalMemorySupport>),
    vault: Seq<char>,
    id: Seq<char>,
) -> bool {
    document.0.vault_id@ == vault && document.0.id@ == id
}

/// What formal objects hold.
pub open spec fn contents(documents: Seq<FormalMemoryDocument>) -> Seq<
    (CurrentMemoryRecord, Seq<FormalMemorySupport>),
> {
    documents.map_values(|doc: FormalMemoryDocument| (doc.memory, doc.supports@))
}

/// Formal objects after one is stored: the object of that identity keeps its
/// creation time. With `fresh` the new supports replace the stored ones, else
/// they are added to them.
pub open spec fn contents_put(
    documents: Seq<(CurrentMemoryRecord, Seq<FormalMemorySupport>)>,
    memory: CurrentMemoryRecord,
    supports: Seq<FormalMemorySupport>,
    fresh: bool,
) -> Seq<(CurrentMemoryRecord, Seq<FormalMemorySupport>)> {
    match first_index(
        documents,
        |document: (CurrentMemoryRecord, Seq<FormalMemorySupport>)|
            contents_are(document, memory.vault_id@, memory.id@),
    ) {
        Some(i) => documents.update(
            i,
            (
                CurrentMemoryRecord { created_at: documents[i].0.created_at, ..memory },
                if fresh {
                    supports
                } else {
                    documents[i].1 + supports
                },
            ),
        ),
        None => documents.push((memory, supports)),
    }
}

/// An object stands where its contents stand.
proof fn lemma_contents_index(documents: Seq<FormalMemoryDocument>, vault: Seq<char>, id: Seq<char>)
    ensures
        first_index(documents, |doc: FormalMemoryDocument| doc.is(vault, id)) == first_index(
            contents(documents),
            |document: (CurrentMemoryRecord, Seq<FormalMemorySupport>)|
                contents_are(document, vault, id),
        ),
    decreases documents.len(),
{
    if documents.len() > 0 {
        lemma_contents_index(documents.drop_last(), vault, id);
        assert(contents(documents).drop_last() =~= contents(documents.drop_last()));
    }
}

/// Stores a formal object.
fn put_document(documents: Vec<FormalMemoryDocument>, new: FormalMemoryDocument, fresh: bool) -> (r: Vec<
    FormalMemoryDocument,
>)
    ensures
        contents(r@) == contents_put(contents(documents@), new.memory, new.supports@, fresh),
{
    let ghost wanted = contents_put(contents(documents@), new.memory, new.supports@, fresh);
    proof {
        lemma_contents_index(documents@, new.memory.vault_id@, new.memory.id@);
    }
    let mut documents = documents;
    let at = {
        let vault = &new.memory.vault_id;
        let id = &new.memory.id;
        let accepts = |doc: &FormalMemoryDocument| -> (yes: bool)
            ensures
                yes == doc.is(vault@, id@),
            { doc.is_document(vault, id) };
        find(
            documents.as_slice(),
            accepts,
            Ghost(|doc: FormalMemoryDocument| doc.is(new.memory.vault_id@, new.memory.id@)),
        )
    };
    match at {
        Some(i) => {
            let created_at: i64 = documents[i].memory.created_at;
            let old = documents.remove(i);
            let memory = CurrentMemoryRecord { created_at, ..new.memory };
            let supports = if fresh {
                new.supports
            } else {
                let mut joined = old.supports;
                let mut tail = new.supports;
                joined.append(&mut tail);
                joined
            };
            documents.insert(i, FormalMemoryDocument { memory, supports });
        },
        None => {
            documents.push(new);
        },
    }
    assert(contents(documents@) =~= wanted);
    documents
}

/// Formal objects after several are stored one after the other, and the first
/// error if one cannot be.
pub open spec fn all_contents_put(
    documents: Seq<(CurrentMemoryRecord, Seq<FormalMemorySupport>)>,
    after: Seq<FormalMemoryDocument>,
) -> Result<Seq<(CurrentMemoryRecord, Seq<FormalMemorySupport>)>, StateError>
    decreases after.len(),
{
    if after.len() == 0 {
        Ok(documents)
    } else {
        match all_contents_put(documents, after.drop_last()) {
            Err(error) => Err(error),
            Ok(before) => match item_storage_fault(after.last().memory) {
                Some(error) => Err(error),
                None => Ok(
                    contents_put(before, after.last().memory, after.last().supports@, false),
                ),
            },
        }
    }
}

/// An error of the first objects is an error of all.
proof fn lemma_all_contents_put(
    documents: Seq<(CurrentMemoryRecord, Seq<FormalMemorySupport>)>,
    after: Seq<FormalMemoryDocument>,
    n: int,
)
    requires
        0 <= n <= after.len(),
    ensures
        all_contents_put(documents, after.take(n)) is Err ==> all_contents_put(documents, after)
            == all_contents_put(documents, after.take(n)),
    decreases after.len(),
{
    if n < after.len() {
        lemma_all_contents_put(documents, after.drop_last(), n);
        assert(after.drop_last().take(n) =~= after.take(n));
    } else {
        assert(after.take(n) =~= after);
    }
}

/// Stores formal objects one after the other.
fn put_documents(documents: Vec<FormalMemoryDocument>, after: Vec<FormalMemoryDocument>) -> (r: Result<
    Vec<FormalMemoryDocument>,
    StateError,
>)
    ensures
        match all_contents_put(contents(documents@), after@) {
            Err(error) => r == Err::<Vec<FormalMemoryDocument>, StateError>(error),
            Ok(wanted) => r matches Ok(rows) && contents(rows@) == wanted,
        },
{
    let ghost base = documents@;
    let ghost all = after@;
    let mut rows = documents;
    let mut rest = after;
    let n: usize = rest.len();
    let mut i: usize = 0;
    assert(rest@ =~= all.skip(0));
    while i < n
        invariant
            i <= n == all.len(),
            all == after@,
            base == documents@,
            rest@ == all.skip(i as int),
            all_contents_put(contents(base), all.take(i as int)) == Ok::<
                Seq<(CurrentMemoryRecord, Seq<FormalMemorySupport>)>,
                StateError,
            >(contents(rows@)),
        decreases n - i,
    {
        let doc = rest.remove(0);
        proof {
            assert(doc == all[i as int]);
            assert(all.take(i + 1).drop_last() =~= all.take(i as int));
            assert(all.take(i + 1).last() == doc);
            lemma_all_contents_put(contents(base), all, i + 1);
        }
        match check_item(&doc.memory) {
            Ok(()) => {},
            Err(error) => return Err(error),
        }
        rows = put_document(rows, doc, false);
        i += 1;
        assert(rest@ =~= all.skip(i as int));
    }
    assert(all.take(n as int) =~= all);
    Ok(rows)
}

/// Formal objects of a vault that an operation does not start from, and those
/// of other vaults.
pub open spec fn untouched(
    documents: Seq<FormalMemoryDocument>,
    before: Seq<FormalMemoryDocument>,
    vault: Seq<char>,
) -> Seq<FormalMemoryDocument> {
    documents.filter(
        |doc: FormalMemoryDocument|
            !(doc.memory.vault_id@ == vault && starts_from(before, doc.memory.id@)),
    )
}

/// Removes the formal objects that an operation starts from.
fn drop_before(
    documents: Vec<FormalMemoryDocument>,
    before: &[FormalMemoryDocument],
    vault: &Id,
) -> (r: Vec<FormalMemoryDocument>)
    ensures
        r@ == untouched(documents@, before@, vault@),
{
    let accepts = |doc: &FormalMemoryDocument| -> (yes: bool)
        ensures
            yes == !(doc.memory.vault_id@ == vault@ && starts_from(before@, doc.memory.id@)),
        { !(doc.memory.vault_id.same(vault) && is_starting_from(before, &doc.memory.id)) };
    keep(
        documents,
        accepts,
        Ghost(
            |doc: FormalMemoryDocument|
                !(doc.memory.vault_id@ == vault@ && starts_from(before@, doc.memory.id@)),
        ),
    )
}

/// The publication that a vault has in flight.
#[derive(Clone, Debug, PartialEq, Eq)]
pub struct OperationState {
    pub vault_id: Id,
    pub operation_id: String,
    pub committed: bool,
}

/// The publication that a vault has in flight, if it has one.
pub open spec fn in_flight(operations: Seq<OperationState>, vault: Seq<char>) -> Option<
    OperationState,
> {
    first_row(operations, flies_for(vault))
}

/// The rule that picks a vault's publication.
pub open spec fn flies_for(vault: Seq<char>) -> spec_fn(OperationState) -> bool {
    |row: OperationState| row.vault_id@ == vault
}

/// Finds the publication that a vault has in flight.
pub fn find_in_flight(context: &VaultContext, operations: &[OperationState]) -> (r: Option<usize>)
    ensures
        match r {
            Some(i) => i < operations@.len() && in_flight(operations@, context.id@) == Some(
                operations@[i as int],
            ),
            None => in_flight(operations@, context.id@) is None,
        },
{
    let accepts = |row: &OperationState| -> (yes: bool)
        ensures
            yes == (row.vault_id@ == context.id@),
        { row.vault_id.same(&context.id) };
    find(operations, accepts, Ghost(flies_for(context.id@)))
}

/// Whether the publication in flight was committed before an interruption.
pub fn formal_operation_committed(context: &VaultContext, operations: &[OperationState]) -> (r: bool)
    ensures
        r == (in_flight(operations@, context.id@) matches Some(row) && row.committed),
{
    match find_in_flight(context, operations) {
        Some(i) => operations[i].committed,
        None => false,
    }
}

/// A publication after one of a vault was committed: it stays stored.
pub open spec fn committed_as(row: OperationState, vault: Seq<char>, id: Seq<char>) -> OperationState {
    if row.vault_id@ == vault && row.operation_id@ == id {
        OperationState { committed: true, ..row }
    } else {
        row
    }
}

/// Publications after one of a vault was committed.
pub open spec fn operation_committed(
    operations: Seq<OperationState>,
    vault: Seq<char>,
    id: Seq<char>,
) -> Seq<OperationState> {
    operations.map_values(|row: OperationState| committed_as(row, vault, id))
}

fn commit_operation(operations: Vec<OperationState>, vault: &Id, id: &str) -> (r: Vec<OperationState>)
    ensures
        r@ == operation_committed(operations@, vault@, id@),
{
    let update = |row: OperationState| -> (next: OperationState)
        ensures
            next == committed_as(row, vault@, id@),
        {
            if row.vault_id.same(vault) && text_eq(row.operation_id.as_str(), id) {
                OperationState { committed: true, ..row }
            } else {
                row
            }
        };
    change(operations, update, Ghost(|row: OperationState| committed_as(row, vault@, id@)))
}

/// The publications in flight without a completed one.
pub fn finish_formal_operation(
    context: &VaultContext,
    operations: Vec<OperationState>,
    id: &str,
) -> (r: Vec<OperationState>)
    ensures
        r@ == operations@.filter(
            |row: OperationState| !(row.vault_id@ == context.id@ && row.operation_id@ == id@),
        ),
{
    let stays = |row: &OperationState| -> (yes: bool)
        ensures
            yes == !(row.vault_id@ == context.id@ && row.operation_id@ == id@),
        { !(row.vault_id.same(&context.id) && text_eq(row.operation_id.as_str(), id)) };
    keep(
        operations,
        stays,
        Ghost(|row: OperationState| !(row.vault_id@ == context.id@ && row.operation_id@ == id@)),
    )
}

/// Rows after a formal publication.
pub struct FormalPublication {
    pub operations: Vec<OperationState>,
    pub state: NoteMemoryState,
    pub documents: Vec<FormalMemoryDocument>,
}

/// Whether a proposal waits for a source that an operation rewrites.
pub open spec fn superseded(
    snapshot: MemoryNoteSetSnapshotRecord,
    rewrites: Seq<FormalSourceRewrite>,
    vault: Seq<char>,
) -> bool {
    some_row(
        rewrites,
        |rewrite: FormalSourceRewrite| snapshot.pending(vault, rewrite.set.source_file_id@),
    )
}

/// Sources that rewrites touch, in order.
fn rewritten_sources(rewrites: &[FormalSourceRewrite]) -> (r: Vec<Id>)
    ensures
        r@ == rewrites@.map_values(|rewrite: FormalSourceRewrite| rewrite.set.source_file_id),
{
    let mut sources: Vec<Id> = Vec::new();
    let mut i: usize = 0;
    while i < rewrites.len()
        invariant
            i <= rewrites@.len(),
            sources@ == rewrites@.take(i as int).map_values(
                |rewrite: FormalSourceRewrite| rewrite.set.source_file_id,
            ),
        decreases rewrites@.len() - i,
    {
        sources.push(rewrites[i].set.source_file_id.duplicate());
        i += 1;
        assert(sources@ =~= rewrites@.take(i as int).map_values(
            |rewrite: FormalSourceRewrite| rewrite.set.source_file_id,
        ));
    }
    assert(rewrites@.take(i as int) =~= rewrites@);
    sources
}

/// Whether a proposal waits for one of the rewritten sources.
fn is_superseded(
    snapshot: &MemoryNoteSetSnapshotRecord,
    sources: &[Id],
    vault: &Id,
    Ghost(rewrites): Ghost<Seq<FormalSourceRewrite>>,
) -> (r: bool)
    requires
        sources@ == rewrites.map_values(
            |rewrite: FormalSourceRewrite| rewrite.set.source_file_id,
        ),
    ensures
        r == superseded(*snapshot, rewrites, vault@),
{
    let accepts = |source: &Id| -> (yes: bool)
        ensures
            yes == snapshot.pending(vault@, source@),
        { snapshot.is_pending(vault, source) };
    let r = any(sources, accepts, Ghost(|source: Id| snapshot.pending(vault@, source@)));
    proof {
        let by_source = |source: Id| snapshot.pending(vault@, source@);
        let by_rewrite = |rewrite: FormalSourceRewrite|
            snapshot.pending(vault@, rewrite.set.source_file_id@);
        if some_row(sources@, by_source) {
            let k = choose|k: int| 0 <= k < sources@.len() && by_source(#[trigger] sources@[k]);
            assert(by_rewrite(rewrites[k]));
        }
        if some_row(rewrites, by_rewrite) {
            let k = choose|k: int| 0 <= k < rewrites.len() && by_rewrite(#[trigger] rewrites[k]);
            assert(by_source(sources@[k]));
        }
    }
    r
}

/// Replace the formal view after the canonical writes, in one step. The
/// operation must be the one that the vault has in flight; it becomes committed
/// and stays stored until it is finished. Whether a support is current is also
/// decided at every public read.
pub fn commit_formal_operation(
    context: &VaultContext,
    operations: Vec<OperationState>,
    state: NoteMemoryState,
    documents: Vec<FormalMemoryDocument>,
    op: FormalMemoryOperation,
    now: i64,
) -> (r: Result<FormalPublication, StateError>)
    ensures
        if !(in_flight(operations@, context.id@) matches Some(active) && active.operation_id@
            == op.id@) {
            r == Err::<FormalPublication, StateError>(StateError::Conflict)
        } else {
            match rewrites_applied(state.items@, state.sets@, op.source_rewrites@, context.id@) {
                Err(error) => r == Err::<FormalPublication, StateError>(error),
                Ok((items, sets)) => match all_contents_put(
                    contents(untouched(documents@, op.before@, context.id@)),
                    op.after@,
                ) {
                    Err(error) => r == Err::<FormalPublication, StateError>(error),
                    Ok(wanted) => {
                        &&& r matches Ok(after)
                        &&& after.operations@ == operation_committed(
                            operations@,
                            context.id@,
                            op.id@,
                        )
                        &&& after.state.items@ == items
                        &&& after.state.sets@ == sets
                        &&& contents(after.documents@) == wanted
                        &&& closed_where(
                            state.snapshots@,
                            after.state.snapshots@,
                            |p: MemoryNoteSetSnapshotRecord|
                                superseded(p, op.source_rewrites@, context.id@),
                            "rejected"@,
                            Some(now),
                        )
                    },
                },
            }
        },
{
    match find_in_flight(context, operations.as_slice()) {
        Some(i) => {
            if !text_eq(operations[i].operation_id.as_str(), op.id.as_str()) {
                return Err(StateError::Conflict);
            }
        },
        None => return Err(StateError::Conflict),
    }
    let FormalMemoryOperation { id, before, after, source_rewrites, forgotten } = op;
    let ghost rewrites = source_rewrites@;
    let sources = rewritten_sources(source_rewrites.as_slice());
    let NoteMemoryState { items, sets, snapshots } = state;
    let SourceState { items, sets } = match apply_rewrites(
        context,
        SourceState { items, sets },
        source_rewrites,
    ) {
        Ok(next) => next,
        Err(error) => return Err(error),
    };
    let kept = drop_before(documents, before.as_slice(), &context.id);
    let documents = match put_documents(kept, after) {
        Ok(documents) => documents,
        Err(error) => return Err(error),
    };
    let gone = |p: &MemoryNoteSetSnapshotRecord| -> (yes: bool)
        ensures
            yes == superseded(*p, op.source_rewrites@, context.id@),
        { is_superseded(p, sources.as_slice(), &context.id, Ghost(op.source_rewrites@)) };
    let snapshots = close_where(
        snapshots,
        gone,
        "rejected",
        Some(now),
        Ghost(
            |p: MemoryNoteSetSnapshotRecord| superseded(p, op.source_rewrites@, context.id@),
        ),
    );
    let operations = commit_operation(operations, &context.id, id.as_str());
    Ok(
        FormalPublication {
            operations,
            state: NoteMemoryState { items, sets, snapshots },
            documents,
        },
    )
}

/// Whether one of an object's supports belongs to another object.
pub open spec fn claimed_elsewhere(
    doc: FormalMemoryDocument,
    documents: Seq<FormalMemoryDocument>,
    vault: Seq<char>,
) -> bool {
    some_row(
        doc.supports@,
        |support: FormalMemorySupport|
            {
                let owner = first_row(
                    documents,
                    |other: FormalMemoryDocument| owns(other, vault, support.contribution_id@),
                );
                owner is Some && owner->0.memory.id@ != doc.memory.id@
            },
    )
}

/// Identities that a restored formal object takes: its own, and those of the
/// contributions that it stands for.
pub open spec fn restored_ids(doc: FormalMemoryDocument) -> Seq<Id> {
    seq![doc.memory.id] + doc.supports@.map_values(
        |support: FormalMemorySupport| support.contribution_id,
    )
}

fn list_restored_ids(doc: &FormalMemoryDocument) -> (r: Vec<Id>)
    ensures
        r@ == restored_ids(*doc),
{
    let name = |support: &FormalMemorySupport| -> (id: Id)
        ensures
            id == support.contribution_id,
        { support.contribution_id.duplicate() };
    let mut rest = each(
        doc.supports.as_slice(),
        name,
        Ghost(|support: FormalMemorySupport| support.contribution_id),
    );
    let mut ids: Vec<Id> = Vec::new();
    ids.push(doc.memory.id.duplicate());
    ids.append(&mut rest);
    assert(ids@ =~= restored_ids(*doc));
    ids
}

/// What the restore of a formal object leaves.
#[derive(Clone, Debug, PartialEq, Eq)]
pub struct RestoredDocument {
    pub documents: Vec<FormalMemoryDocument>,
    /// Identities that were ever given to formal objects of the vault.
    pub reserved: Vec<Id>,
}

/// Rebuild one canonical formal object without model work or source rebinding.
/// Its identity and those of its contributions are reserved, where they are not.
pub fn restore_formal_document(
    context: &VaultContext,
    documents: Vec<FormalMemoryDocument>,
    reserved: Vec<Id>,
    doc: FormalMemoryDocument,
) -> (r: Result<RestoredDocument, StateError>)
    ensures
        if !doc.in_scope(context.id@) {
            r == invalid::<RestoredDocument>("formal scope is invalid")
        } else if claimed_elsewhere(doc, documents@, context.id@) {
            r == Err::<RestoredDocument, StateError>(StateError::Conflict)
        } else {
            match item_storage_fault(doc.memory) {
                Some(error) => r == Err::<RestoredDocument, StateError>(error),
                None => {
                    &&& r matches Ok(after)
                    &&& contents(after.documents@) == contents_put(
                        contents(documents@),
                        doc.memory,
                        doc.supports@,
                        true,
                    )
                    &&& after.reserved@ == reserved_after(reserved@, restored_ids(doc))
                },
            }
        },
{
    if !doc.is_in_scope(&context.id) {
        return Err(StateError::InvalidInput("formal scope is invalid"));
    }
    let elsewhere = {
        let all = documents.as_slice();
        let own = &doc.memory.id;
        let accepts = |support: &FormalMemorySupport| -> (yes: bool)
            ensures
                yes == ({
                    let owner = first_row(
                        all@,
                        |other: FormalMemoryDocument|
                            owns(other, context.id@, support.contribution_id@),
                    );
                    owner is Some && owner->0.memory.id@ != own@
                }),
            {
                match contribution_owner(context, all, &support.contribution_id) {
                    Some(i) => !all[i].memory.id.same(own),
                    None => false,
                }
            };
        any(
            doc.supports.as_slice(),
            accepts,
            Ghost(
                |support: FormalMemorySupport|
                    {
                        let owner = first_row(
                            documents@,
                            |other: FormalMemoryDocument|
                                owns(other, context.id@, support.contribution_id@),
                        );
                        owner is Some && owner->0.memory.id@ != doc.memory.id@
                    },
            ),
        )
    };
    if elsewhere {
        return Err(StateError::Conflict);
    }
    match check_item(&doc.memory) {
        Ok(()) => {},
        Err(error) => return Err(error),
    }
    let ids = list_restored_ids(&doc);
    let reserved = reserve_missing(reserved, ids.as_slice());
    Ok(RestoredDocument { documents: put_document(documents, doc, true), reserved })
}

/// Keep source writers out of a prepared multi-source operation.
pub fn ensure_no_formal_source_rewrite(op: &Option<FormalMemoryOperation>, file_id: &Id) -> (r: Result<
    (),
    StateError,
>)
    ensures
        r == (if op is Some && some_row(
            op->0.source_rewrites@,
            |rewrite: FormalSourceRewrite| rewrite.set.source_file_id@ == file_id@,
        ) {
            Err::<(), StateError>(StateError::Conflict)
        } else {
            Ok(())
        }),
{
    match op {
        Some(op) => {
            let accepts = |rewrite: &FormalSourceRewrite| -> (yes: bool)
                ensures
                    yes == (rewrite.set.source_file_id@ == file_id@),
                { rewrite.set.source_file_id.same(file_id) };
            if any(
                op.source_rewrites.as_slice(),
                accepts,
                Ghost(
                    |rewrite: FormalSourceRewrite| rewrite.set.source_file_id@ == file_id@,
                ),
            ) {
                return Err(StateError::Conflict);
            }
            Ok(())
        },
        None => Ok(()),
    }
}

/// A committed publication stays in flight, known as committed, until it is
/// finished; then it is gone. Publications of other vaults are as they were.
pub proof fn law_committed_operation_waits_to_be_finished(
    operations: Seq<OperationState>,
    vault: Seq<char>,
    id: Seq<char>,
    other: Seq<char>,
)
    requires
        in_flight(operations, vault) matches Some(active) && active.operation_id@ == id,
        other != vault,
    ensures
        ({
            let after = operation_committed(operations, vault, id);
            let rest = after.filter(
                |row: OperationState| !(row.vault_id@ == vault && row.operation_id@ == id),
            );
            &&& in_flight(after, vault) matches Some(active) && active.committed
                && active.operation_id@ == id
            &&& in_flight(after, other) == in_flight(operations, other)
            &&& !some_row(
                rest,
                |row: OperationState| row.vault_id@ == vault && row.operation_id@ == id,
            )
        }),
{
    let after = operation_committed(operations, vault, id);
    lemma_commit_keeps_places(operations, vault, id, vault);
    lemma_commit_keeps_places(operations, vault, id, other);
    lemma_first_index(operations, flies_for(vault));
    lemma_first_index(operations, flies_for(other));
    let done = |row: OperationState| row.vault_id@ == vault && row.operation_id@ == id;
    let open = |row: OperationState| !(row.vault_id@ == vault && row.operation_id@ == id);
    lemma_filter_drops(after, done);
    assert(open =~= |row: OperationState| !done(row));
}

/// A commit leaves every publication in its place.
proof fn lemma_commit_keeps_places(
    operations: Seq<OperationState>,
    vault: Seq<char>,
    id: Seq<char>,
    wanted: Seq<char>,
)
    ensures
        first_index(operation_committed(operations, vault, id), flies_for(wanted))
            == first_index(operations, flies_for(wanted)),
    decreases operations.len(),
{
    if operations.len() > 0 {
        let after = operation_committed(operations, vault, id);
        assert(after.drop_last() =~= operation_committed(operations.drop_last(), vault, id));
        lemma_commit_keeps_places(operations.drop_last(), vault, id, wanted);
    }
}

/// A restored object is read back with exactly its supports, and no other
/// object changes.
pub proof fn law_restored_object_is_read_back(
    before: Seq<FormalMemoryDocument>,
    after: Seq<FormalMemoryDocument>,
    doc: FormalMemoryDocument,
    other: Seq<char>,
)
    requires
        contents(after) == contents_put(contents(before), doc.memory, doc.supports@, true),
        other != doc.memory.id@,
    ensures
        ({
            let vault = doc.memory.vault_id@;
            let found = first_row(
                contents(after),
                |held: (CurrentMemoryRecord, Seq<FormalMemorySupport>)|
                    contents_are(held, vault, doc.memory.id@),
            );
            &&& found is Some
            &&& (found->0).0 == (CurrentMemoryRecord {
                created_at: (found->0).0.created_at,
                ..doc.memory
            })
            &&& (found->0).1 == doc.supports@
            &&& first_row(
                contents(after),
                |held: (CurrentMemoryRecord, Seq<FormalMemorySupport>)|
                    contents_are(held, vault, other),
            ) == first_row(
                contents(before),
                |held: (CurrentMemoryRecord, Seq<FormalMemorySupport>)|
                    contents_are(held, vault, other),
            )
        }),
{
    let vault = doc.memory.vault_id@;
    let own = |held: (CurrentMemoryRecord, Seq<FormalMemorySupport>)|
        contents_are(held, vault, doc.memory.id@);
    let foreign = |held: (CurrentMemoryRecord, Seq<FormalMemorySupport>)|
        contents_are(held, vault, other);
    let rows = contents(before);
    lemma_first_index(rows, own);
    match first_index(rows, own) {
        Some(i) => {
            let row = (
                CurrentMemoryRecord { created_at: rows[i].0.created_at, ..doc.memory },
                doc.supports@,
            );
            lemma_put_is_found(rows, own, row);
            lemma_update_keeps_others(rows, i, row, foreign);
        },
        None => {
            let row = (doc.memory, doc.supports@);
            lemma_put_is_found(rows, own, row);
            lemma_push_keeps_others(rows, row, foreign);
        },
    }
}

/// An operation that was committed replaced the objects that it started from:
/// those that it does not publish again are gone.
pub proof fn law_commit_retires_old_objects(
    documents: Seq<FormalMemoryDocument>,
    before: Seq<FormalMemoryDocument>,
    vault: Seq<char>,
    i: int,
)
    requires
        0 <= i < untouched(documents, before, vault).len(),
        untouched(documents, before, vault)[i].memory.vault_id@ == vault,
    ensures
        !starts_from(before, untouched(documents, before, vault)[i].memory.id@),
    decreases documents.len(),
{
    reveal(Seq::filter);
    let rule = |doc: FormalMemoryDocument|
        !(doc.memory.vault_id@ == vault && starts_from(before, doc.memory.id@));
    if documents.len() > 0 {
        let shorter = untouched(documents.drop_last(), before, vault);
        if i < shorter.len() {
            assert(untouched(documents, before, vault)[i] == shorter[i]);
            law_commit_retires_old_objects(documents.drop_last(), before, vault, i);
        } else {
            assert(untouched(documents, before, vault)[i] == documents.last());
            assert(rule(documents.last()));
        }
    }
}

} // verus!
