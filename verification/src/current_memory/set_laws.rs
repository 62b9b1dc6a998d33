//! What publishing, restoring and rewriting the memory set of a note does to the
//! stored sets, items and proposals, and what makes a set current.

use vstd::prelude::*;

use crate::current_memory::note_sets::{
    delete_note_item_and_pause, delete_note_set_projection, get_note_set, get_note_set_by_source,
    mark_recalled, move_note_set_source, prepare_note_set_snapshot, publish_note_set, put_all,
    reject_note_set_snapshot, restore_note_set_projection, resume_note_extraction, sets_rewritten,
    without_set, NoteMemoryState, RewrittenSet,
};
use crate::current_memory::publish::{put, stored};
use crate::current_memory::reads::{
    canonical_current, is_canonical, is_prepared, is_source, source_current,
};
use crate::current_memory::{
    CurrentMemoryBundle, CurrentMemoryOwnership, CurrentMemoryRecord, MemoryNoteSetRecord,
    MemoryNoteSetSnapshotRecord, StoredItem,
};
use crate::domain::{Id, Revision, VaultContext};
use crate::error::StateError;
use crate::files::FileRecord;
use crate::rows::laws::lemma_kept;
use crate::rows::{first_index, lemma_first_index};

verus! {

/// Whether the live source of a set has the content that the set was made from.
pub open spec fn source_is_unchanged(set: MemoryNoteSetRecord, files: Seq<FileRecord>) -> bool {
    exists|f: int|
        {
            &&& 0 <= f < files.len()
            &&& (#[trigger] files[f]).vault_id.text@ == set.vault_id.text@
            &&& files[f].id.text@ == set.source_file_id.text@
            &&& files[f].deleted_at is None
            &&& files[f].content_hash is Some
            &&& files[f].content_hash->0@ == set.source_content_hash@
        }
}

/// Whether the canonical file of a set lives at the path and revision that the
/// set names.
pub open spec fn canonical_is_in_place(set: MemoryNoteSetRecord, files: Seq<FileRecord>) -> bool {
    exists|f: int|
        {
            &&& 0 <= f < files.len()
            &&& (#[trigger] files[f]).vault_id.text@ == set.vault_id.text@
            &&& files[f].id.text@ == set.canonical_file_id.text@
            &&& files[f].path.text@ == set.canonical_path.text@
            &&& files[f].current_revision.value == set.canonical_revision.value
            &&& files[f].deleted_at is None
        }
}

/// A set is current exactly where its live source still has the content that it
/// was made from and its canonical file is in place.
pub proof fn law_sets_are_current_with_their_source(
    set: &MemoryNoteSetRecord,
    files: &[FileRecord],
    r: bool,
)
    requires
        call_ensures(MemoryNoteSetRecord::is_current, (set, files), r),
    ensures
        r <==> source_is_unchanged(*set, files@) && canonical_is_in_place(*set, files@),
{
    lemma_set_current(*set, files@);
}

/// What makes a set current, row by row.
pub proof fn lemma_set_current(set: MemoryNoteSetRecord, files: Seq<FileRecord>)
    ensures
        set.current(files) <==> source_is_unchanged(set, files) && canonical_is_in_place(
            set,
            files,
        ),
{
    let source = |file: FileRecord|
        is_source(
            file,
            set.vault_id@,
            set.source_file_id@,
            Some(set.source_content_hash@),
        );
    let canonical = |file: FileRecord|
        is_canonical(
            file,
            set.vault_id@,
            set.canonical_file_id@,
            set.canonical_path@,
            set.canonical_revision,
        );
    if source_is_unchanged(set, files) {
        let f = choose|f: int|
            {
                &&& 0 <= f < files.len()
                &&& (#[trigger] files[f]).vault_id.text@ == set.vault_id.text@
                &&& files[f].id.text@ == set.source_file_id.text@
                &&& files[f].deleted_at is None
                &&& files[f].content_hash is Some
                &&& files[f].content_hash->0@ == set.source_content_hash@
            };
        assert(source(files[f]));
    }
    if canonical_is_in_place(set, files) {
        let f = choose|f: int|
            {
                &&& 0 <= f < files.len()
                &&& (#[trigger] files[f]).vault_id.text@ == set.vault_id.text@
                &&& files[f].id.text@ == set.canonical_file_id.text@
                &&& files[f].path.text@ == set.canonical_path.text@
                &&& files[f].current_revision.value == set.canonical_revision.value
                &&& files[f].deleted_at is None
            };
        assert(canonical(files[f]));
    }
    if source_current(
        files,
        set.vault_id@,
        set.source_file_id@,
        Some(set.source_content_hash@),
    ) {
        let f = choose|f: int| 0 <= f < files.len() && source(#[trigger] files[f]);
        assert(files[f].vault_id.text@ == set.vault_id.text@);
    }
    if canonical_current(
        files,
        set.vault_id@,
        set.canonical_file_id@,
        set.canonical_path@,
        set.canonical_revision,
    ) {
        let f = choose|f: int| 0 <= f < files.len() && canonical(#[trigger] files[f]);
        assert(files[f].vault_id.text@ == set.vault_id.text@);
    }
}

/// Whether a stored set holds everything that a given set says; only the time of
/// its creation may be an earlier one.
pub open spec fn set_holds(row: MemoryNoteSetRecord, set: MemoryNoteSetRecord) -> bool {
    &&& row.id.text@ == set.id.text@
    &&& row.vault_id.text@ == set.vault_id.text@
    &&& row.source_file_id.text@ == set.source_file_id.text@
    &&& row.source_path == set.source_path
    &&& row.source_content_hash == set.source_content_hash
    &&& row.source_revision == set.source_revision
    &&& row.set_revision == set.set_revision
    &&& row.extraction_paused == set.extraction_paused
    &&& row.canonical_file_id == set.canonical_file_id
    &&& row.canonical_path == set.canonical_path
    &&& row.canonical_revision == set.canonical_revision
    &&& row.profile_hash == set.profile_hash
    &&& row.prompt_version == set.prompt_version
    &&& row.provider_id == set.provider_id
    &&& row.model_id == set.model_id
    &&& row.updated_at == set.updated_at
}

/// Whether a stored item holds everything that a bundle says; only the time of
/// its creation may be an earlier one.
pub open spec fn item_holds(item: StoredItem, bundle: CurrentMemoryBundle) -> bool {
    &&& item.sources == bundle.sources
    &&& item.memory.id.text@ == bundle.memory.id.text@
    &&& item.memory.vault_id.text@ == bundle.memory.vault_id.text@
    &&& item.memory.ownership == bundle.memory.ownership
    &&& item.memory.note_set_id == bundle.memory.note_set_id
    &&& item.memory.ordinal == bundle.memory.ordinal
    &&& item.memory.kind == bundle.memory.kind
    &&& item.memory.content == bundle.memory.content
    &&& item.memory.normalized_content == bundle.memory.normalized_content
    &&& item.memory.content_hash == bundle.memory.content_hash
    &&& item.memory.importance == bundle.memory.importance
    &&& item.memory.confidence == bundle.memory.confidence
    &&& item.memory.origin == bundle.memory.origin
    &&& item.memory.revision == bundle.memory.revision
    &&& item.memory.canonical_file_id == bundle.memory.canonical_file_id
    &&& item.memory.canonical_path == bundle.memory.canonical_path
    &&& item.memory.canonical_revision == bundle.memory.canonical_revision
    &&& item.memory.valid_from == bundle.memory.valid_from
    &&& item.memory.valid_to == bundle.memory.valid_to
    &&& item.memory.tags == bundle.memory.tags
    &&& item.memory.entities == bundle.memory.entities
    &&& item.memory.metadata == bundle.memory.metadata
    &&& item.memory.updated_at == bundle.memory.updated_at
    &&& item.memory.last_recalled_at == bundle.memory.last_recalled_at
    &&& item.memory.recall_count == bundle.memory.recall_count
}

/// Whether two bundles have one identity in one vault.
pub open spec fn same_identity(a: CurrentMemoryRecord, b: CurrentMemoryRecord) -> bool {
    a.vault_id.text@ == b.vault_id.text@ && a.id.text@ == b.id.text@
}

/// Whether no two bundles have one identity.
pub open spec fn distinct_bundles(bundles: Seq<CurrentMemoryBundle>) -> bool {
    forall|i: int, j: int|
        0 <= i < j < bundles.len() ==> !same_identity(
            (#[trigger] bundles[i]).memory,
            (#[trigger] bundles[j]).memory,
        )
}

/// One item is stored as it is given, in the place of what had its identity; all
/// others stay where they are.
pub proof fn lemma_put(items: Seq<StoredItem>, bundle: CurrentMemoryBundle)
    ensures
        ({
            let after = put(items, stored(bundle));
            exists|at: int|
                {
                    &&& 0 <= at < after.len()
                    &&& item_holds(#[trigger] after[at], bundle)
                    &&& at < items.len() ==> same_identity(items[at].memory, bundle.memory)
                        && after.len() == items.len() && after[at].memory.created_at
                        == items[at].memory.created_at
                    &&& at >= items.len() ==> after.len() == items.len() + 1
                        && after[at].memory.created_at == bundle.memory.created_at && forall|k: int|
                        0 <= k < items.len() ==> !same_identity(
                            (#[trigger] items[k]).memory,
                            bundle.memory,
                        )
                    &&& forall|k: int| 0 <= k < items.len() && k != at ==> #[trigger] after[k] == items[k]
                }
        }),
{
    let new = stored(bundle);
    let own = |item: StoredItem| item.is(new.memory.vault_id@, new.memory.id@);
    lemma_first_index(items, own);
    let after = put(items, new);
    let at = match first_index(items, own) {
        Some(i) => i,
        None => items.len() as int,
    };
    assert(item_holds(after[at], bundle));
}

/// Bundles of distinct identities are all stored as they are given; an item with
/// none of their identities stays where it is, and nothing else is stored.
pub proof fn lemma_put_all(items: Seq<StoredItem>, new: Seq<CurrentMemoryBundle>)
    requires
        distinct_bundles(new),
    ensures
        ({
            let after = put_all(items, new);
            &&& items.len() <= after.len()
            &&& forall|k: int|
                0 <= k < new.len() ==> exists|i: int|
                    0 <= i < after.len() && item_holds(#[trigger] after[i], #[trigger] new[k])
            &&& forall|i: int|
                0 <= i < after.len() ==> (i < items.len() && #[trigger] after[i] == items[i]) || (
                exists|k: int| 0 <= k < new.len() && item_holds(after[i], #[trigger] new[k]))
            &&& forall|i: int|
                0 <= i < items.len() && (forall|k: int|
                    0 <= k < new.len() ==> !same_identity(
                        items[i].memory,
                        (#[trigger] new[k]).memory,
                    )) ==> #[trigger] after[i] == items[i]
        }),
    decreases new.len(),
{
    if new.len() > 0 {
        let fewer = new.drop_last();
        let last = new.last();
        assert forall|i: int, j: int| 0 <= i < j < fewer.len() implies !same_identity(
            (#[trigger] fewer[i]).memory,
            (#[trigger] fewer[j]).memory,
        ) by {
            assert(fewer[i] == new[i] && fewer[j] == new[j]);
        }
        lemma_put_all(items, fewer);
        let before = put_all(items, fewer);
        let after = put_all(items, new);
        lemma_put(before, last);
        let at = choose|at: int|
            {
                &&& 0 <= at < after.len()
                &&& item_holds(#[trigger] after[at], last)
                &&& at < before.len() ==> same_identity(before[at].memory, last.memory)
                    && after.len() == before.len() && after[at].memory.created_at
                    == before[at].memory.created_at
                &&& at >= before.len() ==> after.len() == before.len() + 1
                    && after[at].memory.created_at == last.memory.created_at && forall|k: int|
                    0 <= k < before.len() ==> !same_identity(
                        (#[trigger] before[k]).memory,
                        last.memory,
                    )
                &&& forall|k: int|
                    0 <= k < before.len() && k != at ==> #[trigger] after[k] == before[k]
            };
        assert(new[new.len() - 1] == last);
        assert forall|k: int| 0 <= k < new.len() implies exists|i: int|
            0 <= i < after.len() && item_holds(#[trigger] after[i], #[trigger] new[k]) by {
            if k == new.len() - 1 {
                assert(item_holds(after[at], new[k]));
            } else {
                assert(fewer[k] == new[k]);
                let i = choose|i: int|
                    0 <= i < before.len() && item_holds(#[trigger] before[i], fewer[k]);
                assert(!same_identity(new[k].memory, new[new.len() - 1].memory));
                assert(after[i] == before[i]);
            }
        }
        assert forall|i: int| 0 <= i < after.len() implies (i < items.len() && #[trigger] after[i]
            == items[i]) || (exists|k: int|
            0 <= k < new.len() && item_holds(after[i], #[trigger] new[k])) by {
            if i == at {
                assert(item_holds(after[i], new[new.len() - 1]));
            } else {
                assert(after[i] == before[i]);
                if !(i < items.len() && before[i] == items[i]) {
                    let k = choose|k: int|
                        0 <= k < fewer.len() && item_holds(before[i], #[trigger] fewer[k]);
                    assert(fewer[k] == new[k]);
                }
            }
        }
        assert forall|i: int|
            0 <= i < items.len() && (forall|k: int|
                0 <= k < new.len() ==> !same_identity(
                    items[i].memory,
                    (#[trigger] new[k]).memory,
                )) implies #[trigger] after[i] == items[i] by {
            assert forall|k: int| 0 <= k < fewer.len() implies !same_identity(
                items[i].memory,
                (#[trigger] fewer[k]).memory,
            ) by {
                assert(fewer[k] == new[k]);
            }
            assert(before[i] == items[i]);
            assert(!same_identity(items[i].memory, new[new.len() - 1].memory));
        }
    }
}

proof fn lemma_rewritten(sets: Seq<MemoryNoteSetRecord>, new: MemoryNoteSetRecord, compare: bool)
    requires
        sets_rewritten(sets, new, compare) is Some,
    ensures
        ({
            let after = sets_rewritten(sets, new, compare)->0;
            &&& after.len() == sets.len()
            &&& exists|at: int|
                {
                    &&& 0 <= at < sets.len()
                    &&& sets[at].id.text@ == new.id.text@
                    &&& sets[at].vault_id.text@ == new.vault_id.text@
                    &&& compare ==> sets[at].set_revision.value + 1 == new.set_revision.value
                    &&& (sets[at].source_file_id.text@ == new.source_file_id.text@) ==> set_holds(
                        #[trigger] after[at],
                        new,
                    )
                    &&& after[at].source_file_id == sets[at].source_file_id
                    &&& after[at].created_at == sets[at].created_at
                    &&& after[at].source_content_hash == new.source_content_hash
                    &&& after[at].source_revision == new.source_revision
                    &&& after[at].set_revision == new.set_revision
                    &&& after[at].extraction_paused == new.extraction_paused
                    &&& after[at].source_path == new.source_path
                    &&& after[at].canonical_file_id == new.canonical_file_id
                    &&& after[at].canonical_path == new.canonical_path
                    &&& after[at].canonical_revision == new.canonical_revision
                    &&& forall|k: int|
                        0 <= k < sets.len() && k != at ==> #[trigger] after[k] == sets[k]
                }
        }),
{
    let rule = |old: MemoryNoteSetRecord|
        crate::current_memory::note_sets::precedes(old, new, compare);
    lemma_first_index(sets, rule);
    let at = first_index(sets, rule)->0;
    let after = sets_rewritten(sets, new, compare)->0;
    assert(after[at].set_revision == new.set_revision);
}

/// An accepted publication stores the set as it is given: it is the set of its
/// source, it stands at the revision just behind the stored one, and it is
/// current for the files, so that what is published is readable at once.
pub proof fn law_published_set_is_current(
    context: &VaultContext,
    state: NoteMemoryState,
    files: &[FileRecord],
    snapshot_id: &Id,
    set: MemoryNoteSetRecord,
    items: Vec<CurrentMemoryBundle>,
    now: i64,
    r: Result<NoteMemoryState, StateError>,
)
    requires
        call_ensures(
            publish_note_set,
            (context, state, files, snapshot_id, set, items, now),
            r,
        ),
        forall|i: int, j: int|
            0 <= i < j < state.sets@.len() ==> !((#[trigger] state.sets@[i]).vault_id.text@ == (
            #[trigger] state.sets@[j]).vault_id.text@ && state.sets@[i].id.text@
                == state.sets@[j].id.text@),
        forall|i: int|
            0 <= i < state.sets@.len() && (#[trigger] state.sets@[i]).vault_id.text@
                == context.id.text@ && state.sets@[i].id.text@ == set.id.text@
                ==> state.sets@[i].source_file_id.text@ == set.source_file_id.text@,
    ensures
        r matches Ok(after) ==> {
            &&& set.vault_id.text@ == context.id.text@
            &&& source_is_unchanged(set, files@)
            &&& canonical_is_in_place(set, files@)
            &&& exists|at: int|
                {
                    &&& 0 <= at < after.sets@.len()
                    &&& set_holds(#[trigger] after.sets@[at], set)
                    &&& source_is_unchanged(after.sets@[at], files@)
                    &&& canonical_is_in_place(after.sets@[at], files@)
                    &&& at < state.sets@.len() ==> state.sets@[at].set_revision.value + 1
                        == set.set_revision.value && state.sets@[at].created_at
                        == after.sets@[at].created_at && after.sets@.len() == state.sets@.len()
                    &&& at >= state.sets@.len() ==> after.sets@[at] == set && after.sets@.len()
                        == state.sets@.len() + 1
                    &&& forall|k: int|
                        0 <= k < state.sets@.len() && k != at ==> #[trigger] after.sets@[k]
                            == state.sets@[k]
                }
        },
{
    if let Ok(after) = r {
        lemma_set_current(set, files@);
        let of_source = |old: MemoryNoteSetRecord|
            old.of_source(context.id@, set.source_file_id@);
        lemma_first_index(state.sets@, of_source);
        if first_index(state.sets@, of_source) is Some {
            lemma_rewritten(state.sets@, set, true);
            let at = choose|at: int|
                {
                    &&& 0 <= at < state.sets@.len()
                    &&& state.sets@[at].id.text@ == set.id.text@
                    &&& state.sets@[at].vault_id.text@ == set.vault_id.text@
                    &&& state.sets@[at].set_revision.value + 1 == set.set_revision.value
                    &&& (state.sets@[at].source_file_id.text@ == set.source_file_id.text@)
                        ==> set_holds(#[trigger] after.sets@[at], set)
                    &&& after.sets@[at].created_at == state.sets@[at].created_at
                    &&& forall|k: int|
                        0 <= k < state.sets@.len() && k != at ==> #[trigger] after.sets@[k]
                            == state.sets@[k]
                };
            assert(set_holds(after.sets@[at], set));
            lemma_same_currency(after.sets@[at], set, files@);
        } else {
            let at = state.sets@.len() as int;
            assert(set_holds(after.sets@[at], set));
        }
    }
}

/// A set that holds what another says is as current.
proof fn lemma_same_currency(row: MemoryNoteSetRecord, set: MemoryNoteSetRecord, files: Seq<FileRecord>)
    requires
        set_holds(row, set),
    ensures
        source_is_unchanged(set, files) ==> source_is_unchanged(row, files),
        canonical_is_in_place(set, files) ==> canonical_is_in_place(row, files),
{
    if source_is_unchanged(set, files) {
        let f = choose|f: int|
            {
                &&& 0 <= f < files.len()
                &&& (#[trigger] files[f]).vault_id.text@ == set.vault_id.text@
                &&& files[f].id.text@ == set.source_file_id.text@
                &&& files[f].deleted_at is None
                &&& files[f].content_hash is Some
                &&& files[f].content_hash->0@ == set.source_content_hash@
            };
        assert(files[f].vault_id.text@ == row.vault_id.text@);
    }
    if canonical_is_in_place(set, files) {
        let f = choose|f: int|
            {
                &&& 0 <= f < files.len()
                &&& (#[trigger] files[f]).vault_id.text@ == set.vault_id.text@
                &&& files[f].id.text@ == set.canonical_file_id.text@
                &&& files[f].path.text@ == set.canonical_path.text@
                &&& files[f].current_revision.value == set.canonical_revision.value
                &&& files[f].deleted_at is None
            };
        assert(files[f].vault_id.text@ == row.vault_id.text@);
    }
}

/// An accepted publication stores every item as it is given. What the set held
/// before and is not published again is gone; items of other sets and explicit
/// items stay as they are, and nothing else is stored.
pub proof fn law_publication_stores_every_item(
    context: &VaultContext,
    state: NoteMemoryState,
    files: &[FileRecord],
    snapshot_id: &Id,
    set: MemoryNoteSetRecord,
    items: Vec<CurrentMemoryBundle>,
    now: i64,
    r: Result<NoteMemoryState, StateError>,
)
    requires
        call_ensures(
            publish_note_set,
            (context, state, files, snapshot_id, set, items, now),
            r,
        ),
        distinct_bundles(items@),
    ensures
        r matches Ok(after) ==> {
            &&& forall|k: int|
                0 <= k < items@.len() ==> {
                    &&& (#[trigger] items@[k]).memory.vault_id.text@ == context.id.text@
                    &&& items@[k].memory.ownership == CurrentMemoryOwnership::NoteDerived
                    &&& items@[k].memory.note_set_id is Some
                    &&& items@[k].memory.note_set_id->0.text@ == set.id.text@
                }
            &&& forall|k: int|
                0 <= k < items@.len() ==> exists|i: int|
                    0 <= i < after.items@.len() && item_holds(
                        #[trigger] after.items@[i],
                        #[trigger] items@[k],
                    )
            &&& forall|i: int|
                0 <= i < after.items@.len() ==> state.items@.contains(#[trigger] after.items@[i])
                    || exists|k: int|
                    0 <= k < items@.len() && item_holds(after.items@[i], #[trigger] items@[k])
            &&& (exists|s: int|
                0 <= s < state.sets@.len() && (#[trigger] state.sets@[s]).vault_id.text@
                    == context.id.text@ && state.sets@[s].source_file_id.text@
                    == set.source_file_id.text@) ==> forall|i: int|
                0 <= i < after.items@.len() && (
                #[trigger] after.items@[i]).memory.vault_id.text@ == context.id.text@
                    && after.items@[i].memory.note_set_id is Some
                    && after.items@[i].memory.note_set_id->0.text@ == set.id.text@ ==> exists|k: int|
                    0 <= k < items@.len() && item_holds(after.items@[i], #[trigger] items@[k])
            &&& forall|i: int|
                0 <= i < state.items@.len() && !((
                #[trigger] state.items@[i]).memory.vault_id.text@ == context.id.text@
                    && state.items@[i].memory.note_set_id is Some
                    && state.items@[i].memory.note_set_id->0.text@ == set.id.text@) && (forall|
                    k: int,
                |
                    0 <= k < items@.len() ==> !same_identity(
                        state.items@[i].memory,
                        (#[trigger] items@[k]).memory,
                    )) ==> after.items@.contains(state.items@[i])
        },
{
    if let Ok(after) = r {
        lemma_items_accepted(items@, context.id@, set.id@, false);
        let of_source = |old: MemoryNoteSetRecord|
            old.of_source(context.id@, set.source_file_id@);
        lemma_first_index(state.sets@, of_source);
        let kept = if first_index(state.sets@, of_source) is Some {
            without_set(state.items@, context.id@, set.id@)
        } else {
            state.items@
        };
        lemma_replaced_items(state.items@, kept, context.id@, set.id@, items@);
    }
}

/// What storing the items of a set over those that were kept leaves.
proof fn lemma_replaced_items(
    before: Seq<StoredItem>,
    kept: Seq<StoredItem>,
    vault: Seq<char>,
    set: Seq<char>,
    items: Seq<CurrentMemoryBundle>,
)
    requires
        distinct_bundles(items),
        kept == before || kept == without_set(before, vault, set),
    ensures
        ({
            let after = put_all(kept, items);
            &&& forall|k: int|
                0 <= k < items.len() ==> exists|i: int|
                    0 <= i < after.len() && item_holds(#[trigger] after[i], #[trigger] items[k])
            &&& forall|i: int|
                0 <= i < after.len() ==> before.contains(#[trigger] after[i]) || exists|k: int|
                    0 <= k < items.len() && item_holds(after[i], #[trigger] items[k])
            &&& kept == without_set(before, vault, set) ==> forall|i: int|
                0 <= i < after.len() && (#[trigger] after[i]).memory.vault_id.text@ == vault
                    && after[i].memory.note_set_id is Some && after[i].memory.note_set_id->0.text@
                    == set ==> exists|k: int|
                    0 <= k < items.len() && item_holds(after[i], #[trigger] items[k])
            &&& forall|i: int|
                0 <= i < before.len() && !((#[trigger] before[i]).memory.vault_id.text@ == vault
                    && before[i].memory.note_set_id is Some && before[i].memory.note_set_id->0.text@
                    == set) && (forall|k: int|
                    0 <= k < items.len() ==> !same_identity(
                        before[i].memory,
                        (#[trigger] items[k]).memory,
                    )) ==> after.contains(before[i])
        }),
{
    let after = put_all(kept, items);
    let rule = |item: StoredItem| !item.in_set(vault, set);
    lemma_kept(before, rule);
    lemma_put_all(kept, items);
    assert forall|i: int| 0 <= i < after.len() implies before.contains(#[trigger] after[i])
        || exists|k: int| 0 <= k < items.len() && item_holds(after[i], #[trigger] items[k]) by {
        if i < kept.len() && after[i] == kept[i] {
            assert(kept.contains(kept[i]));
        }
    }
    if kept == without_set(before, vault, set) {
        assert forall|i: int|
            0 <= i < after.len() && (#[trigger] after[i]).memory.vault_id.text@ == vault
                && after[i].memory.note_set_id is Some && after[i].memory.note_set_id->0.text@
                == set implies exists|k: int|
            0 <= k < items.len() && item_holds(after[i], #[trigger] items[k]) by {
            if i < kept.len() && after[i] == kept[i] {
                assert(kept.contains(kept[i]));
                assert(rule(kept[i]));
            }
        }
    }
    assert forall|i: int|
        0 <= i < before.len() && !((#[trigger] before[i]).memory.vault_id.text@ == vault
            && before[i].memory.note_set_id is Some && before[i].memory.note_set_id->0.text@ == set)
            && (forall|k: int|
            0 <= k < items.len() ==> !same_identity(
                before[i].memory,
                (#[trigger] items[k]).memory,
            )) implies after.contains(before[i]) by {
        assert(before.contains(before[i]));
        assert(rule(before[i]));
        assert(kept.contains(before[i]));
        let n = choose|n: int| 0 <= n < kept.len() && kept[n] == before[i];
        assert(after[n] == kept[n]);
    }
}

/// Items without a fault are bundles of the set in its vault.
proof fn lemma_items_accepted(
    items: Seq<CurrentMemoryBundle>,
    vault: Seq<char>,
    set: Seq<char>,
    recovery: bool,
)
    requires
        crate::current_memory::note_sets::set_items_fault(items, vault, set, recovery) is None,
    ensures
        forall|k: int|
            0 <= k < items.len() ==> {
                &&& (#[trigger] items[k]).memory.vault_id.text@ == vault
                &&& items[k].memory.ownership == CurrentMemoryOwnership::NoteDerived
                &&& items[k].memory.note_set_id is Some
                &&& items[k].memory.note_set_id->0.text@ == set
                &&& recovery ==> items[k].note_set is Some && items[k].note_set->0.id.text@ == set
                &&& items[k].fault(vault) is None
            },
    decreases items.len(),
{
    if items.len() > 0 {
        let fewer = items.drop_last();
        lemma_items_accepted(fewer, vault, set, recovery);
        assert forall|k: int| 0 <= k < items.len() implies {
            &&& (#[trigger] items[k]).memory.vault_id.text@ == vault
            &&& items[k].memory.ownership == CurrentMemoryOwnership::NoteDerived
            &&& items[k].memory.note_set_id is Some
            &&& items[k].memory.note_set_id->0.text@ == set
            &&& recovery ==> items[k].note_set is Some && items[k].note_set->0.id.text@ == set
            &&& items[k].fault(vault) is None
        } by {
            if k < fewer.len() {
                assert(fewer[k] == items[k]);
            }
        }
    }
}

/// A publication goes through only for the proposal that waits for the source
/// and proposes exactly this set; the proposal is then applied at that time, and
/// no other proposal changes.
pub proof fn law_publication_applies_its_proposal(
    context: &VaultContext,
    state: NoteMemoryState,
    files: &[FileRecord],
    snapshot_id: &Id,
    set: MemoryNoteSetRecord,
    items: Vec<CurrentMemoryBundle>,
    now: i64,
    r: Result<NoteMemoryState, StateError>,
)
    requires
        call_ensures(
            publish_note_set,
            (context, state, files, snapshot_id, set, items, now),
            r,
        ),
    ensures
        r matches Ok(after) ==> {
            &&& exists|s: int|
                {
                    let proposal = #[trigger] state.snapshots@[s];
                    &&& 0 <= s < state.snapshots@.len()
                    &&& proposal.vault_id.text@ == context.id.text@
                    &&& proposal.id.text@ == snapshot_id.text@
                    &&& proposal.source_file_id.text@ == set.source_file_id.text@
                    &&& proposal.status@ == "prepared"@
                    &&& proposal.note_set_id.text@ == set.id.text@
                    &&& proposal.source_content_hash@ == set.source_content_hash@
                    &&& proposal.source_revision == set.source_revision
                    &&& proposal.proposed_set_revision == set.set_revision
                    &&& proposal.canonical_path.text@ == set.canonical_path.text@
                    &&& proposal.expected_set_revision matches Some(expected) ==> exists|k: int|
                        0 <= k < state.sets@.len() && (#[trigger] state.sets@[k]).vault_id.text@
                            == context.id.text@ && state.sets@[k].source_file_id.text@
                            == set.source_file_id.text@ && state.sets@[k].set_revision == expected
                    &&& proposal.expected_set_revision is None ==> forall|k: int|
                        0 <= k < state.sets@.len() ==> !((
                        #[trigger] state.sets@[k]).vault_id.text@ == context.id.text@
                            && state.sets@[k].source_file_id.text@ == set.source_file_id.text@)
                }
            &&& after.snapshots@.len() == state.snapshots@.len()
            &&& forall|s: int|
                0 <= s < state.snapshots@.len() ==> if (
                #[trigger] state.snapshots@[s]).vault_id.text@ == context.id.text@
                    && state.snapshots@[s].id.text@ == snapshot_id.text@
                    && state.snapshots@[s].status@ == "prepared"@ {
                    &&& after.snapshots@[s].status@ == "applied"@
                    &&& after.snapshots@[s].applied_at == Some(now)
                    &&& after.snapshots@[s].id == state.snapshots@[s].id
                    &&& after.snapshots@[s].items == state.snapshots@[s].items
                    &&& after.snapshots@[s].source_file_id == state.snapshots@[s].source_file_id
                } else {
                    after.snapshots@[s] == state.snapshots@[s]
                }
        },
{
    if let Ok(after) = r {
        let of_source = |old: MemoryNoteSetRecord|
            old.of_source(context.id@, set.source_file_id@);
        lemma_first_index(state.sets@, of_source);
        let i = choose|i: usize|
            is_prepared(state.snapshots@, context.id@, set.source_file_id@, i);
        assert(seq![i][0] == i);
        let proposal = state.snapshots@[i as int];
        assert(state.snapshots@.map_values(
            |p: MemoryNoteSetSnapshotRecord| p.pending(context.id@, set.source_file_id@),
        )[i as int]);
        assert(proposal.pending(context.id@, set.source_file_id@));
    }
}

/// A restored set is stored as it is given, for its source alone: what its source
/// had before is replaced, with its items, and proposals that wait for the
/// source are rejected.
pub proof fn law_restored_set_replaces_its_source(
    context: &VaultContext,
    state: NoteMemoryState,
    files: &[FileRecord],
    set: MemoryNoteSetRecord,
    items: Vec<CurrentMemoryBundle>,
    now: i64,
    r: Result<NoteMemoryState, StateError>,
)
    requires
        call_ensures(restore_note_set_projection, (context, state, files, set, items, now), r),
        distinct_bundles(items@),
    ensures
        r matches Ok(after) ==> {
            &&& set.vault_id.text@ == context.id.text@
            &&& source_is_unchanged(set, files@)
            &&& canonical_is_in_place(set, files@)
            &&& exists|at: int|
                0 <= at < after.sets@.len() && set_holds(#[trigger] after.sets@[at], set)
                    && source_is_unchanged(after.sets@[at], files@) && canonical_is_in_place(
                    after.sets@[at],
                    files@,
                )
            &&& forall|k: int|
                0 <= k < items@.len() ==> exists|i: int|
                    0 <= i < after.items@.len() && item_holds(
                        #[trigger] after.items@[i],
                        #[trigger] items@[k],
                    )
            &&& forall|i: int|
                0 <= i < after.items@.len() ==> state.items@.contains(#[trigger] after.items@[i])
                    || exists|k: int|
                    0 <= k < items@.len() && item_holds(after.items@[i], #[trigger] items@[k])
            &&& after.snapshots@.len() == state.snapshots@.len()
            &&& forall|s: int|
                0 <= s < state.snapshots@.len() ==> if (
                #[trigger] state.snapshots@[s]).vault_id.text@ == context.id.text@
                    && state.snapshots@[s].source_file_id.text@ == set.source_file_id.text@
                    && state.snapshots@[s].status@ == "prepared"@ {
                    &&& after.snapshots@[s].status@ == "rejected"@
                    &&& after.snapshots@[s].applied_at == Some(now)
                    &&& after.snapshots@[s].id == state.snapshots@[s].id
                } else {
                    after.snapshots@[s] == state.snapshots@[s]
                }
        },
{
    if let Ok(after) = r {
        lemma_set_current(set, files@);
        lemma_items_accepted(items@, context.id@, set.id@, true);
        let of_source = |old: MemoryNoteSetRecord|
            old.of_source(context.id@, set.source_file_id@);
        lemma_first_index(state.sets@, of_source);
        let same = |old: MemoryNoteSetRecord| old.is(context.id@, set.id@);
        lemma_first_index(state.sets@, same);
        match first_index(state.sets@, of_source) {
            Some(i) => {
                let current = state.sets@[i];
                lemma_replaced_items(
                    state.items@,
                    without_set(state.items@, context.id@, current.id@),
                    context.id@,
                    current.id@,
                    items@,
                );
                if current.id@ == set.id@ {
                    let rule = |old: MemoryNoteSetRecord|
                        crate::current_memory::note_sets::precedes(old, set, false);
                    lemma_first_index(state.sets@, rule);
                    let at = first_index(state.sets@, rule)->0;
                    assert(same(state.sets@[at]));
                    assert(state.sets@[at].source_file_id@ == set.source_file_id@) by {
                        let first = first_index(state.sets@, same)->0;
                        assert(first == at) by {
                            if first < at {
                                assert(rule(state.sets@[first]));
                            }
                        }
                    }
                    assert(set_holds(after.sets@[at], set));
                    lemma_same_currency(after.sets@[at], set, files@);
                } else {
                    let at = after.sets@.len() - 1;
                    assert(set_holds(after.sets@[at], set));
                }
            },
            None => {
                lemma_replaced_items(
                    state.items@,
                    state.items@,
                    context.id@,
                    set.id@,
                    items@,
                );
                let at = after.sets@.len() - 1;
                assert(set_holds(after.sets@[at], set));
            },
        }
    }
}

/// A set that is replaced for its source is gone from the restored ones, with
/// its items, where the restored set has another identity; sets of other sources
/// stay.
pub proof fn law_restored_set_keeps_other_sources(
    context: &VaultContext,
    state: NoteMemoryState,
    files: &[FileRecord],
    set: MemoryNoteSetRecord,
    items: Vec<CurrentMemoryBundle>,
    now: i64,
    r: Result<NoteMemoryState, StateError>,
    k: int,
)
    requires
        call_ensures(restore_note_set_projection, (context, state, files, set, items, now), r),
        0 <= k < state.sets@.len(),
        !(state.sets@[k].vault_id.text@ == context.id.text@
            && state.sets@[k].source_file_id.text@ == set.source_file_id.text@),
        forall|i: int, j: int|
            0 <= i < j < state.sets@.len() ==> !((#[trigger] state.sets@[i]).vault_id.text@ == (
            #[trigger] state.sets@[j]).vault_id.text@ && state.sets@[i].id.text@
                == state.sets@[j].id.text@),
    ensures
        r matches Ok(after) ==> after.sets@.contains(state.sets@[k]),
{
    if let Ok(after) = r {
        let of_source = |old: MemoryNoteSetRecord|
            old.of_source(context.id@, set.source_file_id@);
        lemma_first_index(state.sets@, of_source);
        match first_index(state.sets@, of_source) {
            Some(i) => {
                let current = state.sets@[i];
                if current.id@ == set.id@ {
                    let rule = |old: MemoryNoteSetRecord|
                        crate::current_memory::note_sets::precedes(old, set, false);
                    lemma_first_index(state.sets@, rule);
                    let at = first_index(state.sets@, rule)->0;
                    assert(rule(state.sets@[i]));
                    if at < i {
                        assert(!(state.sets@[at].vault_id.text@ == state.sets@[i].vault_id.text@
                            && state.sets@[at].id.text@ == state.sets@[i].id.text@));
                    }
                    assert(at == i);
                    assert(after.sets@[k] == state.sets@[k]);
                } else {
                    let other = |set: MemoryNoteSetRecord| !set.is(context.id@, current.id@);
                    lemma_kept(state.sets@, other);
                    assert(state.sets@.contains(state.sets@[k]));
                    assert(k != i);
                    if k < i {
                        assert(!(state.sets@[k].vault_id.text@ == state.sets@[i].vault_id.text@
                            && state.sets@[k].id.text@ == state.sets@[i].id.text@));
                    } else {
                        assert(!(state.sets@[i].vault_id.text@ == state.sets@[k].vault_id.text@
                            && state.sets@[i].id.text@ == state.sets@[k].id.text@));
                    }
                    assert(other(state.sets@[k]));
                    let rest = crate::current_memory::note_sets::without_note_set(
                        state.sets@,
                        context.id@,
                        current.id@,
                    );
                    assert(rest == state.sets@.filter(other));
                    assert(after.sets@ == rest.push(set));
                    assert(rest.contains(state.sets@[k]));
                    let n = choose|n: int| 0 <= n < rest.len() && rest[n] == state.sets@[k];
                    assert(after.sets@[n] == state.sets@[k]);
                }
            },
            None => {
                assert(after.sets@[k] == state.sets@[k]);
            },
        }
    }
}

/// Deleting an item pauses its set: exactly that item, at the revision that was
/// seen, is gone, and the set stands paused one revision further.
pub proof fn law_deleting_an_item_pauses_its_set(
    context: &VaultContext,
    items: Vec<StoredItem>,
    sets: Vec<MemoryNoteSetRecord>,
    files: &[FileRecord],
    memory_id: &Id,
    expected: Revision,
    updated: MemoryNoteSetRecord,
    r: Result<RewrittenSet, StateError>,
)
    requires
        call_ensures(
            delete_note_item_and_pause,
            (context, items, sets, files, memory_id, expected, updated),
            r,
        ),
    ensures
        r matches Ok(after) ==> {
            &&& updated.extraction_paused
            &&& updated.vault_id.text@ == context.id.text@
            &&& source_is_unchanged(updated, files@)
            &&& canonical_is_in_place(updated, files@)
            &&& exists|i: int|
                0 <= i < items@.len() && (#[trigger] items@[i]).memory.vault_id.text@
                    == context.id.text@ && items@[i].memory.id.text@ == memory_id.text@
                    && items@[i].memory.revision == expected && items@[i].memory.ownership
                    == CurrentMemoryOwnership::NoteDerived && items@[i].memory.note_set_id is Some
                    && items@[i].memory.note_set_id->0.text@ == updated.id.text@
            &&& forall|item: StoredItem| #[trigger]
                after.items@.contains(item) <==> items@.contains(item) && !(
                item.memory.vault_id.text@ == context.id.text@ && item.memory.id.text@
                    == memory_id.text@ && item.memory.note_set_id is Some
                    && item.memory.note_set_id->0.text@ == updated.id.text@ && item.memory.revision
                    == expected)
            &&& exists|at: int|
                0 <= at < sets@.len() && after.sets@.len() == sets@.len()
                    && sets@[at].vault_id.text@ == context.id.text@ && sets@[at].id.text@
                    == updated.id.text@ && sets@[at].set_revision.value + 1
                    == updated.set_revision.value && (
                #[trigger] after.sets@[at]).extraction_paused && after.sets@[at].set_revision
                    == updated.set_revision && after.sets@[at].source_file_id
                    == sets@[at].source_file_id && after.sets@[at].canonical_revision
                    == updated.canonical_revision && forall|k: int|
                    0 <= k < sets@.len() && k != at ==> #[trigger] after.sets@[k] == sets@[k]
        },
{
    if let Ok(after) = r {
        lemma_set_current(updated, files@);
        let own = |item: StoredItem| item.is(context.id@, memory_id@);
        lemma_first_index(items@, own);
        let i = first_index(items@, own)->0;
        let set_id = items@[i].memory.note_set_id->0;
        lemma_first_index(sets@, |set: MemoryNoteSetRecord| set.is(context.id@, set_id@));
        assert(items@[i].memory.vault_id.text@ == context.id.text@);
        lemma_kept(
            items@,
            |item: StoredItem|
                !(item.is(context.id@, memory_id@) && item.in_set(context.id@, updated.id@)
                    && item.memory.revision == expected),
        );
        lemma_rewritten(sets@, updated, true);
    }
}

/// Extraction is resumed for a paused set of the same source, seen at its stored
/// revision; the set then runs one revision further.
pub proof fn law_resuming_needs_a_paused_set(
    context: &VaultContext,
    sets: Vec<MemoryNoteSetRecord>,
    files: &[FileRecord],
    updated: MemoryNoteSetRecord,
    expected: Revision,
    r: Result<Vec<MemoryNoteSetRecord>, StateError>,
)
    requires
        call_ensures(resume_note_extraction, (context, sets, files, updated, expected), r),
    ensures
        r matches Ok(after) ==> {
            &&& !updated.extraction_paused
            &&& updated.set_revision.value == expected.value + 1
            &&& canonical_is_in_place(updated, files@)
            &&& after@.len() == sets@.len()
            &&& exists|i: int|
                0 <= i < sets@.len() && (#[trigger] sets@[i]).vault_id.text@ == context.id.text@
                    && sets@[i].id.text@ == updated.id.text@ && sets@[i].set_revision == expected
                    && sets@[i].extraction_paused && sets@[i].source_file_id.text@
                    == updated.source_file_id.text@
            &&& exists|at: int|
                0 <= at < sets@.len() && sets@[at].id.text@ == updated.id.text@ && !(
                #[trigger] after@[at]).extraction_paused && after@[at].set_revision
                    == updated.set_revision && forall|k: int|
                    0 <= k < sets@.len() && k != at ==> #[trigger] after@[k] == sets@[k]
        },
{
    if let Ok(after) = r {
        let own = |set: MemoryNoteSetRecord| set.is(context.id@, updated.id@);
        lemma_first_index(sets@, own);
        let i = first_index(sets@, own)->0;
        assert(sets@[i].vault_id.text@ == context.id.text@);
        lemma_rewritten(sets@, updated, true);
        let canonical = |file: FileRecord|
            is_canonical(
                file,
                updated.vault_id@,
                updated.canonical_file_id@,
                updated.canonical_path@,
                updated.canonical_revision,
            );
        let f = choose|f: int| 0 <= f < files@.len() && canonical(#[trigger] files@[f]);
        assert(files@[f].vault_id.text@ == updated.vault_id.text@);
    }
}

/// A set follows its source to another path without changing what it represents:
/// content hash and pause stay, and it stands one revision further.
pub proof fn law_moving_keeps_what_is_represented(
    context: &VaultContext,
    sets: Vec<MemoryNoteSetRecord>,
    files: &[FileRecord],
    updated: MemoryNoteSetRecord,
    expected: Revision,
    r: Result<Vec<MemoryNoteSetRecord>, StateError>,
)
    requires
        call_ensures(move_note_set_source, (context, sets, files, updated, expected), r),
    ensures
        r matches Ok(after) ==> {
            &&& updated.set_revision.value == expected.value + 1
            &&& source_is_unchanged(updated, files@)
            &&& canonical_is_in_place(updated, files@)
            &&& after@.len() == sets@.len()
            &&& exists|i: int|
                0 <= i < sets@.len() && (#[trigger] sets@[i]).vault_id.text@ == context.id.text@
                    && sets@[i].id.text@ == updated.id.text@ && sets@[i].set_revision == expected
                    && sets@[i].extraction_paused == updated.extraction_paused
                    && sets@[i].source_content_hash@ == updated.source_content_hash@
                    && sets@[i].source_file_id.text@ == updated.source_file_id.text@
            &&& exists|at: int|
                0 <= at < sets@.len() && sets@[at].id.text@ == updated.id.text@ && (
                #[trigger] after@[at]).source_path == updated.source_path
                    && after@[at].canonical_path == updated.canonical_path
                    && after@[at].set_revision == updated.set_revision
                    && after@[at].source_content_hash == updated.source_content_hash && forall|
                    k: int,
                |
                    0 <= k < sets@.len() && k != at ==> #[trigger] after@[k] == sets@[k]
        },
{
    if let Ok(after) = r {
        lemma_set_current(updated, files@);
        let own = |set: MemoryNoteSetRecord| set.is(context.id@, updated.id@);
        lemma_first_index(sets@, own);
        let i = first_index(sets@, own)->0;
        assert(sets@[i].vault_id.text@ == context.id.text@);
        lemma_rewritten(sets@, updated, true);
    }
}

/// A set is deleted with its items where its revision is the one that was seen;
/// nothing else goes.
pub proof fn law_deleting_a_set_takes_its_items(
    context: &VaultContext,
    items: Vec<StoredItem>,
    sets: Vec<MemoryNoteSetRecord>,
    source: &Id,
    expected: Revision,
    r: Result<RewrittenSet, StateError>,
    at: int,
)
    requires
        call_ensures(delete_note_set_projection, (context, items, sets, source, expected), r),
        0 <= at < sets@.len(),
        sets@[at].vault_id.text@ == context.id.text@,
        sets@[at].source_file_id.text@ == source.text@,
        forall|k: int|
            0 <= k < at ==> !((#[trigger] sets@[k]).vault_id.text@ == context.id.text@
                && sets@[k].source_file_id.text@ == source.text@),
    ensures
        r is Ok <==> sets@[at].set_revision == expected && expected.value <= i64::MAX,
        r matches Ok(after) ==> {
            &&& forall|set: MemoryNoteSetRecord| #[trigger]
                after.sets@.contains(set) <==> sets@.contains(set) && !(set.vault_id.text@
                    == context.id.text@ && set.id.text@ == sets@[at].id.text@)
            &&& forall|item: StoredItem| #[trigger]
                after.items@.contains(item) <==> items@.contains(item) && !(
                item.memory.vault_id.text@ == context.id.text@ && item.memory.note_set_id is Some
                    && item.memory.note_set_id->0.text@ == sets@[at].id.text@)
        },
{
    let own = |set: MemoryNoteSetRecord| set.of_source(context.id@, source@);
    assert forall|k: int| 0 <= k < at implies !own(#[trigger] sets@[k]) by {}
    crate::rows::lemma_first_index_is(sets@, own, at);
    let id = sets@[at].id@;
    lemma_kept(sets@, |set: MemoryNoteSetRecord| !set.is(context.id@, id));
    lemma_kept(items@, |item: StoredItem| !item.in_set(context.id@, id));
}

/// A source without a set has nothing to delete, and is not found by a read.
pub proof fn law_missing_sets_are_not_found(
    context: &VaultContext,
    items: Vec<StoredItem>,
    sets: Vec<MemoryNoteSetRecord>,
    rows: &[MemoryNoteSetRecord],
    source: &Id,
    expected: Revision,
    deleted: Result<RewrittenSet, StateError>,
    found: Option<usize>,
    named: Option<usize>,
)
    requires
        call_ensures(delete_note_set_projection, (context, items, sets, source, expected), deleted),
        call_ensures(get_note_set_by_source, (context, rows, source), found),
        rows@ == sets@,
        call_ensures(get_note_set, (context, rows, source), named),
    ensures
        found is None ==> deleted is Err,
        match found {
            Some(i) => i < sets@.len() && sets@[i as int].vault_id.text@ == context.id.text@
                && sets@[i as int].source_file_id.text@ == source.text@,
            None => forall|k: int|
                0 <= k < sets@.len() ==> !((#[trigger] sets@[k]).vault_id.text@ == context.id.text@
                    && sets@[k].source_file_id.text@ == source.text@),
        },
        match named {
            Some(i) => i < sets@.len() && sets@[i as int].vault_id.text@ == context.id.text@
                && sets@[i as int].id.text@ == source.text@,
            None => forall|k: int|
                0 <= k < sets@.len() ==> !((#[trigger] sets@[k]).vault_id.text@ == context.id.text@
                    && sets@[k].id.text@ == source.text@),
        },
{
    lemma_first_index(
        sets@,
        |set: MemoryNoteSetRecord| set.of_source(context.id@, source@),
    );
    lemma_first_index(sets@, |set: MemoryNoteSetRecord| set.is(context.id@, source@));
}

/// A prepared proposal is stored as it is given, not yet applied, where no other
/// one waits for its source; the set that it proposes stands just behind the
/// expected one.
pub proof fn law_prepared_proposal_waits(
    context: &VaultContext,
    snapshots: Vec<MemoryNoteSetSnapshotRecord>,
    snapshot: MemoryNoteSetSnapshotRecord,
    r: Result<Vec<MemoryNoteSetSnapshotRecord>, StateError>,
)
    requires
        call_ensures(prepare_note_set_snapshot, (context, snapshots, snapshot), r),
    ensures
        r matches Ok(after) ==> {
            &&& snapshot.vault_id.text@ == context.id.text@
            &&& snapshot.status@ == "prepared"@
            &&& snapshot.source_revision.value <= i64::MAX
            &&& snapshot.proposed_set_revision.value <= i64::MAX
            &&& snapshot.proposed_set_revision.value == match snapshot.expected_set_revision {
                Some(expected) => expected.value + 1,
                None => 1,
            }
            &&& forall|s: int|
                0 <= s < snapshots@.len() ==> !((#[trigger] snapshots@[s]).vault_id.text@
                    == context.id.text@ && snapshots@[s].source_file_id.text@
                    == snapshot.source_file_id.text@ && snapshots@[s].status@ == "prepared"@)
            &&& after@.len() == snapshots@.len() + 1
            &&& after@.last() == (MemoryNoteSetSnapshotRecord { applied_at: None, ..snapshot })
            &&& forall|s: int| 0 <= s < snapshots@.len() ==> #[trigger] after@[s] == snapshots@[s]
        },
{
    if r is Ok {
        let rule = |held: MemoryNoteSetSnapshotRecord|
            held.pending(context.id@, snapshot.source_file_id@);
        assert forall|s: int| 0 <= s < snapshots@.len() implies !rule(#[trigger] snapshots@[s]) by {
            assert(!crate::rows::some_row(snapshots@, rule));
        }
    }
}

/// Rejecting closes exactly the proposal that waits under the identity, and says
/// so; it is never applied.
pub proof fn law_rejecting_closes_one_proposal(
    context: &VaultContext,
    snapshots: Vec<MemoryNoteSetSnapshotRecord>,
    id: &Id,
    r: Option<Vec<MemoryNoteSetSnapshotRecord>>,
)
    requires
        call_ensures(reject_note_set_snapshot, (context, snapshots, id), r),
    ensures
        r is Some <==> exists|s: int|
            0 <= s < snapshots@.len() && (#[trigger] snapshots@[s]).vault_id.text@
                == context.id.text@ && snapshots@[s].id.text@ == id.text@ && snapshots@[s].status@
                == "prepared"@,
        r matches Some(after) ==> after@.len() == snapshots@.len() && forall|s: int|
            0 <= s < snapshots@.len() ==> if (#[trigger] snapshots@[s]).vault_id.text@
                == context.id.text@ && snapshots@[s].id.text@ == id.text@ && snapshots@[s].status@
                == "prepared"@ {
                &&& after@[s].status@ == "rejected"@
                &&& after@[s].applied_at == snapshots@[s].applied_at
                &&& after@[s].id == snapshots@[s].id
                &&& after@[s].items == snapshots@[s].items
            } else {
                after@[s] == snapshots@[s]
            },
{
    let rule = |p: MemoryNoteSetSnapshotRecord| p.waiting(context.id@, id@);
    if exists|s: int|
        0 <= s < snapshots@.len() && (#[trigger] snapshots@[s]).vault_id.text@ == context.id.text@
            && snapshots@[s].id.text@ == id.text@ && snapshots@[s].status@ == "prepared"@ {
        let s = choose|s: int|
            0 <= s < snapshots@.len() && (#[trigger] snapshots@[s]).vault_id.text@
                == context.id.text@ && snapshots@[s].id.text@ == id.text@ && snapshots@[s].status@
                == "prepared"@;
        assert(rule(snapshots@[s]));
        assert(crate::rows::some_row(snapshots@, rule));
    }
}

/// A recall is counted once for each time that an item is listed, in its vault,
/// and changes nothing but the count and the time.
pub proof fn law_recalls_are_counted_one_by_one(
    context: &VaultContext,
    items: Vec<StoredItem>,
    ids: &[Id],
    more: &[Id],
    id: Id,
    now: i64,
    once: Vec<StoredItem>,
    again: Vec<StoredItem>,
    i: int,
)
    requires
        call_ensures(mark_recalled, (context, items, ids, now), once),
        call_ensures(mark_recalled, (context, items, more, now), again),
        more@ == ids@.push(id),
        0 <= i < items@.len(),
        items@[i].memory.recall_count + more@.len() <= i64::MAX,
    ensures
        once@.len() == items@.len(),
        again@.len() == items@.len(),
        ids@.len() == 0 ==> once@[i] == items@[i],
        again@[i].sources == items@[i].sources,
        again@[i].memory.id == items@[i].memory.id,
        again@[i].memory.vault_id == items@[i].memory.vault_id,
        again@[i].memory.content == items@[i].memory.content,
        again@[i].memory.revision == items@[i].memory.revision,
        again@[i].memory.updated_at == items@[i].memory.updated_at,
        if items@[i].memory.vault_id.text@ == context.id.text@ && items@[i].memory.id.text@
            == id.text@ {
            again@[i].memory.recall_count == once@[i].memory.recall_count + 1
                && again@[i].memory.last_recalled_at == Some(now)
        } else {
            again@[i] == once@[i]
        },
{
    assert(more@.drop_last() =~= ids@);
    lemma_recalled(items@[i], context.id@, ids@, now);
}

proof fn lemma_recalled(item: StoredItem, vault: Seq<char>, ids: Seq<Id>, now: i64)
    requires
        item.memory.recall_count + ids.len() <= i64::MAX,
    ensures
        ({
            let after = crate::current_memory::note_sets::recalled(item, vault, ids, now);
            &&& after.sources == item.sources
            &&& after.memory == (CurrentMemoryRecord {
                last_recalled_at: after.memory.last_recalled_at,
                recall_count: after.memory.recall_count,
                ..item.memory
            })
            &&& item.memory.recall_count <= after.memory.recall_count <= item.memory.recall_count
                + ids.len()
        }),
    decreases ids.len(),
{
    if ids.len() > 0 {
        lemma_recalled(item, vault, ids.drop_last(), now);
    }
}

} // verus!
