//! Which memories reads show, in terms of the stored items, sets and files.

use vstd::prelude::*;

use crate::current_memory::note_sets::{publish_note_set, NoteMemoryState};
use crate::current_memory::reads::{
    counts, get, get_unchecked, is_canonical, is_note_of, list, list_note_set_items, list_sources,
    mentioning, prepared_note_set_snapshot, search_fts, search_terms, set_key, shown,
    CurrentMemoryCounts, CurrentMemoryFilter, TextHit,
};
use crate::current_memory::set_laws::{
    canonical_is_in_place, distinct_bundles, item_holds, law_publication_stores_every_item,
    law_published_set_is_current, lemma_set_current, set_holds, source_is_unchanged,
};
use crate::current_memory::{
    CurrentMemoryBundle, CurrentMemoryOwnership, CurrentMemoryRecord, CurrentMemorySourceRecord,
    MemoryNoteSetRecord, MemoryNoteSetSnapshotRecord, StoredItem,
};
use crate::domain::{Id, VaultContext, VaultPath};
use crate::error::StateError;
use crate::files::FileRecord;
use crate::order::keys;
use crate::order::laws::{lemma_page_rows, lemma_selection_rows, no_later};
use crate::rows::{first_index, lemma_first_index, some_row};
use crate::text::{lowercase_form, text_before, trimmed, unspaced};

verus! {

/// Whether a memory is backed by what it was taken from: an explicit one by its
/// canonical file at the path and revision that it names, one of a note by a
/// set whose source is unchanged and whose canonical file is in place.
pub open spec fn is_backed(
    memory: CurrentMemoryRecord,
    sets: Seq<MemoryNoteSetRecord>,
    files: Seq<FileRecord>,
) -> bool {
    match memory.ownership {
        CurrentMemoryOwnership::Explicit => {
            &&& memory.canonical_file_id is Some
            &&& memory.canonical_path is Some
            &&& memory.canonical_revision is Some
            &&& exists|f: int|
                {
                    &&& 0 <= f < files.len()
                    &&& (#[trigger] files[f]).vault_id.text@ == memory.vault_id.text@
                    &&& files[f].id.text@ == memory.canonical_file_id->0.text@
                    &&& files[f].path.text@ == memory.canonical_path->0.text@
                    &&& files[f].current_revision.value == memory.canonical_revision->0.value
                    &&& files[f].deleted_at is None
                }
        },
        CurrentMemoryOwnership::NoteDerived => {
            &&& memory.note_set_id is Some
            &&& exists|s: int|
                {
                    &&& 0 <= s < sets.len()
                    &&& (#[trigger] sets[s]).vault_id.text@ == memory.vault_id.text@
                    &&& sets[s].id.text@ == memory.note_set_id->0.text@
                    &&& source_is_unchanged(sets[s], files)
                    &&& canonical_is_in_place(sets[s], files)
                }
        },
    }
}

proof fn lemma_backed(
    memory: CurrentMemoryRecord,
    sets: Seq<MemoryNoteSetRecord>,
    files: Seq<FileRecord>,
)
    ensures
        memory.eligible(sets, files) <==> is_backed(memory, sets, files),
{
    match memory.ownership {
        CurrentMemoryOwnership::Explicit => {
            if memory.canonical_file_id is Some && memory.canonical_path is Some
                && memory.canonical_revision is Some {
                let rule = |file: FileRecord|
                    is_canonical(
                        file,
                        memory.vault_id@,
                        memory.canonical_file_id->0@,
                        memory.canonical_path->0@,
                        memory.canonical_revision->0,
                    );
                if is_backed(memory, sets, files) {
                    let f = choose|f: int|
                        {
                            &&& 0 <= f < files.len()
                            &&& (#[trigger] files[f]).vault_id.text@ == memory.vault_id.text@
                            &&& files[f].id.text@ == memory.canonical_file_id->0.text@
                            &&& files[f].path.text@ == memory.canonical_path->0.text@
                            &&& files[f].current_revision.value
                                == memory.canonical_revision->0.value
                            &&& files[f].deleted_at is None
                        };
                    assert(rule(files[f]));
                }
                if some_row(files, rule) {
                    let f = choose|f: int| 0 <= f < files.len() && rule(#[trigger] files[f]);
                    assert(files[f].vault_id.text@ == memory.vault_id.text@);
                }
            }
        },
        CurrentMemoryOwnership::NoteDerived => {
            let rule = |set: MemoryNoteSetRecord| memory.owned_by_current(set, files);
            assert forall|s: int| 0 <= s < sets.len() implies ((#[trigger] sets[s]).current(files)
                <==> source_is_unchanged(sets[s], files) && canonical_is_in_place(sets[s], files)) by {
                lemma_set_current(sets[s], files);
            }
            if is_backed(memory, sets, files) {
                let s = choose|s: int|
                    {
                        &&& 0 <= s < sets.len()
                        &&& (#[trigger] sets[s]).vault_id.text@ == memory.vault_id.text@
                        &&& sets[s].id.text@ == memory.note_set_id->0.text@
                        &&& source_is_unchanged(sets[s], files)
                        &&& canonical_is_in_place(sets[s], files)
                    };
                assert(rule(sets[s]));
            }
            if some_row(sets, rule) {
                let s = choose|s: int| 0 <= s < sets.len() && rule(#[trigger] sets[s]);
                assert(sets[s].vault_id.text@ == memory.vault_id.text@);
            }
        },
    }
}

/// A memory is eligible exactly where it is backed.
pub proof fn law_eligible_memories_are_backed(
    memory: &CurrentMemoryRecord,
    sets: &[MemoryNoteSetRecord],
    files: &[FileRecord],
    r: bool,
)
    requires
        call_ensures(CurrentMemoryRecord::is_eligible, (memory, sets, files), r),
    ensures
        r <==> is_backed(*memory, sets@, files@),
{
    lemma_backed(*memory, sets@, files@);
}

/// A read finds exactly the vault's memory of the identity, where it is backed.
pub proof fn law_reads_find_backed_memories(
    context: &VaultContext,
    items: &[StoredItem],
    sets: &[MemoryNoteSetRecord],
    files: &[FileRecord],
    id: &Id,
    r: Option<usize>,
    unchecked: Option<usize>,
)
    requires
        call_ensures(get, (context, items, sets, files, id), r),
        call_ensures(get_unchecked, (context, items, id), unchecked),
    ensures
        match r {
            Some(i) => i < items@.len() && items@[i as int].memory.vault_id.text@
                == context.id.text@ && items@[i as int].memory.id.text@ == id.text@ && is_backed(
                items@[i as int].memory,
                sets@,
                files@,
            ),
            None => forall|k: int|
                0 <= k < items@.len() ==> !((#[trigger] items@[k]).memory.vault_id.text@
                    == context.id.text@ && items@[k].memory.id.text@ == id.text@ && is_backed(
                    items@[k].memory,
                    sets@,
                    files@,
                )),
        },
        match unchecked {
            Some(i) => i < items@.len() && items@[i as int].memory.vault_id.text@
                == context.id.text@ && items@[i as int].memory.id.text@ == id.text@,
            None => forall|k: int|
                0 <= k < items@.len() ==> !((#[trigger] items@[k]).memory.vault_id.text@
                    == context.id.text@ && items@[k].memory.id.text@ == id.text@),
        },
{
    lemma_first_index(
        items@,
        |item: StoredItem| item.is(context.id@, id@) && item.memory.eligible(sets@, files@),
    );
    lemma_first_index(items@, |item: StoredItem| item.is(context.id@, id@));
    assert forall|k: int| 0 <= k < items@.len() implies ((#[trigger] items@[k]).memory.eligible(
        sets@,
        files@,
    ) <==> is_backed(items@[k].memory, sets@, files@)) by {
        lemma_backed(items@[k].memory, sets@, files@);
    }
}

/// What is published is readable at once: after an accepted publication a read
/// over the same files finds every published item.
pub proof fn law_published_items_are_readable_at_once(
    context: &VaultContext,
    state: NoteMemoryState,
    files: &[FileRecord],
    snapshot_id: &Id,
    set: MemoryNoteSetRecord,
    published: Vec<CurrentMemoryBundle>,
    now: i64,
    after: NoteMemoryState,
    items: &[StoredItem],
    sets: &[MemoryNoteSetRecord],
    k: int,
    r: Option<usize>,
)
    requires
        call_ensures(
            publish_note_set,
            (context, state, files, snapshot_id, set, published, now),
            Ok::<NoteMemoryState, StateError>(after),
        ),
        items@ == after.items@,
        sets@ == after.sets@,
        0 <= k < published@.len(),
        call_ensures(get, (context, items, sets, files, &published@[k].memory.id), r),
        distinct_bundles(published@),
        forall|i: int, j: int|
            0 <= i < j < state.sets@.len() ==> !((#[trigger] state.sets@[i]).vault_id.text@ == (
            #[trigger] state.sets@[j]).vault_id.text@ && state.sets@[i].id.text@
                == state.sets@[j].id.text@),
        forall|i: int|
            0 <= i < state.sets@.len() && (#[trigger] state.sets@[i]).vault_id.text@
                == context.id.text@ && state.sets@[i].id.text@ == set.id.text@
                ==> state.sets@[i].source_file_id.text@ == set.source_file_id.text@,
    ensures
        r is Some,
        items@[r->0 as int].memory.vault_id.text@ == context.id.text@,
        items@[r->0 as int].memory.id.text@ == published@[k].memory.id.text@,
{
    let done = Ok::<NoteMemoryState, StateError>(after);
    law_published_set_is_current(
        context,
        state,
        files,
        snapshot_id,
        set,
        published,
        now,
        done,
    );
    law_publication_stores_every_item(
        context,
        state,
        files,
        snapshot_id,
        set,
        published,
        now,
        done,
    );
    let id = published@[k].memory.id;
    let rule = |item: StoredItem|
        item.is(context.id@, id@) && item.memory.eligible(sets@, files@);
    lemma_first_index(items@, rule);
    let i = choose|i: int|
        0 <= i < after.items@.len() && item_holds(#[trigger] after.items@[i], published@[k]);
    let at = choose|at: int|
        0 <= at < after.sets@.len() && set_holds(#[trigger] after.sets@[at], set)
            && source_is_unchanged(after.sets@[at], files@) && canonical_is_in_place(
            after.sets@[at],
            files@,
        );
    lemma_backed(items@[i].memory, sets@, files@);
    assert(sets@[at].vault_id.text@ == items@[i].memory.vault_id.text@);
    assert(rule(items@[i]));
}

/// The path that a provenance row is shown at: that of the live note, else the
/// one that was stored.
pub proof fn law_provenance_follows_its_note(
    source: &CurrentMemorySourceRecord,
    files: &[FileRecord],
    r: Option<VaultPath>,
)
    requires
        call_ensures(CurrentMemorySourceRecord::path_now, (source, files), r),
    ensures
        (exists|f: int|
            0 <= f < files@.len() && (#[trigger] files@[f]).vault_id.text@ == source.vault_id.text@
                && source.note_file_id is Some && files@[f].id.text@ == source.note_file_id->0.text@
                && files@[f].deleted_at is None) ==> exists|f: int|
            0 <= f < files@.len() && (#[trigger] files@[f]).vault_id.text@ == source.vault_id.text@
                && files@[f].id.text@ == source.note_file_id->0.text@ && files@[f].deleted_at
                is None && r == Some(files@[f].path),
        !(exists|f: int|
            0 <= f < files@.len() && (#[trigger] files@[f]).vault_id.text@ == source.vault_id.text@
                && source.note_file_id is Some && files@[f].id.text@ == source.note_file_id->0.text@
                && files@[f].deleted_at is None) ==> r == source.note_path,
{
    let rule = |file: FileRecord| is_note_of(file, *source);
    lemma_first_index(files@, rule);
    if let Some(f) = first_index(files@, rule) {
        assert(files@[f].vault_id.text@ == source.vault_id.text@);
    }
    assert forall|f: int|
        0 <= f < files@.len() && (#[trigger] files@[f]).vault_id.text@ == source.vault_id.text@
            && source.note_file_id is Some && files@[f].id.text@ == source.note_file_id->0.text@
            && files@[f].deleted_at is None implies rule(files@[f]) by {}
}

/// Whether a label of a memory is a given one, but for surrounding spaces and
/// upper case.
pub open spec fn is_labelled(labels: Seq<String>, wanted: Seq<char>) -> bool {
    exists|i: int|
        0 <= i < labels.len() && lowercase_form(unspaced((#[trigger] labels[i])@))
            == lowercase_form(unspaced(wanted))
}

/// Whether a memory passes every part of a filter, field by field.
pub open spec fn passes(
    item: StoredItem,
    filter: CurrentMemoryFilter,
    files: Seq<FileRecord>,
) -> bool {
    &&& filter.kinds@.len() > 0 ==> item.memory.kind is Some && exists|i: int|
        0 <= i < filter.kinds@.len() && (#[trigger] filter.kinds@[i])@ == item.memory.kind->0@
    &&& filter.ownership@.len() > 0 ==> exists|i: int|
        0 <= i < filter.ownership@.len() && #[trigger] filter.ownership@[i] == item.memory.ownership
    &&& filter.tag matches Some(tag) ==> is_labelled(item.memory.tags@, tag@)
    &&& filter.entity matches Some(entity) ==> is_labelled(item.memory.entities@, entity@)
    &&& filter.source_path matches Some(path) ==> exists|i: int|
        0 <= i < item.sources@.len() && (#[trigger] item.sources@[i]).current_path(files) is Some
            && item.sources@[i].current_path(files)->0.text@ == path@
    &&& filter.valid_at matches Some(at) ==> {
        &&& item.memory.valid_from matches Some(from) ==> from <= at
        &&& item.memory.valid_to matches Some(to) ==> at < to
    }
    &&& filter.min_importance matches Some(least) ==> {
        let own = match item.memory.importance {
            Some(importance) => importance,
            None => crate::score::Score { bits: 0 },
        };
        own.at_least(least)
    }
}

proof fn lemma_passes(item: StoredItem, filter: CurrentMemoryFilter, files: Seq<FileRecord>)
    ensures
        filter.admits(item, files) <==> passes(item, filter, files),
{
    if filter.ownership@.contains(item.memory.ownership) {
        let i = choose|i: int|
            0 <= i < filter.ownership@.len() && filter.ownership@[i] == item.memory.ownership;
        assert(filter.ownership@[i] == item.memory.ownership);
    }
    if let Some(tag) = filter.tag {
        lemma_labelled(item.memory.tags@, tag@);
    }
    if let Some(entity) = filter.entity {
        lemma_labelled(item.memory.entities@, entity@);
    }
    if let Some(path) = filter.source_path {
        let rule = |source: CurrentMemorySourceRecord|
            source.current_path(files) is Some && source.current_path(files)->0@ == path@;
        if passes(item, filter, files) {
            let i = choose|i: int|
                0 <= i < item.sources@.len() && (#[trigger] item.sources@[i]).current_path(files)
                    is Some && item.sources@[i].current_path(files)->0.text@ == path@;
            assert(rule(item.sources@[i]));
        }
        if filter.admits(item, files) {
            let i = choose|i: int| 0 <= i < item.sources@.len() && rule(#[trigger] item.sources@[i]);
            assert(item.sources@[i].current_path(files) is Some);
        }
    }
}

proof fn lemma_labelled(labels: Seq<String>, wanted: Seq<char>)
    ensures
        crate::current_memory::reads::has_term(labels, wanted) <==> is_labelled(labels, wanted),
{
    let rule = |label: String|
        crate::text::label_form(label@) == crate::text::label_form(wanted);
    if is_labelled(labels, wanted) {
        let i = choose|i: int|
            0 <= i < labels.len() && lowercase_form(unspaced((#[trigger] labels[i])@))
                == lowercase_form(unspaced(wanted));
        assert(rule(labels[i]));
    }
    if some_row(labels, rule) {
        let i = choose|i: int| 0 <= i < labels.len() && rule(#[trigger] labels[i]);
        assert(lowercase_form(unspaced(labels[i]@)) == lowercase_form(unspaced(wanted)));
    }
}

/// A listing shows backed memories of the vault that pass the filter, each once,
/// the latest update first and of one time by identity. A first page that is not
/// full shows all of them.
pub proof fn law_listings_show_backed_memories(
    context: &VaultContext,
    items: &[StoredItem],
    sets: &[MemoryNoteSetRecord],
    files: &[FileRecord],
    filter: &CurrentMemoryFilter,
    limit: u32,
    offset: u32,
    r: Result<Vec<usize>, StateError>,
)
    requires
        call_ensures(list, (context, items, sets, files, filter, limit, offset), r),
    ensures
        r is Ok <==> 1 <= limit <= 200 && offset <= 100_000,
        r matches Ok(picked) ==> {
            &&& picked@.len() <= limit
            &&& forall|i: int|
                0 <= i < picked@.len() ==> {
                    let item = items@[#[trigger] picked@[i] as int];
                    &&& picked@[i] < items@.len()
                    &&& item.memory.vault_id.text@ == context.id.text@
                    &&& is_backed(item.memory, sets@, files@)
                    &&& passes(item, *filter, files@)
                }
            &&& forall|i: int, j: int|
                0 <= i < j < picked@.len() ==> (#[trigger] picked@[i]) != (#[trigger] picked@[j])
                    && {
                    let a = items@[picked@[i] as int].memory;
                    let b = items@[picked@[j] as int].memory;
                    &&& a.updated_at >= b.updated_at
                    &&& a.updated_at == b.updated_at ==> a.id.text@ == b.id.text@ || text_before(
                        a.id.text@,
                        b.id.text@,
                    )
                }
            &&& offset == 0 && picked@.len() < limit ==> forall|k: int|
                0 <= k < items@.len() && (#[trigger] items@[k]).memory.vault_id.text@
                    == context.id.text@ && is_backed(items@[k].memory, sets@, files@) && passes(
                    items@[k],
                    *filter,
                    files@,
                ) ==> picked@.contains(k as usize)
        },
{
    if let Ok(picked) = r {
        let eligible = shown(items@, context.id@, sets@, files@, *filter);
        lemma_page_rows(
            keys(items@),
            eligible,
            false,
            limit as nat,
            offset as nat,
            picked@,
        );
        assert forall|k: int| 0 <= k < items@.len() implies (#[trigger] eligible[k] <==> (
        items@[k].memory.vault_id.text@ == context.id.text@ && is_backed(
            items@[k].memory,
            sets@,
            files@,
        ) && passes(items@[k], *filter, files@))) by {
            lemma_backed(items@[k].memory, sets@, files@);
            lemma_passes(items@[k], *filter, files@);
        }
        assert forall|i: int, j: int| 0 <= i < j < picked@.len() implies (#[trigger] picked@[i]) != (
        #[trigger] picked@[j]) && {
            let a = items@[picked@[i] as int].memory;
            let b = items@[picked@[j] as int].memory;
            &&& a.updated_at >= b.updated_at
            &&& a.updated_at == b.updated_at ==> a.id.text@ == b.id.text@ || text_before(
                a.id.text@,
                b.id.text@,
            )
        } by {
            assert(no_later(keys(items@)[picked@[i] as int], keys(items@)[picked@[j] as int]));
        }
        assert forall|k: int|
            offset == 0 && picked@.len() < limit && 0 <= k < items@.len() && (
            #[trigger] items@[k]).memory.vault_id.text@ == context.id.text@ && is_backed(
                items@[k].memory,
                sets@,
                files@,
            ) && passes(items@[k], *filter, files@) implies picked@.contains(k as usize) by {
            assert(eligible[k]);
        }
    }
}

/// Whether a stored label, without surrounding spaces and with its ASCII letters
/// in lower case, is one of the wanted ones, without surrounding white space and
/// upper case.
pub open spec fn mentions(labels: Seq<String>, wanted: Seq<String>) -> bool {
    exists|i: int, w: int|
        0 <= i < labels.len() && 0 <= w < wanted.len() && crate::text::stored_form(
            (#[trigger] labels[i])@,
        ) == lowercase_form(trimmed((#[trigger] wanted[w])@)) && crate::text::stored_form(
            labels[i]@,
        ).len() > 0
}

proof fn lemma_mentions(labels: Seq<String>, wanted: Seq<String>)
    ensures
        crate::current_memory::reads::names_any(labels, wanted) <==> mentions(labels, wanted),
{
    let rule = |label: String|
        crate::text::is_term_of(wanted, crate::text::stored_form(label@));
    if some_row(labels, rule) {
        let i = choose|i: int| 0 <= i < labels.len() && rule(#[trigger] labels[i]);
        let form = crate::text::stored_form(labels[i]@);
        let w = choose|w: int|
            0 <= w < wanted.len() && crate::text::term_form(#[trigger] wanted[w]@) == form;
        assert(crate::text::stored_form(labels[i]@) == lowercase_form(trimmed(wanted[w]@)));
    }
    if mentions(labels, wanted) {
        let (i, w) = choose|i: int, w: int|
            0 <= i < labels.len() && 0 <= w < wanted.len() && crate::text::stored_form(
                (#[trigger] labels[i])@,
            ) == lowercase_form(trimmed((#[trigger] wanted[w])@)) && crate::text::stored_form(
                labels[i]@,
            ).len() > 0;
        assert(crate::text::term_form(wanted[w]@) == crate::text::stored_form(labels[i]@));
        assert(rule(labels[i]));
    }
}

/// A search for terms shows backed memories of the vault that mention one of the
/// entities or one of the tags and pass the filter, the latest update first.
pub proof fn law_term_searches_need_a_mention(
    context: &VaultContext,
    items: &[StoredItem],
    sets: &[MemoryNoteSetRecord],
    files: &[FileRecord],
    entities: &[String],
    tags: &[String],
    filter: &CurrentMemoryFilter,
    limit: u32,
    r: Result<Vec<usize>, StateError>,
)
    requires
        call_ensures(
            search_terms,
            (context, items, sets, files, entities, tags, filter, limit),
            r,
        ),
    ensures
        r is Ok <==> 1 <= limit <= 200,
        r matches Ok(picked) ==> {
            &&& picked@.len() <= limit
            &&& forall|i: int|
                0 <= i < picked@.len() ==> {
                    let item = items@[#[trigger] picked@[i] as int];
                    &&& picked@[i] < items@.len()
                    &&& item.memory.vault_id.text@ == context.id.text@
                    &&& is_backed(item.memory, sets@, files@)
                    &&& passes(item, *filter, files@)
                    &&& mentions(item.memory.entities@, entities@) || mentions(
                        item.memory.tags@,
                        tags@,
                    )
                }
            &&& forall|i: int, j: int|
                0 <= i < j < picked@.len() ==> items@[#[trigger] picked@[i] as int].memory.updated_at
                    >= items@[#[trigger] picked@[j] as int].memory.updated_at && picked@[i]
                    != picked@[j]
            &&& picked@.len() < limit ==> forall|k: int|
                0 <= k < items@.len() && (#[trigger] items@[k]).memory.vault_id.text@
                    == context.id.text@ && is_backed(items@[k].memory, sets@, files@) && passes(
                    items@[k],
                    *filter,
                    files@,
                ) && (mentions(items@[k].memory.entities@, entities@) || mentions(
                    items@[k].memory.tags@,
                    tags@,
                )) ==> picked@.contains(k as usize)
        },
{
    if let Ok(picked) = r {
        let eligible = mentioning(
            items@,
            context.id@,
            sets@,
            files@,
            entities@,
            tags@,
            *filter,
        );
        lemma_page_rows(keys(items@), eligible, false, limit as nat, 0, picked@);
        assert forall|k: int| 0 <= k < items@.len() implies (#[trigger] eligible[k] <==> (
        items@[k].memory.vault_id.text@ == context.id.text@ && is_backed(
            items@[k].memory,
            sets@,
            files@,
        ) && passes(items@[k], *filter, files@) && (mentions(
            items@[k].memory.entities@,
            entities@,
        ) || mentions(items@[k].memory.tags@, tags@)))) by {
            lemma_backed(items@[k].memory, sets@, files@);
            lemma_passes(items@[k], *filter, files@);
            lemma_mentions(items@[k].memory.entities@, entities@);
            lemma_mentions(items@[k].memory.tags@, tags@);
        }
        assert forall|i: int, j: int|
            0 <= i < j < picked@.len() implies items@[#[trigger] picked@[i] as int].memory.updated_at
            >= items@[#[trigger] picked@[j] as int].memory.updated_at && picked@[i]
            != picked@[j] by {
            assert(no_later(keys(items@)[picked@[i] as int], keys(items@)[picked@[j] as int]));
        }
        assert forall|k: int|
            picked@.len() < limit && 0 <= k < items@.len() && (
            #[trigger] items@[k]).memory.vault_id.text@ == context.id.text@ && is_backed(
                items@[k].memory,
                sets@,
                files@,
            ) && passes(items@[k], *filter, files@) && (mentions(
                items@[k].memory.entities@,
                entities@,
            ) || mentions(items@[k].memory.tags@, tags@)) implies picked@.contains(k as usize) by {
            assert(eligible[k]);
        }
    }
}

/// A text search shows hits of backed memories of the vault that pass the
/// filter, the smallest rank first.
pub proof fn law_text_searches_show_backed_hits(
    context: &VaultContext,
    items: &[StoredItem],
    sets: &[MemoryNoteSetRecord],
    files: &[FileRecord],
    fts_query: &str,
    hits: &[TextHit],
    filter: &CurrentMemoryFilter,
    limit: u32,
    r: Result<Vec<usize>, StateError>,
)
    requires
        call_ensures(
            search_fts,
            (context, items, sets, files, fts_query, hits, filter, limit),
            r,
        ),
    ensures
        r is Ok <==> 1 <= limit <= 200 && 1 <= vstd::utf8::encode_utf8(fts_query@).len() <= 16_384,
        r matches Ok(picked) ==> {
            &&& picked@.len() <= limit
            &&& forall|i: int|
                0 <= i < picked@.len() ==> (#[trigger] picked@[i]) < hits@.len() && hit_is_shown(
                    hits@[picked@[i] as int],
                    items@,
                    sets@,
                    files@,
                    *filter,
                    context.id.text@,
                )
            &&& forall|i: int, j: int|
                0 <= i < j < picked@.len() ==> hits@[#[trigger] picked@[i] as int].rank.rank()
                    <= hits@[#[trigger] picked@[j] as int].rank.rank() && picked@[i] != picked@[j]
            &&& picked@.len() < limit ==> forall|k: int|
                0 <= k < hits@.len() && hit_is_shown(
                    #[trigger] hits@[k],
                    items@,
                    sets@,
                    files@,
                    *filter,
                    context.id.text@,
                ) ==> picked@.contains(k as usize)
        },
{
    if let Ok(picked) = r {
        let eligible = crate::current_memory::reads::hits_shown(
            hits@,
            items@,
            context.id@,
            sets@,
            files@,
            *filter,
        );
        lemma_page_rows(keys(hits@), eligible, false, limit as nat, 0, picked@);
        assert forall|k: int| 0 <= k < hits@.len() implies (#[trigger] eligible[k]
            <==> hit_is_shown(
            hits@[k],
            items@,
            sets@,
            files@,
            *filter,
            context.id.text@,
        )) by {
            let rule = |item: StoredItem|
                item.is(context.id@, hits@[k].memory_id@) && item.memory.eligible(sets@, files@)
                    && filter.admits(item, files@);
            assert(eligible[k] == some_row(items@, rule));
            assert forall|i: int| 0 <= i < items@.len() implies (rule(#[trigger] items@[i]) <==> (
            items@[i].memory.vault_id.text@ == context.id.text@ && items@[i].memory.id.text@
                == hits@[k].memory_id.text@ && is_backed(items@[i].memory, sets@, files@)
                && passes(items@[i], *filter, files@))) by {
                lemma_backed(items@[i].memory, sets@, files@);
                lemma_passes(items@[i], *filter, files@);
            }
            if some_row(items@, rule) {
                let i = choose|i: int| 0 <= i < items@.len() && rule(#[trigger] items@[i]);
                assert(items@[i].memory.vault_id.text@ == context.id.text@);
            }
        }
        assert forall|i: int, j: int|
            0 <= i < j < picked@.len() implies hits@[#[trigger] picked@[i] as int].rank.rank()
            <= hits@[#[trigger] picked@[j] as int].rank.rank() && picked@[i] != picked@[j] by {
            assert(no_later(keys(hits@)[picked@[i] as int], keys(hits@)[picked@[j] as int]));
        }
        assert forall|k: int|
            picked@.len() < limit && 0 <= k < hits@.len() && hit_is_shown(
                #[trigger] hits@[k],
                items@,
                sets@,
                files@,
                *filter,
                context.id.text@,
            ) implies picked@.contains(k as usize) by {
            assert(eligible[k]);
        }
    }
}

/// Whether a hit is one of a backed memory of the vault that passes the filter.
pub open spec fn hit_is_shown(
    hit: TextHit,
    items: Seq<StoredItem>,
    sets: Seq<MemoryNoteSetRecord>,
    files: Seq<FileRecord>,
    filter: CurrentMemoryFilter,
    vault: Seq<char>,
) -> bool {
    exists|i: int|
        {
            &&& 0 <= i < items.len()
            &&& (#[trigger] items[i]).memory.vault_id.text@ == vault
            &&& items[i].memory.id.text@ == hit.memory_id.text@
            &&& is_backed(items[i].memory, sets, files)
            &&& passes(items[i], filter, files)
        }
}

/// Number of backed memories of a vault with one kind of ownership.
pub open spec fn backed_count(
    items: Seq<StoredItem>,
    sets: Seq<MemoryNoteSetRecord>,
    files: Seq<FileRecord>,
    vault: Seq<char>,
    ownership: CurrentMemoryOwnership,
) -> nat {
    items.filter(backed_rule(sets, files, vault, ownership)).len()
}

/// The rule that picks backed memories of a vault with one kind of ownership.
pub open spec fn backed_rule(
    sets: Seq<MemoryNoteSetRecord>,
    files: Seq<FileRecord>,
    vault: Seq<char>,
    ownership: CurrentMemoryOwnership,
) -> spec_fn(StoredItem) -> bool {
    |item: StoredItem|
        item.memory.vault_id.text@ == vault && is_backed(item.memory, sets, files)
            && item.memory.ownership == ownership
}

/// Counts tell the backed memories of the vault by their kind of ownership, and
/// the sets of the vault that are paused.
pub proof fn law_counts_tell_backed_memories(
    context: &VaultContext,
    items: &[StoredItem],
    sets: &[MemoryNoteSetRecord],
    files: &[FileRecord],
    r: CurrentMemoryCounts,
)
    requires
        call_ensures(counts, (context, items, sets, files), r),
    ensures
        r.explicit == backed_count(
            items@,
            sets@,
            files@,
            context.id.text@,
            CurrentMemoryOwnership::Explicit,
        ),
        r.note_derived == backed_count(
            items@,
            sets@,
            files@,
            context.id.text@,
            CurrentMemoryOwnership::NoteDerived,
        ),
        r.explicit + r.note_derived <= u64::MAX ==> r.total == r.explicit + r.note_derived,
        r.paused_sources == sets@.filter(
            |set: MemoryNoteSetRecord|
                set.vault_id.text@ == context.id.text@ && set.extraction_paused,
        ).len(),
{
    lemma_readable_rule(
        items@,
        sets@,
        files@,
        context.id@,
        CurrentMemoryOwnership::Explicit,
    );
    lemma_readable_rule(
        items@,
        sets@,
        files@,
        context.id@,
        CurrentMemoryOwnership::NoteDerived,
    );
    let paused = |set: MemoryNoteSetRecord|
        set.vault_id@ == context.id@ && set.extraction_paused;
    let named = |set: MemoryNoteSetRecord|
        set.vault_id.text@ == context.id.text@ && set.extraction_paused;
    assert(paused =~= named);
}

proof fn lemma_readable_rule(
    items: Seq<StoredItem>,
    sets: Seq<MemoryNoteSetRecord>,
    files: Seq<FileRecord>,
    vault: Seq<char>,
    ownership: CurrentMemoryOwnership,
)
    ensures
        crate::current_memory::reads::readable_count(items, vault, sets, files, ownership)
            == backed_count(items, sets, files, vault, ownership),
{
    let rule = |item: StoredItem|
        item.readable(vault, sets, files) && item.memory.ownership == ownership;
    let named = backed_rule(sets, files, vault, ownership);
    assert forall|item: StoredItem| rule(item) == #[trigger] named(item) by {
        lemma_backed(item.memory, sets, files);
    }
    assert(rule =~= named);
    assert(crate::current_memory::reads::readable_count(items, vault, sets, files, ownership)
        == items.filter(rule).len());
}

/// The items of a set are listed by their ordinals, for a set that the vault has.
pub proof fn law_set_items_are_listed_by_ordinal(
    context: &VaultContext,
    items: &[StoredItem],
    sets: &[MemoryNoteSetRecord],
    set_id: &Id,
    r: Result<Vec<usize>, StateError>,
)
    requires
        call_ensures(list_note_set_items, (context, items, sets, set_id), r),
    ensures
        r is Ok <==> exists|s: int|
            0 <= s < sets@.len() && (#[trigger] sets@[s]).vault_id.text@ == context.id.text@
                && sets@[s].id.text@ == set_id.text@,
        r matches Ok(picked) ==> {
            &&& forall|i: int|
                0 <= i < picked@.len() ==> {
                    let memory = items@[#[trigger] picked@[i] as int].memory;
                    &&& picked@[i] < items@.len()
                    &&& memory.vault_id.text@ == context.id.text@
                    &&& memory.note_set_id is Some
                    &&& memory.note_set_id->0.text@ == set_id.text@
                }
            &&& forall|i: int, j: int|
                0 <= i < j < picked@.len() ==> (#[trigger] picked@[i]) != (#[trigger] picked@[j])
                    && match (
                    items@[picked@[i] as int].memory.ordinal,
                    items@[picked@[j] as int].memory.ordinal,
                ) {
                    (Some(a), Some(b)) => a <= b,
                    (Some(_), None) => false,
                    _ => true,
                }
            &&& forall|k: int|
                0 <= k < items@.len() && (#[trigger] items@[k]).memory.vault_id.text@
                    == context.id.text@ && items@[k].memory.note_set_id is Some
                    && items@[k].memory.note_set_id->0.text@ == set_id.text@ ==> picked@.contains(
                    k as usize,
                )
        },
{
    let rule = |set: MemoryNoteSetRecord| set.is(context.id@, set_id@);
    if exists|s: int|
        0 <= s < sets@.len() && (#[trigger] sets@[s]).vault_id.text@ == context.id.text@
            && sets@[s].id.text@ == set_id.text@ {
        let s = choose|s: int|
            0 <= s < sets@.len() && (#[trigger] sets@[s]).vault_id.text@ == context.id.text@
                && sets@[s].id.text@ == set_id.text@;
        assert(rule(sets@[s]));
        assert(some_row(sets@, rule));
    }
    if let Ok(picked) = r {
        let order_keys = items@.map_values(|item: StoredItem| set_key(item));
        let eligible = items@.map_values(
            |item: StoredItem| item.in_set(context.id@, set_id@),
        );
        lemma_selection_rows(order_keys, eligible, items@.len(), picked@);
        assert forall|i: int| 0 <= i < picked@.len() implies ({
            let memory = items@[#[trigger] picked@[i] as int].memory;
            &&& picked@[i] < items@.len()
            &&& memory.vault_id.text@ == context.id.text@
            &&& memory.note_set_id is Some
            &&& memory.note_set_id->0.text@ == set_id.text@
        }) by {
            assert(eligible[picked@[i] as int]);
        }
        assert forall|i: int, j: int| 0 <= i < j < picked@.len() implies (#[trigger] picked@[i]) != (
        #[trigger] picked@[j]) && match (
            items@[picked@[i] as int].memory.ordinal,
            items@[picked@[j] as int].memory.ordinal,
        ) {
            (Some(a), Some(b)) => a <= b,
            (Some(_), None) => false,
            _ => true,
        } by {
            assert(no_later(order_keys[picked@[i] as int], order_keys[picked@[j] as int]));
        }
        assert forall|k: int|
            0 <= k < items@.len() && (#[trigger] items@[k]).memory.vault_id.text@
                == context.id.text@ && items@[k].memory.note_set_id is Some
                && items@[k].memory.note_set_id->0.text@
                == set_id.text@ implies picked@.contains(k as usize) by {
            assert(eligible[k]);
            crate::order::laws::lemma_all_listed(order_keys, eligible, picked@, k);
        }
    }
}

/// The proposal that waits for a source: the vault's oldest one that is prepared.
pub proof fn law_oldest_proposal_waits_first(
    context: &VaultContext,
    snapshots: &[MemoryNoteSetSnapshotRecord],
    source: &Id,
    r: Option<usize>,
)
    requires
        call_ensures(prepared_note_set_snapshot, (context, snapshots, source), r),
    ensures
        match r {
            Some(i) => {
                let found = snapshots@[i as int];
                &&& i < snapshots@.len()
                &&& found.vault_id.text@ == context.id.text@
                &&& found.source_file_id.text@ == source.text@
                &&& found.status@ == "prepared"@
                &&& forall|k: int|
                    0 <= k < snapshots@.len() && (#[trigger] snapshots@[k]).vault_id.text@
                        == context.id.text@ && snapshots@[k].source_file_id.text@ == source.text@
                        && snapshots@[k].status@ == "prepared"@ ==> found.created_at
                        <= snapshots@[k].created_at
            },
            None => forall|k: int|
                0 <= k < snapshots@.len() ==> !((#[trigger] snapshots@[k]).vault_id.text@
                    == context.id.text@ && snapshots@[k].source_file_id.text@ == source.text@
                    && snapshots@[k].status@ == "prepared"@),
        },
{
    if let Some(i) = r {
        let eligible = snapshots@.map_values(
            |p: MemoryNoteSetSnapshotRecord| p.pending(context.id@, source@),
        );
        let picked = seq![i];
        lemma_selection_rows(keys(snapshots@), eligible, 1, picked);
        assert forall|k: int|
            0 <= k < snapshots@.len() && (#[trigger] snapshots@[k]).vault_id.text@
                == context.id.text@ && snapshots@[k].source_file_id.text@ == source.text@
                && snapshots@[k].status@ == "prepared"@ implies snapshots@[i as int].created_at
            <= snapshots@[k].created_at by {
            assert(eligible[k]);
            if picked.contains(k as usize) {
                let n = choose|n: int| 0 <= n < picked.len() && picked[n] == k as usize;
                if k <= usize::MAX {
                    assert(i == k);
                } else {
                    assert(snapshots@.len() == snapshots.len());
                }
            } else {
                assert(picked[0] == i);
                assert(no_later(keys(snapshots@)[picked[0] as int], keys(snapshots@)[k]));
            }
        }
    } else {
        assert forall|k: int| 0 <= k < snapshots@.len() implies !((
        #[trigger] snapshots@[k]).vault_id.text@ == context.id.text@
            && snapshots@[k].source_file_id.text@ == source.text@ && snapshots@[k].status@
            == "prepared"@) by {
            assert(!snapshots@[k].pending(context.id@, source@));
        }
    }
}

/// Provenance of an item is shown oldest first, every row once.
pub proof fn law_provenance_is_shown_oldest_first(
    item: &StoredItem,
    files: &[FileRecord],
    r: Vec<(usize, Option<VaultPath>)>,
)
    requires
        call_ensures(list_sources, (item, files), r),
    ensures
        r@.len() == item.sources@.len(),
        forall|i: int| 0 <= i < r@.len() ==> (#[trigger] r@[i]).0 < item.sources@.len(),
        forall|i: int, j: int|
            0 <= i < j < r@.len() ==> (#[trigger] r@[i]).0 != (#[trigger] r@[j]).0
                && item.sources@[r@[i].0 as int].created_at <= item.sources@[r@[j].0 as int].created_at,
{
    let order = r@.map_values(|entry: (usize, Option<VaultPath>)| entry.0);
    assert forall|i: int| 0 <= i < r@.len() implies (#[trigger] r@[i]).0
        < item.sources@.len() by {
        assert(order[i] == r@[i].0);
    }
    assert forall|i: int, j: int| 0 <= i < j < r@.len() implies (#[trigger] r@[i]).0 != (
    #[trigger] r@[j]).0 && item.sources@[r@[i].0 as int].created_at
        <= item.sources@[r@[j].0 as int].created_at by {
        assert(order[i] == r@[i].0 && order[j] == r@[j].0);
        assert(crate::order::placed_before(
            keys(item.sources@),
            order[i] as int,
            order[j] as int,
        ));
        crate::order::laws::lemma_placed_no_later(
            keys(item.sources@),
            order[i] as int,
            order[j] as int,
        );
    }
}

} // verus!
