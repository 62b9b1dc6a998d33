//! What replacing, reading, listing and deciding memories does, in terms of the
//! stored rows.

use vstd::prelude::*;

use crate::domain::{Id, Revision, VaultContext, VaultPath};
use crate::error::StateError;
use crate::memory::{
    counts, decide_candidate, delete_memory_projection, find_by_content_hash, get_bundle,
    get_by_canonical_path, get_memory, insert_candidate, list_candidates, list_memories,
    mark_recalled, memory_ids_for_source, normal_term, search_fts, upsert_diagnostic,
    MemoryDiagnosticRecord, MemoryTextHit, put_idempotency, recent_memories, replace_bundle,
    replace_relations, search_terms, set_status, shown, MemoryBundle, MemoryCandidateRecord,
    MemoryCounts, MemoryFilter, MemoryIdempotencyRecord, MemoryRecord, MemoryRelationRecord,
    MemorySourceRecord, MemoryState, StoredMemory,
};
use crate::order::keys;
use crate::order::laws::{
    is_listing, lemma_page_listing, lemma_page_rows, lemma_placed_no_later, lemma_selection_rows,
    no_later,
};
use crate::rows::laws::lemma_kept;
use crate::rows::{first_index, lemma_first_index, some_row};
use crate::search::lowercased;
use crate::text::{text_before, trimmed};

verus! {

/// Whether a stored memory holds what a bundle says, at a revision and time.
pub open spec fn memory_holds(
    row: StoredMemory,
    bundle: MemoryBundle,
    revision: int,
    now: i64,
) -> bool {
    &&& row.memory.id == bundle.memory.id
    &&& row.memory.vault_id == bundle.memory.vault_id
    &&& row.memory.memory_type == bundle.memory.memory_type
    &&& row.memory.status == bundle.memory.status
    &&& row.memory.content == bundle.memory.content
    &&& row.memory.normalized_content == bundle.memory.normalized_content
    &&& row.memory.content_hash == bundle.memory.content_hash
    &&& row.memory.importance == bundle.memory.importance
    &&& row.memory.confidence == bundle.memory.confidence
    &&& row.memory.origin == bundle.memory.origin
    &&& row.memory.revision.value == revision
    &&& row.memory.canonical_file_id == bundle.memory.canonical_file_id
    &&& row.memory.canonical_path == bundle.memory.canonical_path
    &&& row.memory.canonical_revision == bundle.memory.canonical_revision
    &&& row.memory.valid_from == bundle.memory.valid_from
    &&& row.memory.valid_to == bundle.memory.valid_to
    &&& row.memory.extraction == bundle.memory.extraction
    &&& row.memory.updated_at == now
    &&& row.memory.last_recalled_at == bundle.memory.last_recalled_at
    &&& row.memory.recall_count == bundle.memory.recall_count
    &&& row.sources@.len() == bundle.sources@.len()
    &&& forall|i: int|
        0 <= i < bundle.sources@.len() ==> source_holds(
            #[trigger] row.sources@[i],
            bundle.sources@[i],
            bundle.memory.id,
        )
    &&& forall|term: String| #[trigger]
        row.entities@.contains(term) <==> bundle.entities@.contains(term) && lowercased(
            trimmed(term@),
        ).len() > 0
    &&& forall|term: String| #[trigger]
        row.tags@.contains(term) <==> bundle.tags@.contains(term) && lowercased(
            trimmed(term@),
        ).len() > 0
}

/// Whether a stored provenance row is a given one, for a memory.
pub open spec fn source_holds(row: MemorySourceRecord, source: MemorySourceRecord, memory: Id) -> bool {
    &&& row.id == source.id
    &&& row.vault_id == source.vault_id
    &&& row.memory_id == memory
    &&& row.source_type == source.source_type
    &&& row.note_file_id == source.note_file_id
    &&& row.note_path == source.note_path
    &&& row.note_revision == source.note_revision
    &&& row.heading_path == source.heading_path
    &&& row.start_line == source.start_line
    &&& row.end_line == source.end_line
    &&& row.excerpt_hash == source.excerpt_hash
    &&& row.actor_id == source.actor_id
    &&& row.created_at == source.created_at
}

/// A replaced bundle is stored as it is given, in the place of the vault's memory
/// of its identity: one revision further and with its creation time, or new at
/// the revision that it brings. No other memory changes.
pub proof fn law_replacing_a_bundle_changes_that_memory_alone(
    context: &VaultContext,
    state: MemoryState,
    bundle: MemoryBundle,
    expected: Option<Revision>,
    root_path: bool,
    now: i64,
    r: Result<MemoryState, StateError>,
)
    requires
        call_ensures(replace_bundle, (context, state, bundle, expected, root_path, now), r),
    ensures
        r matches Ok(after) ==> exists|at: int|
            {
                &&& 0 <= at < after.memories@.len()
                &&& (#[trigger] after.memories@[at]).memory.vault_id.text@ == context.id.text@
                &&& if at < state.memories@.len() {
                    &&& state.memories@[at].memory.vault_id.text@ == context.id.text@
                    &&& state.memories@[at].memory.id.text@ == bundle.memory.id.text@
                    &&& expected matches Some(seen) ==> seen == state.memories@[at].memory.revision
                    &&& memory_holds(
                        after.memories@[at],
                        bundle,
                        state.memories@[at].memory.revision.value + 1,
                        now,
                    )
                    &&& after.memories@[at].memory.created_at
                        == state.memories@[at].memory.created_at
                    &&& after.memories@.len() == state.memories@.len()
                } else {
                    &&& expected is None
                    &&& bundle.memory.revision.value >= 1
                    &&& memory_holds(
                        after.memories@[at],
                        bundle,
                        bundle.memory.revision.value as int,
                        now,
                    )
                    &&& after.memories@[at].memory.created_at == bundle.memory.created_at
                    &&& after.memories@.len() == state.memories@.len() + 1
                    &&& forall|k: int|
                        0 <= k < state.memories@.len() ==> !((
                        #[trigger] state.memories@[k]).memory.vault_id.text@ == context.id.text@
                            && state.memories@[k].memory.id.text@ == bundle.memory.id.text@)
                }
                &&& forall|k: int|
                    0 <= k < state.memories@.len() && k != at ==> #[trigger] after.memories@[k]
                        == state.memories@[k]
            },
{
    if let Ok(after) = r {
        let rule = |stored: StoredMemory| stored.is(context.id@, bundle.memory.id@);
        lemma_first_index(state.memories@, rule);
        let at = match first_index(state.memories@, rule) {
            Some(i) => i,
            None => state.memories@.len() as int,
        };
        lemma_kept(bundle.entities@, |value: String| normal_term(value@).len() > 0);
        lemma_kept(bundle.tags@, |value: String| normal_term(value@).len() > 0);
        assert forall|i: int| 0 <= i < bundle.sources@.len() implies source_holds(
            #[trigger] after.memories@[at].sources@[i],
            bundle.sources@[i],
            bundle.memory.id,
        ) by {}
        assert(after.memories@[at].memory.vault_id.text@ == context.id.text@);
    }
}

/// The relations that start at a replaced memory are exactly those of the
/// bundle; all others stay.
pub proof fn law_replacing_a_bundle_replaces_its_relations(
    context: &VaultContext,
    state: MemoryState,
    bundle: MemoryBundle,
    expected: Option<Revision>,
    root_path: bool,
    now: i64,
    r: Result<MemoryState, StateError>,
)
    requires
        call_ensures(replace_bundle, (context, state, bundle, expected, root_path, now), r),
    ensures
        r matches Ok(after) ==> forall|relation: MemoryRelationRecord| #[trigger]
            after.relations@.contains(relation) <==> bundle.relations@.contains(relation) || (
            state.relations@.contains(relation) && !(relation.vault_id.text@ == context.id.text@
                && relation.source_memory_id.text@ == bundle.memory.id.text@)),
{
    if let Ok(after) = r {
        lemma_relations(
            state.relations@,
            context.id@,
            bundle.memory.id@,
            bundle.relations@,
        );
    }
}

proof fn lemma_relations(
    before: Seq<MemoryRelationRecord>,
    vault: Seq<char>,
    id: Seq<char>,
    new: Seq<MemoryRelationRecord>,
)
    ensures
        forall|relation: MemoryRelationRecord| #[trigger]
            crate::memory::relations_replaced(before, vault, id, new).contains(relation)
                <==> new.contains(relation) || (before.contains(relation) && !(
            relation.vault_id.text@ == vault && relation.source_memory_id.text@ == id)),
{
    let rule = crate::memory::starts_elsewhere(vault, id);
    lemma_kept(before, rule);
    let kept = before.filter(rule);
    let after = crate::memory::relations_replaced(before, vault, id, new);
    assert(after =~= kept + new);
    assert forall|relation: MemoryRelationRecord| #[trigger] after.contains(relation) <==> (
    new.contains(relation) || (before.contains(relation) && !(relation.vault_id.text@ == vault
        && relation.source_memory_id.text@ == id))) by {
        if kept.contains(relation) {
            let k = choose|k: int| 0 <= k < kept.len() && kept[k] == relation;
            assert(after[k] == relation);
        }
        if new.contains(relation) {
            let k = choose|k: int| 0 <= k < new.len() && new[k] == relation;
            assert(after[kept.len() + k] == relation);
        }
        if after.contains(relation) {
            let k = choose|k: int| 0 <= k < after.len() && after[k] == relation;
            if k < kept.len() {
                assert(kept[k] == relation);
            } else {
                assert(new[k - kept.len()] == relation);
            }
        }
    }
}

/// A bundle is refused exactly where it belongs to another vault, has no content
/// or too much, names the root, holds a score or provenance out of bounds, saw
/// another revision, or cannot be stored.
pub proof fn law_bundles_are_accepted_exactly(
    context: &VaultContext,
    state: MemoryState,
    bundle: MemoryBundle,
    expected: Option<Revision>,
    root_path: bool,
    now: i64,
    r: Result<MemoryState, StateError>,
    at: int,
)
    requires
        call_ensures(replace_bundle, (context, state, bundle, expected, root_path, now), r),
        0 <= at < state.memories@.len(),
        state.memories@[at].memory.vault_id.text@ == context.id.text@,
        state.memories@[at].memory.id.text@ == bundle.memory.id.text@,
        forall|k: int|
            0 <= k < at ==> !((#[trigger] state.memories@[k]).memory.vault_id.text@
                == context.id.text@ && state.memories@[k].memory.id.text@
                == bundle.memory.id.text@),
        bundle.sources@.len() == 0,
    ensures
        r is Ok <==> {
            &&& bundle.memory.vault_id.text@ == context.id.text@
            &&& trimmed(bundle.memory.content@).len() > 0
            &&& vstd::utf8::encode_utf8(bundle.memory.content@).len() <= 65_536
            &&& vstd::utf8::encode_utf8(bundle.memory.normalized_content@).len() <= 65_536
            &&& !root_path
            &&& bundle.memory.importance.in_unit()
            &&& bundle.memory.confidence.in_unit()
            &&& expected matches Some(seen) ==> seen == state.memories@[at].memory.revision
            &&& state.memories@[at].memory.revision.value < i64::MAX
            &&& bundle.memory.canonical_revision matches Some(revision) ==> revision.value
                <= i64::MAX
            &&& bundle.memory.recall_count <= i64::MAX
            &&& forall|i: int|
                0 <= i < bundle.relations@.len() ==> (
                #[trigger] bundle.relations@[i]).vault_id.text@ == context.id.text@
        },
{
    let rule = |stored: StoredMemory| stored.is(context.id@, bundle.memory.id@);
    assert forall|k: int| 0 <= k < at implies !rule(#[trigger] state.memories@[k]) by {}
    crate::rows::lemma_first_index_is(state.memories@, rule, at);
    let foreign = |relation: MemoryRelationRecord| relation.vault_id@ != context.id@;
    if some_row(bundle.relations@, foreign) {
        let i = choose|i: int|
            0 <= i < bundle.relations@.len() && foreign(#[trigger] bundle.relations@[i]);
        assert(bundle.relations@[i].vault_id.text@ != context.id.text@);
    } else {
        assert forall|i: int| 0 <= i < bundle.relations@.len() implies (
        #[trigger] bundle.relations@[i]).vault_id.text@ == context.id.text@ by {
            assert(!foreign(bundle.relations@[i]));
        }
    }
}

/// A read gives the vault's memory of the identity, with all that belongs to it:
/// every provenance row, oldest first, every term and every relation from it.
pub proof fn law_bundles_are_read_whole(
    context: &VaultContext,
    state: &MemoryState,
    id: &Id,
    r: Option<MemoryBundle>,
)
    requires
        call_ensures(get_bundle, (context, state, id), r),
    ensures
        r is None <==> forall|k: int|
            0 <= k < state.memories@.len() ==> !((
            #[trigger] state.memories@[k]).memory.vault_id.text@ == context.id.text@
                && state.memories@[k].memory.id.text@ == id.text@),
        r matches Some(bundle) ==> exists|k: int|
            {
                &&& 0 <= k < state.memories@.len()
                &&& (#[trigger] state.memories@[k]).memory == bundle.memory
                &&& bundle.memory.vault_id.text@ == context.id.text@
                &&& bundle.memory.id.text@ == id.text@
                &&& bundle.sources@.len() == state.memories@[k].sources@.len()
                &&& forall|i: int, j: int|
                    0 <= i < j < bundle.sources@.len() ==> (
                    #[trigger] bundle.sources@[i]).created_at <= (
                    #[trigger] bundle.sources@[j]).created_at
                &&& bundle.entities@.len() == state.memories@[k].entities@.len()
                &&& forall|term: String| #[trigger]
                    bundle.entities@.contains(term) <==> state.memories@[k].entities@.contains(term)
                &&& bundle.tags@.len() == state.memories@[k].tags@.len()
                &&& forall|term: String| #[trigger]
                    bundle.tags@.contains(term) <==> state.memories@[k].tags@.contains(term)
                &&& forall|relation: MemoryRelationRecord| #[trigger]
                    bundle.relations@.contains(relation) <==> state.relations@.contains(relation)
                        && relation.vault_id.text@ == context.id.text@
                        && relation.source_memory_id.text@ == id.text@
            },
{
    let rule = |stored: StoredMemory| stored.is(context.id@, id@);
    lemma_first_index(state.memories@, rule);
    if let Some(bundle) = r {
        let k = first_index(state.memories@, rule)->0;
        let stored = state.memories@[k];
        assert(rule(stored));
        lemma_sources_shown(stored.sources@, bundle.sources@);
        lemma_terms_shown(stored.entities@, bundle.entities@);
        lemma_terms_shown(stored.tags@, bundle.tags@);
        lemma_relations_shown(
            state.relations@,
            context.id@,
            stored.memory.id@,
            bundle.relations@,
        );
        assert(stored.memory == bundle.memory);
    }
}

proof fn lemma_sources_shown(stored: Seq<MemorySourceRecord>, shown: Seq<MemorySourceRecord>)
    requires
        crate::memory::sources_shown(stored, shown),
    ensures
        shown.len() == stored.len(),
        forall|i: int, j: int|
            0 <= i < j < shown.len() ==> (#[trigger] shown[i]).created_at <= (
            #[trigger] shown[j]).created_at,
{
    let order = choose|order: Seq<usize>|
        {
            &&& #[trigger] crate::order::is_order(keys(stored), order)
            &&& shown.len() == order.len()
            &&& forall|k: int|
                0 <= k < shown.len() ==> (#[trigger] shown[k]).same_as(stored[order[k] as int])
        };
    assert forall|i: int, j: int| 0 <= i < j < shown.len() implies (#[trigger] shown[i]).created_at
        <= (#[trigger] shown[j]).created_at by {
        assert(crate::order::placed_before(keys(stored), order[i] as int, order[j] as int));
        lemma_placed_no_later(keys(stored), order[i] as int, order[j] as int);
        assert(shown[i].same_as(stored[order[i] as int]));
        assert(shown[j].same_as(stored[order[j] as int]));
    }
}

proof fn lemma_terms_shown(stored: Seq<String>, shown: Seq<String>)
    requires
        crate::memory::terms_shown(stored, shown),
    ensures
        shown.len() == stored.len(),
        forall|term: String| #[trigger] shown.contains(term) <==> stored.contains(term),
{
    let (forms, order) = choose|forms: Seq<String>, order: Seq<usize>|
        {
            &&& #[trigger] crate::memory::are_forms(stored, forms)
            &&& #[trigger] crate::order::is_order(keys(forms), order)
            &&& shown.len() == order.len()
            &&& forall|k: int|
                0 <= k < shown.len() ==> #[trigger] shown[k] == stored[order[k] as int]
        };
    assert forall|term: String| #[trigger] shown.contains(term) <==> stored.contains(term) by {
        if shown.contains(term) {
            let k = choose|k: int| 0 <= k < shown.len() && shown[k] == term;
            assert(stored[order[k] as int] == term);
        }
        if stored.contains(term) {
            let k = choose|k: int| 0 <= k < stored.len() && stored[k] == term;
            assert(crate::order::lists(order, k));
            let i = choose|i: int| 0 <= i < order.len() && #[trigger] order[i] == k;
            assert(shown[i] == term);
        }
    }
}

proof fn lemma_relations_shown(
    stored: Seq<MemoryRelationRecord>,
    vault: Seq<char>,
    id: Seq<char>,
    shown: Seq<MemoryRelationRecord>,
)
    requires
        crate::memory::relations_shown(stored, vault, id, shown),
    ensures
        forall|relation: MemoryRelationRecord| #[trigger]
            shown.contains(relation) <==> stored.contains(relation) && relation.vault_id.text@
                == vault && relation.source_memory_id.text@ == id,
{
    let keys = crate::memory::relation_keys(stored);
    let eligible = crate::memory::relations_from(stored, vault, id);
    let picked = choose|picked: Seq<usize>|
        {
            &&& #[trigger] crate::order::is_selection(keys, eligible, stored.len(), picked)
            &&& shown.len() == picked.len()
            &&& forall|k: int|
                0 <= k < shown.len() ==> #[trigger] shown[k] == stored[picked[k] as int]
        };
    lemma_selection_rows(keys, eligible, stored.len(), picked);
    assert forall|relation: MemoryRelationRecord| #[trigger] shown.contains(relation) <==> (
    stored.contains(relation) && relation.vault_id.text@ == vault && relation.source_memory_id.text@
        == id) by {
        if shown.contains(relation) {
            let k = choose|k: int| 0 <= k < shown.len() && shown[k] == relation;
            assert(eligible[picked[k] as int]);
            assert(stored[picked[k] as int] == relation);
        }
        if stored.contains(relation) && relation.vault_id.text@ == vault
            && relation.source_memory_id.text@ == id {
            let k = choose|k: int| 0 <= k < stored.len() && stored[k] == relation;
            assert(eligible[k]);
            crate::order::laws::lemma_all_listed(keys, eligible, picked, k);
            let i = choose|i: int| 0 <= i < picked.len() && #[trigger] picked[i] == k;
            assert(shown[i] == relation);
        }
    }
}

/// Whether a memory passes every part of a filter, field by field.
pub open spec fn passes(stored: StoredMemory, filter: MemoryFilter) -> bool {
    &&& filter.statuses@.len() > 0 ==> exists|i: int|
        0 <= i < filter.statuses@.len() && (#[trigger] filter.statuses@[i])@
            == stored.memory.status@
    &&& filter.memory_types@.len() > 0 ==> exists|i: int|
        0 <= i < filter.memory_types@.len() && (#[trigger] filter.memory_types@[i])@
            == stored.memory.memory_type@
    &&& filter.tag matches Some(tag) ==> has_term(stored.tags@, tag@)
    &&& filter.entity matches Some(entity) ==> has_term(stored.entities@, entity@)
    &&& filter.source_path matches Some(prefix) ==> exists|i: int, rest: Seq<char>|
        0 <= i < stored.sources@.len() && (#[trigger] stored.sources@[i]).note_path is Some
            && stored.sources@[i].note_path->0.text@ == #[trigger] (prefix@ + rest)
    &&& filter.valid_at matches Some(at) ==> {
        &&& stored.memory.valid_from matches Some(from) ==> from <= at
        &&& stored.memory.valid_to matches Some(to) ==> at < to
    }
    &&& filter.min_importance matches Some(least) ==> stored.memory.importance.at_least(least)
}

/// Whether one of the terms is a given one, but for surrounding white space and
/// upper case.
pub open spec fn has_term(terms: Seq<String>, wanted: Seq<char>) -> bool {
    exists|i: int|
        0 <= i < terms.len() && lowercased(trimmed((#[trigger] terms[i])@)) == lowercased(
            trimmed(wanted),
        )
}

proof fn lemma_has_term(terms: Seq<String>, wanted: Seq<char>)
    ensures
        crate::memory::has_form(terms, normal_term(wanted)) <==> has_term(terms, wanted),
{
    let rule = |term: String| normal_term(term@) == normal_term(wanted);
    if has_term(terms, wanted) {
        let i = choose|i: int|
            0 <= i < terms.len() && lowercased(trimmed((#[trigger] terms[i])@)) == lowercased(
                trimmed(wanted),
            );
        assert(rule(terms[i]));
    }
    if some_row(terms, rule) {
        let i = choose|i: int| 0 <= i < terms.len() && rule(#[trigger] terms[i]);
        assert(lowercased(trimmed(terms[i]@)) == lowercased(trimmed(wanted)));
    }
}

proof fn lemma_passes(stored: StoredMemory, filter: MemoryFilter)
    ensures
        filter.admits(stored) <==> passes(stored, filter),
{
    if let Some(tag) = filter.tag {
        lemma_has_term(stored.tags@, tag@);
    }
    if let Some(entity) = filter.entity {
        lemma_has_term(stored.entities@, entity@);
    }
    if let Some(prefix) = filter.source_path {
        let rule = |source: MemorySourceRecord|
            source.note_path is Some && crate::text::has_prefix(
                source.note_path->0@,
                prefix@,
            );
        if some_row(stored.sources@, rule) {
            let i = choose|i: int|
                0 <= i < stored.sources@.len() && rule(#[trigger] stored.sources@[i]);
            let path = stored.sources@[i].note_path->0.text@;
            let rest = path.skip(prefix@.len() as int);
            assert(path =~= prefix@ + rest);
        }
        if passes(stored, filter) {
            let (i, rest) = choose|i: int, rest: Seq<char>|
                0 <= i < stored.sources@.len() && (#[trigger] stored.sources@[i]).note_path is Some
                    && stored.sources@[i].note_path->0.text@ == #[trigger] (prefix@ + rest);
            let path = stored.sources@[i].note_path->0.text@;
            assert(path.take(prefix@.len() as int) =~= prefix@);
            assert(rule(stored.sources@[i]));
        }
    }
}

/// A listing shows memories of the vault that pass the filter, each once, the
/// latest update first and of one time by identity. A first page that is not
/// full shows all of them.
pub proof fn law_memory_listings_pass_the_filter(
    context: &VaultContext,
    memories: &[StoredMemory],
    filter: &MemoryFilter,
    limit: u32,
    offset: u32,
    r: Result<Vec<usize>, StateError>,
)
    requires
        call_ensures(list_memories, (context, memories, filter, limit, offset), r),
    ensures
        r is Ok <==> 1 <= limit <= 200 && offset <= 1_000_000,
        r matches Ok(picked) ==> {
            &&& picked@.len() <= limit
            &&& forall|i: int|
                0 <= i < picked@.len() ==> (#[trigger] picked@[i]) < memories@.len()
                    && memories@[picked@[i] as int].memory.vault_id.text@ == context.id.text@
                    && passes(memories@[picked@[i] as int], *filter)
            &&& forall|i: int, j: int|
                0 <= i < j < picked@.len() ==> (#[trigger] picked@[i]) != (#[trigger] picked@[j])
                    && {
                    let a = memories@[picked@[i] as int].memory;
                    let b = memories@[picked@[j] as int].memory;
                    &&& a.updated_at >= b.updated_at
                    &&& a.updated_at == b.updated_at ==> a.id.text@ == b.id.text@ || text_before(
                        a.id.text@,
                        b.id.text@,
                    )
                }
            &&& offset == 0 && picked@.len() < limit ==> forall|k: int|
                0 <= k < memories@.len() && (#[trigger] memories@[k]).memory.vault_id.text@
                    == context.id.text@ && passes(memories@[k], *filter) ==> picked@.contains(
                    k as usize,
                )
        },
{
    if let Ok(picked) = r {
        lemma_shown(context, memories, filter, limit, offset, picked@);
    }
}

proof fn lemma_shown(
    context: &VaultContext,
    memories: &[StoredMemory],
    filter: &MemoryFilter,
    limit: u32,
    offset: u32,
    picked: Seq<usize>,
)
    requires
        crate::order::is_page(
            keys(memories@),
            shown(memories@, context.id@, *filter),
            false,
            limit as nat,
            offset as nat,
            picked,
        ),
    ensures
        picked.len() <= limit,
        forall|i: int|
            0 <= i < picked.len() ==> (#[trigger] picked[i]) < memories@.len()
                && memories@[picked[i] as int].memory.vault_id.text@ == context.id.text@ && passes(
                memories@[picked[i] as int],
                *filter,
            ),
        forall|i: int, j: int|
            0 <= i < j < picked.len() ==> (#[trigger] picked[i]) != (#[trigger] picked[j]) && {
                let a = memories@[picked[i] as int].memory;
                let b = memories@[picked[j] as int].memory;
                &&& a.updated_at >= b.updated_at
                &&& a.updated_at == b.updated_at ==> a.id.text@ == b.id.text@ || text_before(
                    a.id.text@,
                    b.id.text@,
                )
            },
        offset == 0 && picked.len() < limit ==> forall|k: int|
            0 <= k < memories@.len() && (#[trigger] memories@[k]).memory.vault_id.text@
                == context.id.text@ && passes(memories@[k], *filter) ==> picked.contains(
                k as usize,
            ),
{
    let eligible = shown(memories@, context.id@, *filter);
    lemma_page_rows(keys(memories@), eligible, false, limit as nat, offset as nat, picked);
    assert forall|k: int| 0 <= k < memories@.len() implies (#[trigger] eligible[k] <==> (
    memories@[k].memory.vault_id.text@ == context.id.text@ && passes(memories@[k], *filter))) by {
        lemma_passes(memories@[k], *filter);
    }
    assert forall|i: int, j: int| 0 <= i < j < picked.len() implies (#[trigger] picked[i]) != (
    #[trigger] picked[j]) && {
        let a = memories@[picked[i] as int].memory;
        let b = memories@[picked[j] as int].memory;
        &&& a.updated_at >= b.updated_at
        &&& a.updated_at == b.updated_at ==> a.id.text@ == b.id.text@ || text_before(
            a.id.text@,
            b.id.text@,
        )
    } by {
        assert(no_later(keys(memories@)[picked[i] as int], keys(memories@)[picked[j] as int]));
    }
    assert forall|k: int|
        offset == 0 && picked.len() < limit && 0 <= k < memories@.len() && (
        #[trigger] memories@[k]).memory.vault_id.text@ == context.id.text@ && passes(
            memories@[k],
            *filter,
        ) implies picked.contains(k as usize) by {
        assert(eligible[k]);
    }
}

/// Recent memories are the first page of the listing.
pub proof fn law_recent_memories_are_the_first_page(
    context: &VaultContext,
    memories: &[StoredMemory],
    filter: &MemoryFilter,
    limit: u32,
    recent: Result<Vec<usize>, StateError>,
    listed: Result<Vec<usize>, StateError>,
)
    requires
        call_ensures(recent_memories, (context, memories, filter, limit), recent),
        call_ensures(list_memories, (context, memories, filter, limit, 0u32), listed),
    ensures
        recent is Ok <==> listed is Ok,
        recent is Ok ==> recent->Ok_0@ == listed->Ok_0@,
{
    if recent is Ok {
        let order_keys = keys(memories@);
        let eligible = shown(memories@, context.id@, *filter);
        crate::order::laws::lemma_page_parts(
            order_keys,
            eligible,
            false,
            limit as nat,
            0,
            recent->Ok_0@,
            listed->Ok_0@,
        );
        assert(recent->Ok_0@.skip(0) =~= recent->Ok_0@);
    }
}

/// A search for terms shows memories of the vault that have one of the entities
/// or one of the tags and pass the filter: the most important first, then the
/// latest update.
pub proof fn law_term_searches_rank_by_importance(
    context: &VaultContext,
    memories: &[StoredMemory],
    entities: &[String],
    tags: &[String],
    filter: &MemoryFilter,
    limit: u32,
    r: Result<Vec<usize>, StateError>,
)
    requires
        call_ensures(search_terms, (context, memories, entities, tags, filter, limit), r),
    ensures
        r is Ok <==> 1 <= limit <= 200,
        r matches Ok(picked) ==> {
            &&& picked@.len() <= limit
            &&& forall|i: int|
                0 <= i < picked@.len() ==> {
                    let stored = memories@[#[trigger] picked@[i] as int];
                    &&& picked@[i] < memories@.len()
                    &&& stored.memory.vault_id.text@ == context.id.text@
                    &&& passes(stored, *filter)
                    &&& has_any_term(stored.entities@, entities@) || has_any_term(
                        stored.tags@,
                        tags@,
                    )
                }
            &&& forall|i: int, j: int|
                0 <= i < j < picked@.len() ==> (#[trigger] picked@[i]) != (#[trigger] picked@[j])
                    && {
                    let a = memories@[picked@[i] as int].memory;
                    let b = memories@[picked@[j] as int].memory;
                    &&& a.importance.rank() >= b.importance.rank()
                    &&& a.importance.rank() == b.importance.rank() ==> a.updated_at >= b.updated_at
                }
            &&& picked@.len() < limit ==> forall|k: int|
                0 <= k < memories@.len() && (#[trigger] memories@[k]).memory.vault_id.text@
                    == context.id.text@ && passes(memories@[k], *filter) && (has_any_term(
                    memories@[k].entities@,
                    entities@,
                ) || has_any_term(memories@[k].tags@, tags@)) ==> picked@.contains(k as usize)
        },
{
    if let Ok(picked) = r {
        let order_keys = memories@.map_values(
            |stored: StoredMemory| crate::memory::term_key(stored),
        );
        let eligible = crate::memory::mentioning(
            memories@,
            context.id@,
            entities@,
            tags@,
            *filter,
        );
        lemma_page_rows(order_keys, eligible, false, limit as nat, 0, picked@);
        assert forall|k: int| 0 <= k < memories@.len() implies (#[trigger] eligible[k] <==> (
        memories@[k].memory.vault_id.text@ == context.id.text@ && passes(memories@[k], *filter)
            && (has_any_term(memories@[k].entities@, entities@) || has_any_term(
            memories@[k].tags@,
            tags@,
        )))) by {
            lemma_passes(memories@[k], *filter);
            lemma_any_term(memories@[k].entities@, entities@);
            lemma_any_term(memories@[k].tags@, tags@);
        }
        assert forall|i: int, j: int| 0 <= i < j < picked@.len() implies (#[trigger] picked@[i]) != (
        #[trigger] picked@[j]) && {
            let a = memories@[picked@[i] as int].memory;
            let b = memories@[picked@[j] as int].memory;
            &&& a.importance.rank() >= b.importance.rank()
            &&& a.importance.rank() == b.importance.rank() ==> a.updated_at >= b.updated_at
        } by {
            assert(no_later(order_keys[picked@[i] as int], order_keys[picked@[j] as int]));
        }
        assert forall|k: int|
            picked@.len() < limit && 0 <= k < memories@.len() && (
            #[trigger] memories@[k]).memory.vault_id.text@ == context.id.text@ && passes(
                memories@[k],
                *filter,
            ) && (has_any_term(memories@[k].entities@, entities@) || has_any_term(
                memories@[k].tags@,
                tags@,
            )) implies picked@.contains(k as usize) by {
            assert(eligible[k]);
        }
    }
}

/// Whether one of the wanted terms is not empty and one of those stored.
pub open spec fn has_any_term(stored: Seq<String>, wanted: Seq<String>) -> bool {
    exists|w: int|
        0 <= w < wanted.len() && lowercased(trimmed((#[trigger] wanted[w])@)).len() > 0 && has_term(
            stored,
            wanted[w]@,
        )
}

proof fn lemma_any_term(stored: Seq<String>, wanted: Seq<String>)
    ensures
        crate::memory::asked_for(stored, wanted) <==> has_any_term(stored, wanted),
{
    let rule = |value: String|
        normal_term(value@).len() > 0 && crate::memory::has_form(stored, normal_term(value@));
    if has_any_term(stored, wanted) {
        let w = choose|w: int|
            0 <= w < wanted.len() && lowercased(trimmed((#[trigger] wanted[w])@)).len() > 0
                && has_term(stored, wanted[w]@);
        lemma_has_term(stored, wanted[w]@);
        assert(rule(wanted[w]));
    }
    if some_row(wanted, rule) {
        let w = choose|w: int| 0 <= w < wanted.len() && rule(#[trigger] wanted[w]);
        lemma_has_term(stored, wanted[w]@);
        assert(lowercased(trimmed(wanted[w]@)).len() > 0);
    }
}

/// A memory is read by its identity or its canonical path, in its vault alone.
pub proof fn law_memories_are_read_in_their_vault(
    context: &VaultContext,
    memories: &[StoredMemory],
    id: &Id,
    path: &VaultPath,
    by_id: Option<usize>,
    by_path: Option<usize>,
)
    requires
        call_ensures(get_memory, (context, memories, id), by_id),
        call_ensures(get_by_canonical_path, (context, memories, path), by_path),
    ensures
        match by_id {
            Some(i) => i < memories@.len() && memories@[i as int].memory.vault_id.text@
                == context.id.text@ && memories@[i as int].memory.id.text@ == id.text@,
            None => forall|k: int|
                0 <= k < memories@.len() ==> !((#[trigger] memories@[k]).memory.vault_id.text@
                    == context.id.text@ && memories@[k].memory.id.text@ == id.text@),
        },
        match by_path {
            Some(i) => i < memories@.len() && memories@[i as int].memory.vault_id.text@
                == context.id.text@ && memories@[i as int].memory.canonical_path is Some
                && memories@[i as int].memory.canonical_path->0.text@ == path.text@,
            None => forall|k: int|
                0 <= k < memories@.len() ==> !((#[trigger] memories@[k]).memory.vault_id.text@
                    == context.id.text@ && memories@[k].memory.canonical_path is Some
                    && memories@[k].memory.canonical_path->0.text@ == path.text@),
        },
{
    lemma_first_index(memories@, |stored: StoredMemory| stored.is(context.id@, id@));
    lemma_first_index(
        memories@,
        |stored: StoredMemory|
            stored.memory.vault_id@ == context.id@ && stored.memory.canonical_path is Some
                && stored.memory.canonical_path->0@ == path@,
    );
}

/// Memories with a content hash: those of the vault, in one of the states asked
/// for, or in any.
pub proof fn law_equal_content_is_found(
    context: &VaultContext,
    memories: &[StoredMemory],
    content_hash: &str,
    statuses: &[String],
    r: Vec<usize>,
    k: int,
)
    requires
        call_ensures(find_by_content_hash, (context, memories, content_hash, statuses), r),
        0 <= k < memories@.len(),
    ensures
        r@.contains(k as usize) <==> {
            &&& memories@[k].memory.vault_id.text@ == context.id.text@
            &&& memories@[k].memory.content_hash@ == content_hash@
            &&& statuses@.len() > 0 ==> exists|s: int|
                0 <= s < statuses@.len() && (#[trigger] statuses@[s])@ == memories@[k].memory.status@
        },
{
    let rule = |stored: StoredMemory|
        stored.memory.vault_id@ == context.id@ && stored.memory.content_hash@ == content_hash@ && (
        statuses@.len() == 0 || crate::text::listed(statuses@, stored.memory.status@));
    let marked = memories@.map_values(rule);
    assert(memories@.len() == memories.len());
    if r@.contains(k as usize) {
        let i = choose|i: int| 0 <= i < r@.len() && r@[i] == k as usize;
        assert(marked[r@[i] as int]);
    }
    if rule(memories@[k]) {
        assert(marked[k]);
    }
}

/// A state is set one revision further, where the vault's memory was seen at its
/// revision and the state is a known one; nothing else of the memory changes.
pub proof fn law_states_are_set_one_revision_further(
    context: &VaultContext,
    id: &Id,
    current: Option<MemoryRecord>,
    status: String,
    expected: Option<Revision>,
    now: i64,
    r: Result<MemoryRecord, StateError>,
)
    requires
        call_ensures(set_status, (context, id, current, status, expected, now), r),
    ensures
        r is Ok <==> {
            &&& status@ == "candidate"@ || status@ == "active"@ || status@ == "superseded"@
                || status@ == "stale"@ || status@ == "archived"@ || status@ == "rejected"@
                || status@ == "quarantined"@
            &&& current is Some
            &&& current->0.vault_id.text@ == context.id.text@
            &&& current->0.id.text@ == id.text@
            &&& expected matches Some(seen) ==> seen == current->0.revision
            &&& current->0.revision.value < i64::MAX
        },
        r matches Ok(after) ==> {
            &&& after.status == status
            &&& after.revision.value == current->0.revision.value + 1
            &&& after.updated_at == now
            &&& after.id == current->0.id
            &&& after.vault_id == current->0.vault_id
            &&& after.content == current->0.content
            &&& after.created_at == current->0.created_at
            &&& after.importance == current->0.importance
            &&& after.canonical_path == current->0.canonical_path
            &&& after.recall_count == current->0.recall_count
        },
{
}

/// Relations are replaced for a memory that the vault has, by relations that
/// start at it.
pub proof fn law_relations_are_replaced_for_their_source(
    context: &VaultContext,
    state: MemoryState,
    source: &Id,
    relations: Vec<MemoryRelationRecord>,
    r: Result<MemoryState, StateError>,
)
    requires
        call_ensures(replace_relations, (context, state, source, relations), r),
    ensures
        r matches Ok(after) ==> {
            &&& after.memories == state.memories
            &&& exists|k: int|
                0 <= k < state.memories@.len() && (
                #[trigger] state.memories@[k]).memory.vault_id.text@ == context.id.text@
                    && state.memories@[k].memory.id.text@ == source.text@
            &&& forall|relation: MemoryRelationRecord| #[trigger]
                after.relations@.contains(relation) <==> relations@.contains(relation) || (
                state.relations@.contains(relation) && !(relation.vault_id.text@
                    == context.id.text@ && relation.source_memory_id.text@ == source.text@))
            &&& forall|i: int|
                0 <= i < relations@.len() ==> (#[trigger] relations@[i]).vault_id.text@
                    == context.id.text@ && relations@[i].source_memory_id.text@ == source.text@
                    && relations@[i].confidence.in_unit()
        },
{
    if let Ok(after) = r {
        let rule = |stored: StoredMemory| stored.is(context.id@, source@);
        lemma_first_index(state.memories@, rule);
        let k = first_index(state.memories@, rule)->0;
        assert(state.memories@[k].memory.vault_id.text@ == context.id.text@);
        lemma_relations(state.relations@, context.id@, source@, relations@);
        lemma_relations_accepted(relations@, context.id@, source@);
    }
}

proof fn lemma_relations_accepted(
    relations: Seq<MemoryRelationRecord>,
    vault: Seq<char>,
    source: Seq<char>,
)
    requires
        crate::memory::relations_fault(relations, vault, source) is None,
    ensures
        forall|i: int|
            0 <= i < relations.len() ==> (#[trigger] relations[i]).vault_id.text@ == vault
                && relations[i].source_memory_id.text@ == source
                && relations[i].confidence.in_unit(),
    decreases relations.len(),
{
    if relations.len() > 0 {
        let fewer = relations.drop_last();
        lemma_relations_accepted(fewer, vault, source);
        assert forall|i: int| 0 <= i < relations.len() implies (
        #[trigger] relations[i]).vault_id.text@ == vault && relations[i].source_memory_id.text@
            == source && relations[i].confidence.in_unit() by {
            if i < fewer.len() {
                assert(fewer[i] == relations[i]);
            }
        }
    }
}

/// A deleted memory is gone from its vault; all others stay.
pub proof fn law_deleting_a_memory_takes_that_memory_alone(
    context: &VaultContext,
    memories: Vec<StoredMemory>,
    id: &Id,
    r: Result<Vec<StoredMemory>, StateError>,
)
    requires
        call_ensures(delete_memory_projection, (context, memories, id), r),
    ensures
        r is Ok <==> exists|k: int|
            0 <= k < memories@.len() && (#[trigger] memories@[k]).memory.vault_id.text@
                == context.id.text@ && memories@[k].memory.id.text@ == id.text@,
        r matches Ok(after) ==> forall|stored: StoredMemory| #[trigger]
            after@.contains(stored) <==> memories@.contains(stored) && !(
            stored.memory.vault_id.text@ == context.id.text@ && stored.memory.id.text@ == id.text@),
{
    let rule = |stored: StoredMemory| stored.is(context.id@, id@);
    lemma_first_index(memories@, rule);
    if let Some(k) = first_index(memories@, rule) {
        assert(memories@[k].memory.vault_id.text@ == context.id.text@);
    }
    lemma_kept(memories@, |stored: StoredMemory| !stored.is(context.id@, id@));
}

/// A candidate is kept once under its fingerprint: where the vault has it, that
/// one stays; else the given one is added.
pub proof fn law_candidates_are_kept_once(
    context: &VaultContext,
    candidates: Vec<MemoryCandidateRecord>,
    candidate: MemoryCandidateRecord,
    r: Result<(Vec<MemoryCandidateRecord>, usize), StateError>,
)
    requires
        call_ensures(insert_candidate, (context, candidates, candidate), r),
    ensures
        r is Ok <==> candidate.vault_id.text@ == context.id.text@ && candidate.confidence.in_unit()
            && candidate.importance.in_unit() && candidate.source_revision.value <= i64::MAX,
        r matches Ok((after, at)) ==> {
            &&& at < after@.len()
            &&& after@[at as int].vault_id.text@ == context.id.text@
            &&& after@[at as int].extraction_fingerprint@ == candidate.extraction_fingerprint@
            &&& at < candidates@.len() ==> after@ == candidates@
            &&& at >= candidates@.len() ==> after@ == candidates@.push(candidate) && forall|k: int|
                0 <= k < candidates@.len() ==> !((#[trigger] candidates@[k]).vault_id.text@
                    == context.id.text@ && candidates@[k].extraction_fingerprint@
                    == candidate.extraction_fingerprint@)
        },
{
    let rule = |known: MemoryCandidateRecord|
        crate::memory::has_fingerprint(
            known,
            context.id@,
            candidate.extraction_fingerprint@,
        );
    lemma_first_index(candidates@, rule);
}

/// A decision is one of three, on a candidate of the vault, and is kept with its
/// reason and time.
pub proof fn law_decisions_are_kept_with_their_reason(
    context: &VaultContext,
    candidate: Option<MemoryCandidateRecord>,
    decision: String,
    reason: Option<String>,
    now: i64,
    r: Result<MemoryCandidateRecord, StateError>,
)
    requires
        call_ensures(decide_candidate, (context, candidate, decision, reason, now), r),
    ensures
        r is Ok <==> (decision@ == "promoted"@ || decision@ == "rejected"@ || decision@
            == "review"@) && candidate is Some && candidate->0.vault_id.text@ == context.id.text@,
        r matches Ok(after) ==> {
            &&& after.decision == Some(decision)
            &&& after.decision_reason == reason
            &&& after.reviewed_at == Some(now)
            &&& after.id == candidate->0.id
            &&& after.vault_id == candidate->0.vault_id
            &&& after.candidate == candidate->0.candidate
            &&& after.extraction_fingerprint == candidate->0.extraction_fingerprint
            &&& after.created_at == candidate->0.created_at
        },
{
}

/// The first answer under a key stays; a key that is new in the vault takes the
/// given answer.
pub proof fn law_first_answers_stay(
    context: &VaultContext,
    records: Vec<MemoryIdempotencyRecord>,
    key: String,
    request_hash: String,
    memory_id: Id,
    outcome: String,
    now: i64,
    r: Vec<MemoryIdempotencyRecord>,
)
    requires
        call_ensures(
            put_idempotency,
            (context, records, key, request_hash, memory_id, outcome, now),
            r,
        ),
    ensures
        (exists|k: int|
            0 <= k < records@.len() && (#[trigger] records@[k]).vault_id.text@ == context.id.text@
                && records@[k].idempotency_key@ == key@) ==> r@ == records@,
        !(exists|k: int|
            0 <= k < records@.len() && (#[trigger] records@[k]).vault_id.text@ == context.id.text@
                && records@[k].idempotency_key@ == key@) ==> {
            &&& r@.len() == records@.len() + 1
            &&& r@.drop_last() == records@
            &&& r@.last().vault_id == context.id
            &&& r@.last().idempotency_key == key
            &&& r@.last().request_hash == request_hash
            &&& r@.last().memory_id == memory_id
            &&& r@.last().outcome == outcome
            &&& r@.last().created_at == now
        },
{
    let rule = |record: MemoryIdempotencyRecord|
        crate::memory::under_key(record, context.id@, key@);
    lemma_first_index(records@, rule);
    if let Some(k) = first_index(records@, rule) {
        assert(records@[k].vault_id.text@ == context.id.text@);
    } else {
        assert(r@.drop_last() =~= records@);
    }
    assert forall|k: int|
        0 <= k < records@.len() && (#[trigger] records@[k]).vault_id.text@ == context.id.text@
            && records@[k].idempotency_key@ == key@ implies rule(records@[k]) by {}
}

/// Counts tell a vault's memories by state, and its candidates that wait for a
/// decision.
pub proof fn law_memories_are_counted_by_state(
    context: &VaultContext,
    memories: &[StoredMemory],
    candidates: &[MemoryCandidateRecord],
    r: MemoryCounts,
)
    requires
        call_ensures(counts, (context, memories, candidates), r),
    ensures
        r.active == memories@.filter(in_state_of(context.id.text@, "active"@)).len(),
        r.stale == memories@.filter(in_state_of(context.id.text@, "stale"@)).len(),
        r.superseded == memories@.filter(in_state_of(context.id.text@, "superseded"@)).len(),
        r.archived == memories@.filter(in_state_of(context.id.text@, "archived"@)).len(),
        r.quarantined == memories@.filter(in_state_of(context.id.text@, "quarantined"@)).len(),
        r.total == memories@.filter(
            |stored: StoredMemory| stored.memory.vault_id.text@ == context.id.text@,
        ).len(),
        r.candidate == candidates@.filter(
            |candidate: MemoryCandidateRecord|
                candidate.vault_id.text@ == context.id.text@ && (candidate.decision is None
                    || candidate.decision->0@ == "review"@),
        ).len(),
{
    lemma_state_rule(context.id@, "active"@);
    lemma_state_rule(context.id@, "stale"@);
    lemma_state_rule(context.id@, "superseded"@);
    lemma_state_rule(context.id@, "archived"@);
    lemma_state_rule(context.id@, "quarantined"@);
    let all = |stored: StoredMemory| stored.memory.vault_id@ == context.id@;
    let named = |stored: StoredMemory| stored.memory.vault_id.text@ == context.id.text@;
    assert(all =~= named);
    let open = |candidate: MemoryCandidateRecord| candidate.undecided(context.id@);
    let waiting = |candidate: MemoryCandidateRecord|
        candidate.vault_id.text@ == context.id.text@ && (candidate.decision is None
            || candidate.decision->0@ == "review"@);
    assert(open =~= waiting);
}

/// The rule that picks a vault's memories in one state.
pub open spec fn in_state_of(vault: Seq<char>, status: Seq<char>) -> spec_fn(StoredMemory) -> bool {
    |stored: StoredMemory|
        stored.memory.vault_id.text@ == vault && stored.memory.status@ == status
}

proof fn lemma_state_rule(vault: Seq<char>, status: Seq<char>)
    ensures
        forall|memories: Seq<StoredMemory>| #[trigger]
            crate::memory::status_count(memories, vault, status) == memories.filter(
                in_state_of(vault, status),
            ).len(),
{
    let counted = crate::memory::has_status(vault, status);
    assert(counted =~= in_state_of(vault, status));
    assert forall|memories: Seq<StoredMemory>| #[trigger]
        crate::memory::status_count(memories, vault, status) == memories.filter(
            in_state_of(vault, status),
        ).len() by {
        assert(crate::memory::status_count(memories, vault, status) == crate::rows::count(
            memories,
            counted,
        ));
    }
}

/// A text search shows hits on memories of the vault that pass the filter, the
/// best rank first and of one rank by identity, none left out for a worse one.
pub proof fn law_text_searches_show_the_best_hits(
    context: &VaultContext,
    memories: &[StoredMemory],
    fts_query: &str,
    hits: &[MemoryTextHit],
    filter: &MemoryFilter,
    limit: u32,
    r: Result<Vec<usize>, StateError>,
)
    requires
        call_ensures(search_fts, (context, memories, fts_query, hits, filter, limit), r),
    ensures
        r is Ok <==> 1 <= limit <= 200 && 1 <= vstd::utf8::encode_utf8(fts_query@).len() <= 4096,
        r matches Ok(picked) ==> is_listing(
            picked@,
            hits@.len(),
            limit as nat,
            |k: int| is_hit(hits@[k], memories@, context.id.text@, *filter),
            |a: int, b: int|
                {
                    &&& hits@[a].rank.rank() <= hits@[b].rank.rank()
                    &&& hits@[a].rank.rank() == hits@[b].rank.rank() ==> hits@[a].memory_id.text@
                        == hits@[b].memory_id.text@ || text_before(
                        hits@[a].memory_id.text@,
                        hits@[b].memory_id.text@,
                    )
                },
        ),
{
    if let Ok(picked) = r {
        let shown = |k: int| is_hit(hits@[k], memories@, context.id.text@, *filter);
        let before = |a: int, b: int|
            {
                &&& hits@[a].rank.rank() <= hits@[b].rank.rank()
                &&& hits@[a].rank.rank() == hits@[b].rank.rank() ==> hits@[a].memory_id.text@
                    == hits@[b].memory_id.text@ || text_before(
                    hits@[a].memory_id.text@,
                    hits@[b].memory_id.text@,
                )
            };
        let eligible = crate::memory::hits_shown(hits@, memories@, context.id@, *filter);
        assert forall|k: int| 0 <= k < hits@.len() implies #[trigger] eligible[k] == shown(k) by {
            lemma_hit(hits@[k], memories@, context.id@, *filter);
        }
        lemma_page_listing(keys(hits@), eligible, limit as nat, picked@, shown, before);
    }
}

/// Whether a hit is on a memory of the vault that passes the filter.
pub open spec fn is_hit(
    hit: MemoryTextHit,
    memories: Seq<StoredMemory>,
    vault: Seq<char>,
    filter: MemoryFilter,
) -> bool {
    exists|m: int|
        0 <= m < memories.len() && (#[trigger] memories[m]).memory.vault_id.text@ == vault
            && memories[m].memory.id.text@ == hit.memory_id.text@ && passes(memories[m], filter)
}

proof fn lemma_hit(
    hit: MemoryTextHit,
    memories: Seq<StoredMemory>,
    vault: Seq<char>,
    filter: MemoryFilter,
)
    ensures
        some_row(
            memories,
            |stored: StoredMemory| stored.is(vault, hit.memory_id@) && filter.admits(stored),
        ) <==> is_hit(hit, memories, vault, filter),
{
    let rule = |stored: StoredMemory| stored.is(vault, hit.memory_id@) && filter.admits(stored);
    if some_row(memories, rule) {
        let m = choose|m: int| 0 <= m < memories.len() && rule(#[trigger] memories[m]);
        lemma_passes(memories[m], filter);
        assert(memories[m].memory.vault_id.text@ == vault);
    }
    if is_hit(hit, memories, vault, filter) {
        let m = choose|m: int|
            0 <= m < memories.len() && (#[trigger] memories[m]).memory.vault_id.text@ == vault
                && memories[m].memory.id.text@ == hit.memory_id.text@ && passes(
                memories[m],
                filter,
            );
        lemma_passes(memories[m], filter);
        assert(rule(memories[m]));
    }
}

/// Candidates are listed latest first, those of the vault with the decision asked
/// for, or with any.
pub proof fn law_candidates_are_listed_latest_first(
    context: &VaultContext,
    candidates: &[MemoryCandidateRecord],
    decision: Option<&str>,
    limit: u32,
    r: Result<Vec<usize>, StateError>,
)
    requires
        call_ensures(list_candidates, (context, candidates, decision, limit, 0u32), r),
    ensures
        r is Ok <==> 1 <= limit <= 200,
        r matches Ok(picked) ==> is_listing(
            picked@,
            candidates@.len(),
            limit as nat,
            |k: int|
                {
                    &&& candidates@[k].vault_id.text@ == context.id.text@
                    &&& decision is Some ==> candidates@[k].decision is Some
                        && candidates@[k].decision->0@ == decision->0@
                },
            |a: int, b: int| candidates@[a].created_at >= candidates@[b].created_at,
        ),
{
    if let Ok(picked) = r {
        let shown = |k: int|
            {
                &&& candidates@[k].vault_id.text@ == context.id.text@
                &&& decision is Some ==> candidates@[k].decision is Some
                    && candidates@[k].decision->0@ == decision->0@
            };
        let before = |a: int, b: int| candidates@[a].created_at >= candidates@[b].created_at;
        let eligible = candidates@.map_values(
            |candidate: MemoryCandidateRecord|
                crate::memory::candidate_shown(candidate, context.id@, decision),
        );
        lemma_page_listing(keys(candidates@), eligible, limit as nat, picked@, shown, before);
    }
}

/// The memories of a note are those with a provenance row of it in the vault,
/// each named once.
pub proof fn law_memories_of_a_note_are_named_once(
    context: &VaultContext,
    memories: &[StoredMemory],
    file_id: &Id,
    r: Vec<String>,
    k: int,
    s: int,
)
    requires
        call_ensures(memory_ids_for_source, (context, memories, file_id), r),
        0 <= k < memories@.len(),
        0 <= s < memories@[k].sources@.len(),
        memories@[k].sources@[s].vault_id.text@ == context.id.text@,
        memories@[k].sources@[s].note_file_id is Some,
        memories@[k].sources@[s].note_file_id->0.text@ == file_id.text@,
    ensures
        exists|i: int| 0 <= i < r@.len() && (#[trigger] r@[i])@ == memories@[k].memory.id.text@,
        forall|i: int, j: int|
            0 <= i < j < r@.len() ==> text_before((#[trigger] r@[i])@, (#[trigger] r@[j])@),
{
    let of_note = |source: MemorySourceRecord|
        source.vault_id@ == context.id@ && source.note_file_id is Some && source.note_file_id->0@
            == file_id@;
    assert(of_note(memories@[k].sources@[s]));
    assert(some_row(memories@[k].sources@, of_note));
    let id = memories@[k].memory.id@;
    let rule = |stored: StoredMemory|
        stored.memory.id@ == id && crate::memory::sourced_from(
            stored,
            context.id@,
            file_id@,
        );
    assert(crate::memory::sourced_from(memories@[k], context.id@, file_id@));
    assert(rule(memories@[k]));
    assert(some_row(memories@, rule));
    assert(crate::text::listed(r@, id));
    let named = crate::text::texts(r@);
    assert forall|i: int, j: int| 0 <= i < j < r@.len() implies text_before(
        (#[trigger] r@[i])@,
        (#[trigger] r@[j])@,
    ) by {
        assert(text_before(named[i], named[j]));
    }
}

/// Every named memory has a provenance row of the note.
pub proof fn law_named_memories_come_from_the_note(
    context: &VaultContext,
    memories: &[StoredMemory],
    file_id: &Id,
    r: Vec<String>,
    i: int,
)
    requires
        call_ensures(memory_ids_for_source, (context, memories, file_id), r),
        0 <= i < r@.len(),
    ensures
        exists|k: int, s: int|
            0 <= k < memories@.len() && 0 <= s < memories@[k].sources@.len() && {
                let source = #[trigger] memories@[k].sources@[s];
                &&& memories@[k].memory.id.text@ == r@[i]@
                &&& source.vault_id.text@ == context.id.text@
                &&& source.note_file_id is Some
                &&& source.note_file_id->0.text@ == file_id.text@
            },
{
    let id = r@[i]@;
    assert(crate::text::listed(r@, id));
    let rule = |stored: StoredMemory|
        stored.memory.id@ == id && crate::memory::sourced_from(
            stored,
            context.id@,
            file_id@,
        );
    assert(some_row(memories@, rule));
    let k = choose|k: int| 0 <= k < memories@.len() && rule(#[trigger] memories@[k]);
    let of_note = |source: MemorySourceRecord|
        source.vault_id@ == context.id@ && source.note_file_id is Some && source.note_file_id->0@
            == file_id@;
    assert(some_row(memories@[k].sources@, of_note));
    let s = choose|s: int|
        0 <= s < memories@[k].sources@.len() && of_note(#[trigger] memories@[k].sources@[s]);
    let source = memories@[k].sources@[s];
    assert(of_note(source));
}

/// Recalls of distinct memories are counted once each, with their time; the
/// others, and those of other vaults, keep their counts. Nothing else changes.
pub proof fn law_recalls_are_counted_once_each(
    context: &VaultContext,
    memories: Vec<StoredMemory>,
    memory_ids: &[Id],
    now: i64,
    r: Result<Vec<StoredMemory>, StateError>,
    k: int,
)
    requires
        call_ensures(mark_recalled, (context, memories, memory_ids, now), r),
        0 <= k < memories@.len(),
        memories@[k].memory.recall_count < u64::MAX,
        forall|i: int, j: int|
            0 <= i < j < memory_ids@.len() ==> (#[trigger] memory_ids@[i]).text@ != (
            #[trigger] memory_ids@[j]).text@,
    ensures
        r is Ok <==> memory_ids@.len() <= 200,
        r matches Ok(after) ==> {
            let named = memories@[k].memory.vault_id.text@ == context.id.text@ && exists|i: int|
                0 <= i < memory_ids@.len() && (#[trigger] memory_ids@[i]).text@
                    == memories@[k].memory.id.text@;
            &&& after@.len() == memories@.len()
            &&& after@[k].memory.recall_count == memories@[k].memory.recall_count + if named {
                1int
            } else {
                0
            }
            &&& named ==> after@[k].memory.last_recalled_at == Some(now)
            &&& !named ==> after@[k] == memories@[k]
            &&& after@[k].memory.id == memories@[k].memory.id
            &&& after@[k].memory.content == memories@[k].memory.content
            &&& after@[k].memory.status == memories@[k].memory.status
            &&& after@[k].memory.revision == memories@[k].memory.revision
            &&& after@[k].sources == memories@[k].sources
            &&& after@[k].tags == memories@[k].tags
            &&& after@[k].entities == memories@[k].entities
        },
{
    if let Ok(after) = r {
        lemma_recalled(memories@[k], context.id@, memory_ids@, now);
    }
}

proof fn lemma_recalled(stored: StoredMemory, vault: Seq<char>, ids: Seq<Id>, now: i64)
    requires
        stored.memory.recall_count < u64::MAX,
        forall|i: int, j: int|
            0 <= i < j < ids.len() ==> (#[trigger] ids[i]).text@ != (#[trigger] ids[j]).text@,
    ensures
        ({
            let after = crate::memory::recalled(stored, vault, ids, now);
            let named = stored.memory.vault_id.text@ == vault && exists|i: int|
                0 <= i < ids.len() && (#[trigger] ids[i]).text@ == stored.memory.id.text@;
            if named {
                after == (StoredMemory {
                    memory: MemoryRecord {
                        last_recalled_at: Some(now),
                        recall_count: (stored.memory.recall_count + 1) as u64,
                        ..stored.memory
                    },
                    ..stored
                })
            } else {
                after == stored
            }
        }),
    decreases ids.len(),
{
    if ids.len() > 0 {
        let fewer = ids.drop_last();
        lemma_recalled(stored, vault, fewer, now);
        assert forall|i: int| 0 <= i < fewer.len() implies fewer[i] == #[trigger] ids[i] by {}
        if exists|i: int| 0 <= i < fewer.len() && (#[trigger] fewer[i]).text@ == stored.memory.id.text@ {
            let i = choose|i: int|
                0 <= i < fewer.len() && (#[trigger] fewer[i]).text@ == stored.memory.id.text@;
            assert(ids[i].text@ == stored.memory.id.text@);
            assert(ids[ids.len() - 1].text@ != ids[i].text@);
        }
        if exists|i: int| 0 <= i < ids.len() && (#[trigger] ids[i]).text@ == stored.memory.id.text@ {
            let i = choose|i: int|
                0 <= i < ids.len() && (#[trigger] ids[i]).text@ == stored.memory.id.text@;
            if i < fewer.len() {
                assert(fewer[i] == ids[i]);
            }
        }
    }
}

/// A finding on a path takes the place of the vault's earlier one there.
pub proof fn law_latest_finding_stands(
    context: &VaultContext,
    existing: Option<MemoryDiagnosticRecord>,
    path: VaultPath,
    code: String,
    now: i64,
    r: MemoryDiagnosticRecord,
)
    requires
        call_ensures(upsert_diagnostic, (context, existing, path, code, now), r),
    ensures
        r.vault_id.text@ == context.id.text@,
        r.path.text@ == path.text@,
        r.code == code,
        r.updated_at == now,
        (existing matches Some(row) ==> (row.vault_id.text@ == context.id.text@ && row.path.text@
            == path.text@ ==> r.id == row.id)),
{
}

} // verus!
