//! What publishing formal objects and working through their pairs does, in terms
//! of the stored rows.

use vstd::prelude::*;

use crate::current_memory::formal::{
    prepare_formal_operation, FormalMemoryDocument, FormalMemoryOperation, PreparedOperation,
};
use crate::current_memory::formal_commit::{
    commit_formal_operation, find_in_flight, finish_formal_operation, flies_for,
    formal_operation_committed, FormalPublication, OperationState,
};
use crate::current_memory::maintenance::{
    dedup_inputs_covered, finish_formal_pair, formal_examined, formal_status, has_dedup_work,
    pending_formal_pairs, queue_formal_pairs, save_equivalence_rewrite, start_formal_pair,
    DedupProgress, ExaminedInput, FormalMaintenanceStatus, FormalPair, MaintenanceRow,
    PairCandidate, PairQueue,
};
use crate::current_memory::note_sets::NoteMemoryState;
use crate::current_memory::{CurrentMemoryOwnership, MemoryNoteSetRecord, StoredItem};
use crate::domain::{Id, VaultContext};
use crate::error::StateError;
use crate::order::keys;
use crate::order::laws::{is_listing, lemma_selection_listing};
use crate::rows::laws::lemma_kept;
use crate::rows::{first_index, lemma_first_index, some_row};

verus! {

/// Only the operation that the vault has in flight is committed. It is marked
/// then, where it stands, and no other operation changes.
pub proof fn law_only_the_operation_in_flight_is_committed(
    context: &VaultContext,
    operations: Vec<OperationState>,
    state: NoteMemoryState,
    documents: Vec<FormalMemoryDocument>,
    op: FormalMemoryOperation,
    now: i64,
    r: Result<FormalPublication, StateError>,
)
    requires
        call_ensures(
            commit_formal_operation,
            (context, operations, state, documents, op, now),
            r,
        ),
    ensures
        r matches Ok(after) ==> {
            &&& exists|k: int|
                0 <= k < operations@.len() && (#[trigger] operations@[k]).vault_id.text@
                    == context.id.text@ && operations@[k].operation_id@ == op.id@
            &&& after.operations@.len() == operations@.len()
            &&& forall|k: int|
                0 <= k < operations@.len() ==> {
                    let own = operations@[k].vault_id.text@ == context.id.text@
                        && operations@[k].operation_id@ == op.id@;
                    &&& (#[trigger] after.operations@[k]).vault_id == operations@[k].vault_id
                    &&& after.operations@[k].operation_id == operations@[k].operation_id
                    &&& own ==> after.operations@[k].committed
                    &&& !own ==> after.operations@[k].committed == operations@[k].committed
                }
        },
{
    if r is Ok {
        lemma_first_index(operations@, flies_for(context.id@));
        let k = first_index(operations@, flies_for(context.id@))->0;
        assert(operations@[k].vault_id.text@ == context.id.text@);
    }
}

/// A finished operation is gone, and no other one is.
pub proof fn law_finished_operations_are_gone(
    context: &VaultContext,
    operations: Vec<OperationState>,
    id: &str,
    r: Vec<OperationState>,
)
    requires
        call_ensures(finish_formal_operation, (context, operations, id), r),
    ensures
        forall|row: OperationState| #[trigger]
            r@.contains(row) <==> operations@.contains(row) && !(row.vault_id.text@
                == context.id.text@ && row.operation_id@ == id@),
{
    lemma_kept(
        operations@,
        |row: OperationState| !(row.vault_id@ == context.id@ && row.operation_id@ == id@),
    );
}

/// The operation in flight is one of the vault, found wherever there is one.
pub proof fn law_operations_fly_for_their_vault(
    context: &VaultContext,
    operations: &[OperationState],
    r: Option<usize>,
    committed: bool,
)
    requires
        call_ensures(find_in_flight, (context, operations), r),
        call_ensures(formal_operation_committed, (context, operations), committed),
    ensures
        r is Some <==> exists|k: int|
            0 <= k < operations@.len() && (#[trigger] operations@[k]).vault_id.text@
                == context.id.text@,
        committed ==> exists|k: int|
            0 <= k < operations@.len() && (#[trigger] operations@[k]).vault_id.text@
                == context.id.text@ && operations@[k].committed,
{
    let rule = flies_for(context.id@);
    lemma_first_index(operations@, rule);
    if let Some(k) = first_index(operations@, rule) {
        assert(operations@[k].vault_id.text@ == context.id.text@);
    }
    assert forall|k: int|
        0 <= k < operations@.len() && (#[trigger] operations@[k]).vault_id.text@
            == context.id.text@ implies rule(operations@[k]) by {}
}

/// Whether a pair waits in a vault.
pub open spec fn waits(pair: FormalPair, vault: Id) -> bool {
    pair.vault_id.text@ == vault.text@ && !pair.done
}

/// Pending pairs are those of the vault that are not done: the least tried first,
/// then the more urgent.
pub proof fn law_least_tried_pairs_come_first(
    context: &VaultContext,
    pairs: &[FormalPair],
    limit: u32,
    r: Result<Vec<usize>, StateError>,
)
    requires
        call_ensures(pending_formal_pairs, (context, pairs, limit), r),
    ensures
        r is Ok <==> 1 <= limit <= 200,
        r matches Ok(picked) ==> is_listing(
            picked@,
            pairs@.len(),
            limit as nat,
            |k: int| waits(pairs@[k], context.id),
            |a: int, b: int|
                {
                    &&& pairs@[a].attempt_sequence <= pairs@[b].attempt_sequence
                    &&& pairs@[a].attempt_sequence == pairs@[b].attempt_sequence
                        ==> pairs@[a].priority >= pairs@[b].priority
                },
        ),
{
    if let Ok(picked) = r {
        lemma_selection_listing(
            keys(pairs@),
            pairs@.map_values(|pair: FormalPair| pair.pending(context.id@)),
            limit as nat,
            picked@,
            |k: int| waits(pairs@[k], context.id),
            |a: int, b: int|
                {
                    &&& pairs@[a].attempt_sequence <= pairs@[b].attempt_sequence
                    &&& pairs@[a].attempt_sequence == pairs@[b].attempt_sequence
                        ==> pairs@[a].priority >= pairs@[b].priority
                },
        );
    }
}

/// A pair that is finished is done; no other pair changes.
pub proof fn law_finishing_a_pair_is_noted(
    context: &VaultContext,
    pairs: Vec<FormalPair>,
    key: &str,
    r: Vec<FormalPair>,
)
    requires
        call_ensures(finish_formal_pair, (context, pairs, key), r),
    ensures
        r@.len() == pairs@.len(),
        forall|k: int|
            0 <= k < pairs@.len() ==> if pairs@[k].vault_id.text@ == context.id.text@
                && pairs@[k].pair_key@ == key@ {
                &&& (#[trigger] r@[k]).done
                &&& r@[k].pair_key == pairs@[k].pair_key
                &&& r@[k].left_id == pairs@[k].left_id
                &&& r@[k].right_id == pairs@[k].right_id
                &&& r@[k].attempt_sequence == pairs@[k].attempt_sequence
                &&& r@[k].priority == pairs@[k].priority
            } else {
                r@[k] == pairs@[k]
            },
{
}

/// A pair that is started goes behind every pair that waits in the vault; no
/// other pair changes.
pub proof fn law_started_pairs_go_last(
    context: &VaultContext,
    pairs: Vec<FormalPair>,
    key: &str,
    r: Option<Vec<FormalPair>>,
)
    requires
        crate::current_memory::maintenance::latest_turn(pairs@, context.id@) < i64::MAX,
        call_ensures(start_formal_pair, (context, pairs, key), r),
    ensures
        r is Some <==> exists|k: int|
            0 <= k < pairs@.len() && waits(#[trigger] pairs@[k], context.id) && pairs@[k].pair_key@
                == key@,
        r matches Some(after) ==> after@.len() == pairs@.len() && forall|k: int|
            0 <= k < pairs@.len() ==> if waits(pairs@[k], context.id) && pairs@[k].pair_key@
                == key@ {
                &&& (#[trigger] after@[k]).pair_key == pairs@[k].pair_key
                &&& !after@[k].done
                &&& forall|j: int|
                    0 <= j < pairs@.len() && waits(#[trigger] pairs@[j], context.id)
                        ==> pairs@[j].attempt_sequence < after@[k].attempt_sequence
            } else {
                after@[k] == pairs@[k]
            },
{
    let rule = |pair: FormalPair| pair.is(context.id@, key@) && pair.pending(context.id@);
    if some_row(pairs@, rule) {
        let k = choose|k: int| 0 <= k < pairs@.len() && rule(#[trigger] pairs@[k]);
        assert(waits(pairs@[k], context.id));
    }
    assert forall|k: int|
        0 <= k < pairs@.len() && waits(#[trigger] pairs@[k], context.id) && pairs@[k].pair_key@
            == key@ implies rule(pairs@[k]) by {}
    lemma_turns(pairs@, context.id);
}

proof fn lemma_turns(pairs: Seq<FormalPair>, vault: Id)
    ensures
        crate::current_memory::maintenance::latest_turn(pairs, vault@) >= 0,
        forall|j: int|
            0 <= j < pairs.len() && waits(#[trigger] pairs[j], vault) ==> pairs[j].attempt_sequence
                <= crate::current_memory::maintenance::latest_turn(pairs, vault@),
    decreases pairs.len(),
{
    if pairs.len() > 0 {
        let fewer = pairs.drop_last();
        lemma_turns(fewer, vault);
        assert forall|j: int|
            0 <= j < pairs.len() && waits(#[trigger] pairs[j], vault) implies
            pairs[j].attempt_sequence <= crate::current_memory::maintenance::latest_turn(
            pairs,
            vault@,
        ) by {
            if j < fewer.len() {
                assert(fewer[j] == pairs[j]);
            }
        }
    }
}

/// Queueing the pairs of an input notes it as examined under its fingerprint, in
/// the place of an earlier note, and takes it off the new inputs.
pub proof fn law_queued_inputs_are_examined(
    context: &VaultContext,
    queue: PairQueue,
    id: &Id,
    fingerprint: String,
    candidates: Vec<PairCandidate>,
    r: PairQueue,
)
    requires
        call_ensures(queue_formal_pairs, (context, queue, id, fingerprint, candidates), r),
    ensures
        forall|input: Id| #[trigger]
            r.new_inputs@.contains(input) <==> queue.new_inputs@.contains(input) && input.text@
                != id.text@,
        r.examined@.len() > 0,
        r.examined@.last().vault_id == context.id,
        r.examined@.last().contribution_id == *id,
        r.examined@.last().fingerprint == fingerprint,
        forall|row: ExaminedInput| #[trigger]
            r.examined@.drop_last().contains(row) <==> queue.examined@.contains(row) && !(
            row.vault_id.text@ == context.id.text@ && row.contribution_id.text@ == id.text@),
{
    lemma_inputs_left(queue.new_inputs@, *id);
    let vault = context.id;
    let input = *id;
    let rule = |row: ExaminedInput| !row.of_input(vault@, input@);
    lemma_kept(queue.examined@, rule);
    assert(r.examined@.drop_last() =~= queue.examined@.filter(rule));
}

proof fn lemma_inputs_left(inputs: Seq<Id>, id: Id)
    ensures
        forall|input: Id| #[trigger]
            crate::current_memory::maintenance::other_inputs(inputs, id@).contains(input)
                <==> inputs.contains(input) && input.text@ != id.text@,
{
    let rule = |input: Id| input@ != id@;
    lemma_kept(inputs, rule);
    assert(crate::current_memory::maintenance::other_inputs(inputs, id@) == inputs.filter(rule));
}

/// Inputs are covered exactly where the vault's last pass covered them under
/// their fingerprint and no pair, new input or operation is left.
pub proof fn law_covered_inputs_leave_no_work(
    context: &VaultContext,
    maintenance: &Option<MaintenanceRow>,
    fingerprint: &str,
    pairs: &[FormalPair],
    new_inputs: &[Id],
    operation: bool,
    r: bool,
)
    requires
        call_ensures(
            dedup_inputs_covered,
            (context, maintenance, fingerprint, pairs, new_inputs, operation),
            r,
        ),
    ensures
        r <==> {
            &&& maintenance is Some
            &&& maintenance->0.status@ == "covered_candidates"@
            &&& maintenance->0.fingerprint@ == fingerprint@
            &&& forall|k: int| 0 <= k < pairs@.len() ==> !waits(#[trigger] pairs@[k], context.id)
            &&& new_inputs@.len() == 0
            &&& !operation
        },
{
    lemma_none_waits(pairs@, context.id);
}

proof fn lemma_none_waits(pairs: Seq<FormalPair>, vault: Id)
    ensures
        some_row(pairs, |pair: FormalPair| pair.pending(vault@)) <==> exists|k: int|
            0 <= k < pairs.len() && waits(#[trigger] pairs[k], vault),
{
    let rule = |pair: FormalPair| pair.pending(vault@);
    if some_row(pairs, rule) {
        let k = choose|k: int| 0 <= k < pairs.len() && rule(#[trigger] pairs[k]);
        assert(waits(pairs[k], vault));
    }
    if exists|k: int| 0 <= k < pairs.len() && waits(#[trigger] pairs[k], vault) {
        let k = choose|k: int| 0 <= k < pairs.len() && waits(#[trigger] pairs[k], vault);
        assert(rule(pairs[k]));
    }
}

/// An input counts as examined where a note of the vault has its fingerprint.
pub proof fn law_examined_inputs_have_their_fingerprint(
    context: &VaultContext,
    examined: &[ExaminedInput],
    id: &Id,
    fingerprint: &str,
    r: bool,
)
    requires
        call_ensures(formal_examined, (context, examined, id, fingerprint), r),
    ensures
        r <==> exists|k: int|
            0 <= k < examined@.len() && (#[trigger] examined@[k]).vault_id.text@
                == context.id.text@ && examined@[k].contribution_id.text@ == id.text@
                && examined@[k].fingerprint@ == fingerprint@,
{
    let rule = |row: ExaminedInput| row.covers(context.id@, id@, fingerprint@);
    if some_row(examined@, rule) {
        let k = choose|k: int| 0 <= k < examined@.len() && rule(#[trigger] examined@[k]);
        assert(examined@[k].vault_id.text@ == context.id.text@);
    }
    assert forall|k: int|
        0 <= k < examined@.len() && (#[trigger] examined@[k]).vault_id.text@ == context.id.text@
            && examined@[k].contribution_id.text@ == id.text@ && examined@[k].fingerprint@
            == fingerprint@ implies rule(examined@[k]) by {}
}

/// The status tells the vault's pairs that wait and those that are done, and what
/// was last recorded.
pub proof fn law_status_counts_the_pairs(
    context: &VaultContext,
    maintenance: Option<MaintenanceRow>,
    progress: Option<DedupProgress>,
    pairs: &[FormalPair],
    adopted: bool,
    r: FormalMaintenanceStatus,
)
    requires
        call_ensures(formal_status, (context, maintenance, progress, pairs, adopted), r),
    ensures
        r.pending_pairs == pairs@.filter(
            |pair: FormalPair| pair.vault_id.text@ == context.id.text@ && !pair.done,
        ).len(),
        r.checked_pairs == pairs@.filter(
            |pair: FormalPair| pair.vault_id.text@ == context.id.text@ && pair.done,
        ).len(),
        r.adopted == adopted,
        maintenance is Some ==> r.status == maintenance->0.status && r.retry_at
            == maintenance->0.retry_at,
        maintenance is None ==> r.status@ == "pending"@ && r.retry_at == 0,
        progress is Some ==> r.phase == progress->0.phase && r.sentence_checked
            == progress->0.sentence_checked,
        progress is None ==> r.phase@ == "pending"@ && r.sentence_checked == 0,
{
    let open = |pair: FormalPair| pair.vault_id@ == context.id@ && !pair.done;
    let waiting = |pair: FormalPair| pair.vault_id.text@ == context.id.text@ && !pair.done;
    assert(open =~= waiting);
    let closed = |pair: FormalPair| pair.vault_id@ == context.id@ && pair.done;
    let done = |pair: FormalPair| pair.vault_id.text@ == context.id.text@ && pair.done;
    assert(closed =~= done);
}

/// A rewrite is kept once: the first one stays, and one that is too long is
/// refused.
pub proof fn law_first_rewrite_stays(
    existing: Option<String>,
    content: String,
    r: Result<String, StateError>,
)
    requires
        call_ensures(save_equivalence_rewrite, (existing, content), r),
    ensures
        r is Ok <==> vstd::utf8::encode_utf8(content@).len() <= 64 * 1024,
        r matches Ok(kept) ==> (existing is Some ==> kept == existing->0) && (existing is None
            ==> kept == content),
{
}

/// There is work exactly where the vault has a memory of a note, a formal object,
/// an operation in flight or a pair that waits.
pub proof fn law_work_is_seen(
    context: &VaultContext,
    items: &[StoredItem],
    documents: &[FormalMemoryDocument],
    operation: bool,
    pairs: &[FormalPair],
    r: bool,
)
    requires
        call_ensures(has_dedup_work, (context, items, documents, operation, pairs), r),
    ensures
        r <==> operation || (exists|k: int|
            0 <= k < pairs@.len() && waits(#[trigger] pairs@[k], context.id)) || (exists|k: int|
            0 <= k < items@.len() && (#[trigger] items@[k]).memory.vault_id.text@
                == context.id.text@ && items@[k].memory.ownership
                == CurrentMemoryOwnership::NoteDerived) || (exists|k: int|
            0 <= k < documents@.len() && (#[trigger] documents@[k]).memory.vault_id.text@
                == context.id.text@),
{
    lemma_none_waits(pairs@, context.id);
    let note = |item: StoredItem|
        item.memory.vault_id@ == context.id@ && item.memory.ownership
            == CurrentMemoryOwnership::NoteDerived;
    let own = |doc: FormalMemoryDocument| doc.memory.vault_id@ == context.id@;
    if some_row(items@, note) {
        let k = choose|k: int| 0 <= k < items@.len() && note(#[trigger] items@[k]);
        assert(items@[k].memory.vault_id.text@ == context.id.text@);
    }
    if some_row(documents@, own) {
        let k = choose|k: int| 0 <= k < documents@.len() && own(#[trigger] documents@[k]);
        assert(documents@[k].memory.vault_id.text@ == context.id.text@);
    }
    assert forall|k: int|
        0 <= k < items@.len() && (#[trigger] items@[k]).memory.vault_id.text@ == context.id.text@
            && items@[k].memory.ownership == CurrentMemoryOwnership::NoteDerived implies note(
        items@[k],
    ) by {}
    assert forall|k: int|
        0 <= k < documents@.len() && (#[trigger] documents@[k]).memory.vault_id.text@
            == context.id.text@ implies own(documents@[k]) by {}
}

/// Whether a formal object of the vault is stored at the revision that was seen.
pub open spec fn stands_as_seen(
    documents: Seq<FormalMemoryDocument>,
    vault: Id,
    seen: FormalMemoryDocument,
) -> bool {
    exists|k: int|
        {
            &&& 0 <= k < documents.len()
            &&& (#[trigger] documents[k]).memory.vault_id.text@ == vault.text@
            &&& documents[k].memory.id.text@ == seen.memory.id.text@
            &&& documents[k].memory.revision == seen.memory.revision
        }
}

/// An operation is prepared where the vault has none in flight and every object
/// that it starts from still stands as it was seen; it waits then, uncommitted,
/// behind the others, and all that was reserved stays so.
pub proof fn law_operations_start_from_what_was_seen(
    context: &VaultContext,
    op: &FormalMemoryOperation,
    documents: &[FormalMemoryDocument],
    sets: &[MemoryNoteSetRecord],
    reserved: Vec<Id>,
    operations: Vec<OperationState>,
    r: Result<PreparedOperation, StateError>,
)
    requires
        call_ensures(
            prepare_formal_operation,
            (context, op, documents, sets, reserved, operations),
            r,
        ),
    ensures
        r matches Ok(after) ==> {
            &&& op.before@.len() <= 256 && op.after@.len() <= 256 && op.source_rewrites@.len()
                <= 256
            &&& forall|k: int|
                0 <= k < operations@.len() ==> (#[trigger] operations@[k]).vault_id.text@
                    != context.id.text@
            &&& forall|i: int|
                0 <= i < op.before@.len() ==> stands_as_seen(
                    documents@,
                    context.id,
                    #[trigger] op.before@[i],
                )
            &&& forall|i: int|
                0 <= i < op.after@.len() ==> (
                #[trigger] op.after@[i]).memory.vault_id.text@ == context.id.text@
                    && op.after@[i].memory.ownership == CurrentMemoryOwnership::NoteDerived
            &&& after.operations@.len() == operations@.len() + 1
            &&& after.operations@.drop_last() == operations@
            &&& after.operations@.last().vault_id == context.id
            &&& after.operations@.last().operation_id == op.id
            &&& !after.operations@.last().committed
            &&& forall|k: int|
                0 <= k < reserved@.len() ==> k < after.reserved@.len()
                    && #[trigger] after.reserved@[k] == reserved@[k]
        },
{
    if let Ok(after) = r {
        let rule = flies_for(context.id@);
        lemma_first_index(operations@, rule);
        assert forall|k: int| 0 <= k < operations@.len() implies (
        #[trigger] operations@[k]).vault_id.text@ != context.id.text@ by {
            assert(!rule(operations@[k]));
        }
        lemma_seen(op.before@, documents@, context.id);
        let vault = context.id@;
        let foreign = |doc: FormalMemoryDocument| !doc.in_scope(context.id@);
        assert(!some_row(op.after@, foreign));
        assert forall|i: int| 0 <= i < op.after@.len() implies (
        #[trigger] op.after@[i]).memory.vault_id.text@ == context.id.text@
            && op.after@[i].memory.ownership == CurrentMemoryOwnership::NoteDerived by {
            assert(!foreign(op.after@[i]));
        }
        assert(after.operations@.drop_last() =~= operations@);
    }
}

proof fn lemma_seen(
    before: Seq<FormalMemoryDocument>,
    documents: Seq<FormalMemoryDocument>,
    vault: Id,
)
    requires
        crate::current_memory::formal::before_fault(before, documents, vault@) is None,
    ensures
        forall|i: int|
            0 <= i < before.len() ==> stands_as_seen(documents, vault, #[trigger] before[i]),
    decreases before.len(),
{
    if before.len() > 0 {
        let fewer = before.drop_last();
        lemma_seen(fewer, documents, vault);
        let last = before.last();
        let rule = |doc: FormalMemoryDocument| doc.is(vault@, last.memory.id@);
        lemma_first_index(documents, rule);
        let k = first_index(documents, rule)->0;
        assert(documents[k].memory.vault_id.text@ == vault.text@);
        assert forall|i: int| 0 <= i < before.len() implies stands_as_seen(
            documents,
            vault,
            #[trigger] before[i],
        ) by {
            if i < fewer.len() {
                assert(fewer[i] == before[i]);
            }
        }
    }
}

} // verus!
