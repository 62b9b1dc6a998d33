//! What journal transitions, metadata commits and reads of files do, in terms
//! of the rows that they get and give.

use vstd::prelude::*;

use crate::domain::{DomainError, Id, Revision, VaultContext, VaultPath};
use crate::error::StateError;
use crate::files::queries::{get_active, get_any_by_path, get_by_id, get_revision};
use crate::files::{
    commit_mutation, find_idempotency, look_up, mark_file_committed, mark_needs_review,
    mark_rolled_back, prepare_operation, set_proposed_hash, settle_mutation, stage_mutation,
    update_operation_payload, CommitHook, CommitHookPhase, CommitLookup, CommitMutationInput,
    CommittedMutation, FileOperation, FileRecord, FileRevisionRecord, FileRow, IdempotencyLookup,
    JournalRecord, JournalState, MintedIds, MutationPlan, PrepareOperationInput,
};
use crate::hash::sha256_digest;
use crate::order::laws::{is_listing, lemma_page_rows, lemma_selection_listing, no_later};
use crate::rows::lemma_first_index;
use crate::text::hex;

verus! {

/// An accepted commit stores the entry that the mutation asks for. It is a
/// tombstone exactly when the mutation asks for one, with the time asked for: a
/// committed delete is inactive, a committed create or restore is active.
pub proof fn law_commit_stores_the_entry(
    context: &VaultContext,
    input: CommitMutationInput,
    lookup: CommitLookup,
    minted: MintedIds,
    now: i64,
    r: Result<MutationPlan, StateError>,
)
    requires
        call_ensures(stage_mutation, (context, input, lookup, minted, now), r),
    ensures
        r matches Ok(plan) ==> {
            &&& plan.file.deleted_at == input.deleted_at
            &&& plan.file.id == input.file_id
            &&& plan.file.vault_id == context.id
            &&& plan.file.path == input.path
            &&& plan.file.entry_type == input.entry_type
            &&& plan.file.content_hash == input.content_hash
            &&& plan.file.size == input.size
            &&& plan.file.modified_at == input.modified_at
            &&& plan.file.filesystem_identity == input.filesystem_identity
            &&& plan.file.updated_at == now
            &&& match lookup.current {
                Some(row) => {
                    &&& plan.file.created_at == row.created_at
                    &&& plan.file.current_revision.value == row.current_revision + 1
                    &&& plan.replaces == Some(Revision { value: row.current_revision as u64 })
                },
                None => {
                    &&& plan.file.created_at == now
                    &&& plan.file.current_revision.value == 1
                    &&& plan.replaces is None
                },
            }
        },
{
}

/// An accepted commit writes one revision of the same file and number as the
/// entry, with the content, the operation and the actor of the mutation. Its
/// paths are those given, else where the file was and where it is now.
pub proof fn law_commit_records_the_revision(
    context: &VaultContext,
    input: CommitMutationInput,
    lookup: CommitLookup,
    minted: MintedIds,
    now: i64,
    r: Result<MutationPlan, StateError>,
)
    requires
        call_ensures(stage_mutation, (context, input, lookup, minted, now), r),
    ensures
        r matches Ok(plan) ==> {
            &&& plan.revision.id == minted.revision_id
            &&& plan.revision.vault_id == context.id
            &&& plan.revision.file_id == input.file_id
            &&& plan.revision.revision == plan.file.current_revision
            &&& plan.revision.operation == input.operation
            &&& plan.revision.content_hash == input.content_hash
            &&& plan.revision.history_blob_hash == input.history_blob_hash
            &&& plan.revision.size == Some(input.size)
            &&& plan.revision.actor_type@ == plan.audit.actor_type@
            &&& plan.revision.actor_id == input.actor.actor_id
            &&& plan.revision.source_plane == input.source_plane
            &&& plan.revision.idempotency_key == input.idempotency_key
            &&& plan.revision.created_at == now
            &&& input.path_before is Some ==> plan.revision.path_before == input.path_before
            &&& input.path_before is None && lookup.current is None
                ==> plan.revision.path_before is None
            &&& input.path_before is None ==> (lookup.current matches Some(row)
                ==> plan.revision.path_before == Some(VaultPath { text: row.path }))
            &&& input.path_after is Some ==> plan.revision.path_after == input.path_after
            &&& input.path_after is None ==> plan.revision.path_after == Some(input.path)
        },
{
}

/// An accepted commit writes one audit fact about the file, in the vault and at
/// the time of the commit; the path stands in it only as its hash.
pub proof fn law_commit_is_audited(
    context: &VaultContext,
    input: CommitMutationInput,
    lookup: CommitLookup,
    minted: MintedIds,
    now: i64,
    r: Result<MutationPlan, StateError>,
)
    requires
        call_ensures(stage_mutation, (context, input, lookup, minted, now), r),
    ensures
        r matches Ok(plan) ==> {
            &&& plan.audit.id == minted.audit_id
            &&& plan.audit.occurred_at == now
            &&& plan.audit.request_id == input.request_id
            &&& plan.audit.vault_id == Some(context.id)
            &&& plan.audit.plane == input.source_plane
            &&& plan.audit.actor_id == input.actor.actor_id
            &&& plan.audit.action == input.audit_action
            &&& plan.audit.target_id == Some(input.file_id.text)
            &&& plan.audit.target_type is Some
            &&& plan.audit.target_type->0@ == "file"@
            &&& plan.audit.target_path_hash is Some
            &&& plan.audit.target_path_hash->0@ == hex(
                sha256_digest(vstd::utf8::encode_utf8(input.path@)),
            )
            &&& plan.audit.result@ == "success"@
            &&& plan.audit.metadata == input.audit_metadata
        },
{
}

/// An accepted commit writes one outbox event for each that is asked for, in
/// their order, due at once and not yet claimed by anyone.
pub proof fn law_commit_announces_every_event(
    context: &VaultContext,
    input: CommitMutationInput,
    lookup: CommitLookup,
    minted: MintedIds,
    now: i64,
    r: Result<MutationPlan, StateError>,
    i: int,
)
    requires
        call_ensures(stage_mutation, (context, input, lookup, minted, now), r),
        0 <= i < input.outbox_events@.len(),
    ensures
        r matches Ok(plan) ==> {
            &&& plan.outbox@.len() == input.outbox_events@.len()
            &&& plan.outbox@[i].id == minted.event_ids@[i]
            &&& plan.outbox@[i].vault_id == Some(context.id)
            &&& plan.outbox@[i].event_type == input.outbox_events@[i].event_type
            &&& plan.outbox@[i].aggregate_type == input.outbox_events@[i].aggregate_type
            &&& plan.outbox@[i].aggregate_id == input.outbox_events@[i].aggregate_id
            &&& plan.outbox@[i].payload == input.outbox_events@[i].payload
            &&& plan.outbox@[i].created_at == now
            &&& plan.outbox@[i].available_at == now
            &&& plan.outbox@[i].attempts == 0
            &&& plan.outbox@[i].claimed_by is None
            &&& plan.outbox@[i].claimed_until is None
            &&& plan.outbox@[i].delivered_at is None
            &&& plan.outbox@[i].last_error is None
            &&& !plan.outbox@[i].dead_lettered
            &&& plan.outbox@[i].dead_letter_reason is None
        },
{
}

/// An accepted commit moves exactly the tombstone at the resulting path out of
/// the way, to the archive path, where one is given; else nothing is moved.
pub proof fn law_commit_archives_the_tombstone(
    context: &VaultContext,
    input: CommitMutationInput,
    lookup: CommitLookup,
    minted: MintedIds,
    now: i64,
    r: Result<MutationPlan, StateError>,
)
    requires
        call_ensures(stage_mutation, (context, input, lookup, minted, now), r),
    ensures
        r matches Ok(plan) ==> match (input.tombstone_archive_path, lookup.destination) {
            (None, _) => plan.archived is None,
            (Some(path), None) => false,
            (Some(path), Some(row)) => {
                &&& row.deleted_at is Some
                &&& row.id@ != input.file_id@
                &&& plan.archived is Some
                &&& plan.archived->0.id@ == row.id@
                &&& plan.archived->0.path == path
                &&& plan.archived->0.updated_at == now
            },
        },
{
}

/// A commit is accepted exactly when the stored row of the file can be read and
/// stands at the revision that the writer saw, nothing live and no forgotten
/// tombstone is in the way at the resulting path, and what is to be written can
/// be stored.
pub proof fn law_commit_is_accepted_exactly(
    context: &VaultContext,
    input: CommitMutationInput,
    lookup: CommitLookup,
    minted: MintedIds,
    now: i64,
    r: Result<MutationPlan, StateError>,
)
    requires
        call_ensures(stage_mutation, (context, input, lookup, minted, now), r),
    ensures
        r is Ok <==> {
            &&& lookup.destination matches Some(row) ==> (row.id@ != input.file_id@ ==> {
                &&& row.deleted_at is None ==> !input.require_absent
                    && input.tombstone_archive_path is None
                &&& row.deleted_at is Some ==> input.tombstone_archive_path is Some
            })
            &&& input.tombstone_archive_path is Some ==> !lookup.archive_occupied
                && lookup.destination is Some && lookup.destination->0.id@ != input.file_id@
            &&& lookup.current matches Some(row) ==> {
                &&& row.entry_type@ == "file"@ || row.entry_type@ == "directory"@
                &&& 0 <= row.current_revision < i64::MAX
                &&& 0 <= row.size
                &&& input.expected_revision matches Some(expected) ==> expected.value
                    == row.current_revision && (row.deleted_at is None || input.operation
                    == FileOperation::Restore)
                &&& input.expected_revision is None && row.deleted_at is None
                    ==> !input.require_absent
            }
            &&& lookup.current is None ==> input.expected_revision is None && input.operation
                != FileOperation::Move
            &&& input.size <= i64::MAX
            &&& forall|i: int|
                0 <= i < input.outbox_events@.len() ==> {
                    &&& (#[trigger] input.outbox_events@[i]).event_type@.len() > 0
                    &&& input.outbox_events@[i].aggregate_type@.len() > 0
                    &&& input.outbox_events@[i].aggregate_id@.len() > 0
                }
        },
{
    if forall|i: int|
        0 <= i < input.outbox_events@.len() ==> {
            &&& (#[trigger] input.outbox_events@[i]).event_type@.len() > 0
            &&& input.outbox_events@[i].aggregate_type@.len() > 0
            &&& input.outbox_events@[i].aggregate_id@.len() > 0
        } {
        assert(forall|i: int|
            0 <= i < input.outbox_events@.len() ==> (
            #[trigger] input.outbox_events@[i]).identified());
    }
}

/// A writer that saw another revision gets the conflict with both revisions,
/// where the path is free and the entry can be changed; a writer that expects an
/// entry that is missing or deleted is told so.
pub proof fn law_stale_commits_are_told_why(
    context: &VaultContext,
    input: CommitMutationInput,
    lookup: CommitLookup,
    minted: MintedIds,
    now: i64,
    r: Result<MutationPlan, StateError>,
    expected: Revision,
)
    requires
        call_ensures(stage_mutation, (context, input, lookup, minted, now), r),
        input.expected_revision == Some(expected),
        input.tombstone_archive_path is None,
        !input.require_absent,
    ensures
        lookup.current is None ==> r == Err::<MutationPlan, StateError>(
            StateError::InvalidDomain(
                DomainError::PreconditionFailed { reason: "entry does not exist" },
            ),
        ),
        lookup.current matches Some(row) ==> (row.entry_type@ == "file"@ && row.current_revision
            >= 0 && row.size >= 0 ==> {
            &&& row.deleted_at is Some && input.operation != FileOperation::Restore ==> r == Err::<
                MutationPlan,
                StateError,
            >(
                StateError::InvalidDomain(
                    DomainError::PreconditionFailed { reason: "entry is deleted" },
                ),
            )
            &&& (row.deleted_at is None || input.operation == FileOperation::Restore)
                && expected.value != row.current_revision ==> r == Err::<MutationPlan, StateError>(
                StateError::InvalidDomain(
                    DomainError::RevisionConflict {
                        expected,
                        current: Revision { value: row.current_revision as u64 },
                    },
                ),
            )
        }),
{
}

/// What a commit reads: the vault's row of the file, the vault's row at the
/// resulting path, and whether the vault has a row at the archive path.
pub proof fn law_commit_reads_its_vault(
    context: &VaultContext,
    input: &CommitMutationInput,
    rows: &[FileRow],
    r: CommitLookup,
)
    requires
        call_ensures(look_up, (context, input, rows), r),
    ensures
        match r.current {
            Some(row) => rows@.contains(row) && row.vault_id@ == context.id.text@ && row.id@
                == input.file_id.text@,
            None => forall|k: int|
                0 <= k < rows@.len() ==> !((#[trigger] rows@[k]).vault_id@ == context.id.text@
                    && rows@[k].id@ == input.file_id.text@),
        },
        match r.destination {
            Some(row) => rows@.contains(row) && row.vault_id@ == context.id.text@ && row.path@
                == input.path.text@,
            None => forall|k: int|
                0 <= k < rows@.len() ==> !((#[trigger] rows@[k]).vault_id@ == context.id.text@
                    && rows@[k].path@ == input.path.text@),
        },
        r.archive_occupied <==> input.tombstone_archive_path is Some && exists|k: int|
            0 <= k < rows@.len() && (#[trigger] rows@[k]).vault_id@ == context.id.text@
                && rows@[k].path@ == input.tombstone_archive_path->0.text@,
{
    lemma_first_index(
        rows@,
        |row: FileRow| row.vault_id@ == context.id@ && row.id@ == input.file_id@,
    );
    lemma_first_index(rows@, |row: FileRow| row.stands_at(context.id@, input.path@));
    if input.tombstone_archive_path is Some {
        let archive = input.tombstone_archive_path->0;
        lemma_first_index(rows@, |row: FileRow| row.stands_at(context.id@, archive@));
    }
}

/// A commit goes through only where the hook lets both phases pass and the
/// journal holds the finished filesystem phase of this operation in this vault.
/// What is committed is a plan that the mutation gives, and the intent rests as
/// committed, otherwise unchanged.
pub proof fn law_commit_settles_its_intent<H: CommitHook>(
    context: &VaultContext,
    input: CommitMutationInput,
    lookup: CommitLookup,
    journal: Option<JournalRecord>,
    minted: MintedIds,
    hook: &H,
    now: i64,
    r: Result<CommittedMutation, StateError>,
)
    requires
        call_ensures(commit_mutation::<H>, (context, input, lookup, journal, minted, hook, now), r),
    ensures
        r matches Ok(done) ==> {
            &&& call_ensures(
                H::on_phase,
                (hook, CommitHookPhase::MetadataTransactionStarted),
                Ok::<(), StateError>(()),
            )
            &&& call_ensures(
                H::on_phase,
                (hook, CommitHookPhase::OutboxInserted),
                Ok::<(), StateError>(()),
            )
            &&& journal is Some
            &&& journal->0.vault_id.text@ == context.id.text@
            &&& journal->0.id.text@ == input.operation_id.text@
            &&& journal->0.state == JournalState::FileCommitted
            &&& done.journal.state == JournalState::MetadataCommitted
            &&& done.journal.updated_at == now
            &&& done.journal.error is None
            &&& done.journal.id == journal->0.id
            &&& done.journal.vault_id == journal->0.vault_id
            &&& done.journal.operation == journal->0.operation
            &&& done.journal.payload == journal->0.payload
            &&& done.journal.idempotency_key == journal->0.idempotency_key
            &&& done.journal.source_path == journal->0.source_path
            &&& done.journal.destination_path == journal->0.destination_path
            &&& done.journal.prior_file_id == journal->0.prior_file_id
            &&& done.journal.expected_revision == journal->0.expected_revision
            &&& done.journal.prior_hash == journal->0.prior_hash
            &&& done.journal.proposed_hash == journal->0.proposed_hash
            &&& done.journal.temp_path == journal->0.temp_path
            &&& done.journal.created_at == journal->0.created_at
            &&& done.plan.file.deleted_at == input.deleted_at
            &&& done.plan.file.path == input.path
            &&& done.plan.file.id == input.file_id
            &&& done.plan.file.vault_id == context.id
            &&& done.plan.file.content_hash == input.content_hash
            &&& done.plan.file.size == input.size
            &&& done.plan.file.entry_type == input.entry_type
            &&& done.plan.revision.revision == done.plan.file.current_revision
            &&& done.plan.revision.file_id == input.file_id
            &&& done.plan.revision.operation == input.operation
            &&& done.plan.audit.target_id == Some(input.file_id.text)
            &&& done.plan.outbox@.len() == input.outbox_events@.len()
            &&& done.plan.file.current_revision.value == match lookup.current {
                Some(row) => row.current_revision + 1,
                None => 1,
            }
        },
{
    let done = Ok::<(), StateError>(());
    assert forall|phase: CommitHookPhase, answer: Result<(), StateError>| #[trigger]
        crate::files::answers(hook, phase, answer) && answer is Ok implies call_ensures(
        H::on_phase,
        (hook, phase),
        done,
    ) by {
        match answer {
            Ok(unit) => {
                assert(unit == ());
                assert(answer == done);
            },
            Err(_) => {},
        }
    }
}

/// A commit that the hook lets pass succeeds where the mutation can be staged
/// and its intent is file-committed; a hook that stops the first phase stops the
/// commit with its own error.
pub proof fn law_commit_goes_through<H: CommitHook>(
    context: &VaultContext,
    input: CommitMutationInput,
    lookup: CommitLookup,
    journal: Option<JournalRecord>,
    minted: MintedIds,
    hook: &H,
    now: i64,
    r: Result<CommittedMutation, StateError>,
    staged: Result<MutationPlan, StateError>,
)
    requires
        call_ensures(commit_mutation::<H>, (context, input, lookup, journal, minted, hook, now), r),
        call_ensures(stage_mutation, (context, input, lookup, minted, now), staged),
        forall|phase: CommitHookPhase, answer: Result<(), StateError>| #[trigger]
            call_ensures(H::on_phase, (hook, phase), answer) ==> answer is Ok,
    ensures
        staged matches Err(error) ==> r == Err::<CommittedMutation, StateError>(error),
        staged is Ok && (journal matches Some(intent) && intent.vault_id.text@ == context.id.text@
            && intent.id.text@ == input.operation_id.text@ && intent.state
            == JournalState::FileCommitted) ==> r is Ok,
        staged is Ok && !(journal matches Some(intent) && intent.vault_id.text@ == context.id.text@
            && intent.id.text@ == input.operation_id.text@ && intent.state
            == JournalState::FileCommitted) ==> r == Err::<CommittedMutation, StateError>(
            StateError::InvalidInput("journal is not file-committed"),
        ),
{
    assert(forall|phase: CommitHookPhase, answer: Result<(), StateError>| #[trigger]
        crate::files::answers(hook, phase, answer) ==> answer is Ok);
}

/// Settling passes the hook's refusal on and changes nothing of the plan.
pub proof fn law_settling_keeps_the_plan(
    context: &VaultContext,
    operation_id: &Id,
    plan: MutationPlan,
    journal: Option<JournalRecord>,
    inserted: Result<(), StateError>,
    now: i64,
    r: Result<CommittedMutation, StateError>,
)
    requires
        call_ensures(settle_mutation, (context, operation_id, plan, journal, inserted, now), r),
    ensures
        inserted matches Err(error) ==> r == Err::<CommittedMutation, StateError>(error),
        r matches Ok(done) ==> done.plan == plan && done.journal.state
            == JournalState::MetadataCommitted && journal is Some && journal->0.state
            == JournalState::FileCommitted,
{
}

/// A prepared intent holds what was asked for, in the vault, before any effect.
pub proof fn law_prepared_intent_holds_the_request(
    context: &VaultContext,
    input: PrepareOperationInput,
    now: i64,
    r: Result<JournalRecord, StateError>,
)
    requires
        call_ensures(prepare_operation, (context, input, now), r),
    ensures
        r matches Ok(intent) ==> {
            &&& intent.id == input.id
            &&& intent.vault_id == context.id
            &&& intent.state == JournalState::Prepared
            &&& intent.operation == input.operation
            &&& intent.source_path == input.source_path
            &&& intent.destination_path == input.destination_path
            &&& intent.prior_file_id == input.prior_file_id
            &&& intent.expected_revision == input.expected_revision
            &&& intent.prior_hash == input.prior_hash
            &&& intent.proposed_hash == input.proposed_hash
            &&& intent.temp_path == input.temp_path
            &&& intent.payload == input.payload
            &&& intent.idempotency_key == input.idempotency_key
            &&& intent.created_at == now
            &&& intent.updated_at == now
            &&& intent.error is None
        },
        input.idempotency_key is None && (input.expected_revision matches Some(revision)
            ==> revision.value <= i64::MAX) ==> r is Ok,
        input.expected_revision matches Some(revision) ==> (revision.value > i64::MAX ==> r is Err),
        input.idempotency_key matches Some(key) ==> (key@.len() == 0 ==> r is Err),
{
    if input.idempotency_key is Some {
        let key = input.idempotency_key->0@;
        if key.len() == 0 {
            assert(vstd::utf8::encode_utf8(key) =~= Seq::<u8>::empty());
        }
    }
}

/// An intent leaves the prepared state only when it is prepared, in its vault;
/// a hash that is given is kept, one that is not given leaves the stored one.
pub proof fn law_file_phase_is_recorded_once(
    context: &VaultContext,
    operation_id: &Id,
    journal: Option<JournalRecord>,
    proposed_hash: Option<&str>,
    now: i64,
    r: Result<JournalRecord, StateError>,
)
    requires
        call_ensures(
            mark_file_committed,
            (context, operation_id, journal, proposed_hash, now),
            r,
        ),
    ensures
        r is Ok <==> (journal matches Some(intent) && intent.vault_id.text@ == context.id.text@
            && intent.id.text@ == operation_id.text@ && intent.state == JournalState::Prepared),
        r matches Ok(after) ==> {
            &&& after.state == JournalState::FileCommitted
            &&& after.updated_at == now
            &&& after.id == journal->0.id
            &&& after.vault_id == journal->0.vault_id
            &&& after.payload == journal->0.payload
            &&& after.idempotency_key == journal->0.idempotency_key
            &&& after.operation == journal->0.operation
            &&& after.expected_revision == journal->0.expected_revision
            &&& after.created_at == journal->0.created_at
            &&& proposed_hash matches Some(hash) ==> after.proposed_hash is Some
                && after.proposed_hash->0@ == hash@
            &&& proposed_hash is None ==> match journal->0.proposed_hash {
                Some(old) => after.proposed_hash is Some && after.proposed_hash->0@ == old@,
                None => after.proposed_hash is None,
            }
        },
{
}

/// A prepared intent can take a new hash or a new payload, and stays prepared.
pub proof fn law_prepared_intents_can_be_amended(
    context: &VaultContext,
    operation_id: &Id,
    journal: Option<JournalRecord>,
    payload: crate::json::Json,
    hash: &str,
    now: i64,
    hashed: Result<JournalRecord, StateError>,
    updated: Result<JournalRecord, StateError>,
)
    requires
        call_ensures(set_proposed_hash, (context, operation_id, journal, hash, now), hashed),
        call_ensures(
            update_operation_payload,
            (context, operation_id, journal, payload, Some(hash), now),
            updated,
        ),
    ensures
        updated is Ok <==> (journal matches Some(intent) && intent.vault_id.text@
            == context.id.text@ && intent.id.text@ == operation_id.text@ && intent.state
            == JournalState::Prepared),
        hashed is Ok ==> updated is Ok,
        updated is Ok && 0 < vstd::utf8::encode_utf8(hash@).len() <= 128 ==> hashed is Ok,
        hashed matches Ok(after) ==> {
            &&& after.state == JournalState::Prepared
            &&& after.proposed_hash is Some
            &&& after.proposed_hash->0@ == hash@
            &&& after.payload == journal->0.payload
            &&& after.id == journal->0.id
            &&& after.vault_id == journal->0.vault_id
            &&& after.updated_at == now
            &&& after.created_at == journal->0.created_at
        },
        updated matches Ok(after) ==> {
            &&& after.state == JournalState::Prepared
            &&& after.payload == payload
            &&& after.proposed_hash is Some
            &&& after.proposed_hash->0@ == hash@
            &&& after.id == journal->0.id
            &&& after.vault_id == journal->0.vault_id
            &&& after.updated_at == now
            &&& after.created_at == journal->0.created_at
        },
{
}

/// An intent is rolled back, or put up for review, exactly while it is neither
/// committed nor settled, and the reason is kept.
pub proof fn law_intents_are_settled_once(
    context: &VaultContext,
    operation_id: &Id,
    journal: Option<JournalRecord>,
    error: &str,
    now: i64,
    rolled_back: Result<JournalRecord, StateError>,
    reviewed: Result<JournalRecord, StateError>,
)
    requires
        call_ensures(
            mark_rolled_back,
            (context, operation_id, journal, Some(error), now),
            rolled_back,
        ),
        call_ensures(
            mark_needs_review,
            (context, operation_id, journal, error, now),
            reviewed,
        ),
    ensures
        rolled_back is Ok <==> (journal matches Some(intent) && intent.vault_id.text@
            == context.id.text@ && intent.id.text@ == operation_id.text@ && (intent.state
            == JournalState::Prepared || intent.state == JournalState::FileCommitted)),
        reviewed is Ok <==> rolled_back is Ok,
        rolled_back matches Ok(after) ==> {
            &&& after.state == JournalState::RolledBack
            &&& after.error is Some
            &&& after.error->0@ == error@
            &&& after.updated_at == now
            &&& after.id == journal->0.id
            &&& after.payload == journal->0.payload
            &&& after.idempotency_key == journal->0.idempotency_key
        },
        reviewed matches Ok(after) ==> {
            &&& after.state == JournalState::NeedsReview
            &&& after.error is Some
            &&& after.error->0@ == error@
            &&& after.updated_at == now
            &&& after.id == journal->0.id
            &&& after.payload == journal->0.payload
            &&& after.idempotency_key == journal->0.idempotency_key
        },
{
}

/// A request is looked up by its key in its own vault alone: what comes back
/// carries the key, and where no intent of the vault has it, nothing comes back.
pub proof fn law_requests_are_found_by_key(
    context: &VaultContext,
    key: &str,
    journals: Vec<JournalRecord>,
    revisions: Vec<FileRevisionRecord>,
    files: Vec<FileRecord>,
    r: Result<Option<IdempotencyLookup>, StateError>,
)
    requires
        call_ensures(find_idempotency, (context, key, journals, revisions, files), r),
    ensures
        r matches Ok(Some(IdempotencyLookup::Committed { payload, file, revision })) ==> {
            &&& revisions@.contains(revision)
            &&& revision.vault_id.text@ == context.id.text@
            &&& revision.idempotency_key is Some
            &&& revision.idempotency_key->0@ == key@
            &&& files@.contains(file)
            &&& file.vault_id.text@ == context.id.text@
            &&& file.id.text@ == revision.file_id.text@
        },
        r matches Ok(Some(IdempotencyLookup::InFlight { operation_id, state, payload })) ==> {
            &&& exists|k: int|
                0 <= k < journals@.len() && (#[trigger] journals@[k]).id == operation_id
                    && journals@[k].state == state && journals@[k].payload == payload
                    && journals@[k].vault_id.text@ == context.id.text@
                    && journals@[k].idempotency_key is Some && journals@[k].idempotency_key->0@
                    == key@
            &&& forall|k: int|
                0 <= k < revisions@.len() ==> !((#[trigger] revisions@[k]).vault_id.text@
                    == context.id.text@ && revisions@[k].idempotency_key is Some
                    && revisions@[k].idempotency_key->0@ == key@)
        },
        r matches Ok(None) ==> forall|k: int|
            0 <= k < journals@.len() ==> !((#[trigger] journals@[k]).vault_id.text@
                == context.id.text@ && journals@[k].idempotency_key is Some
                && journals@[k].idempotency_key->0@ == key@),
{
    lemma_first_index(
        journals@,
        |journal: JournalRecord|
            journal.vault_id@ == context.id@ && crate::text::optional_text(
                journal.idempotency_key,
            ) == Some(key@),
    );
    lemma_first_index(
        revisions@,
        |revision: FileRevisionRecord|
            revision.vault_id@ == context.id@ && crate::text::optional_text(
                revision.idempotency_key,
            ) == Some(key@),
    );
    if let Some(revision) = crate::files::keyed_revision(revisions@, context.id@, key@) {
        lemma_first_index(
            files@,
            |file: FileRecord|
                file.vault_id@ == context.id@ && file.id@ == revision.file_id@,
        );
    }
}

/// A path is read as live exactly where the vault has an entry there that is no
/// tombstone; a read of any entry finds tombstones too.
pub proof fn law_paths_are_read_in_their_vault(
    context: &VaultContext,
    files: &[FileRecord],
    path: &VaultPath,
    active: Option<usize>,
    any: Option<usize>,
)
    requires
        call_ensures(get_active, (context, files, path), active),
        call_ensures(get_any_by_path, (context, files, path), any),
    ensures
        match active {
            Some(i) => i < files@.len() && files@[i as int].vault_id.text@ == context.id.text@
                && files@[i as int].path.text@ == path.text@ && files@[i as int].deleted_at is None,
            None => forall|k: int|
                0 <= k < files@.len() ==> !((#[trigger] files@[k]).vault_id.text@
                    == context.id.text@ && files@[k].path.text@ == path.text@
                    && files@[k].deleted_at is None),
        },
        match any {
            Some(i) => i < files@.len() && files@[i as int].vault_id.text@ == context.id.text@
                && files@[i as int].path.text@ == path.text@,
            None => forall|k: int|
                0 <= k < files@.len() ==> !((#[trigger] files@[k]).vault_id.text@
                    == context.id.text@ && files@[k].path.text@ == path.text@),
        },
{
    lemma_first_index(
        files@,
        |file: FileRecord| file.stands_at(context.id@, path@) && file.active(),
    );
    lemma_first_index(files@, |file: FileRecord| file.stands_at(context.id@, path@));
}

/// A file is read by its identity in its vault, a revision by its number too.
pub proof fn law_files_are_read_by_identity(
    context: &VaultContext,
    files: &[FileRecord],
    revisions: &[FileRevisionRecord],
    id: &Id,
    revision: Revision,
    file: Option<usize>,
    found: Result<Option<usize>, StateError>,
)
    requires
        call_ensures(get_by_id, (context, files, id), file),
        call_ensures(get_revision, (context, revisions, id, revision), found),
    ensures
        match file {
            Some(i) => i < files@.len() && files@[i as int].vault_id.text@ == context.id.text@
                && files@[i as int].id.text@ == id.text@,
            None => forall|k: int|
                0 <= k < files@.len() ==> !((#[trigger] files@[k]).vault_id.text@
                    == context.id.text@ && files@[k].id.text@ == id.text@),
        },
        found is Err <==> revision.value > i64::MAX,
        match found {
            Ok(Some(i)) => i < revisions@.len() && revisions@[i as int].vault_id.text@
                == context.id.text@ && revisions@[i as int].file_id.text@ == id.text@
                && revisions@[i as int].revision.value == revision.value,
            Ok(None) => forall|k: int|
                0 <= k < revisions@.len() ==> !((#[trigger] revisions@[k]).vault_id.text@
                    == context.id.text@ && revisions@[k].file_id.text@ == id.text@
                    && revisions@[k].revision.value == revision.value),
            Err(_) => true,
        },
{
    lemma_first_index(
        files@,
        |file: FileRecord| file.vault_id@ == context.id@ && file.id@ == id@,
    );
    lemma_first_index(
        revisions@,
        |row: FileRevisionRecord|
            row.revises(context.id@, id@) && row.revision.value == revision.value,
    );
}

/// The entries of a vault are its live ones, all of them, by path.
pub proof fn law_live_entries_are_listed_by_path(
    context: &VaultContext,
    files: &[FileRecord],
    picked: Vec<usize>,
)
    requires
        call_ensures(crate::files::queries::list_active_entries, (context, files), picked),
    ensures
        is_listing(
            picked@,
            files@.len(),
            files@.len(),
            |k: int| files@[k].vault_id.text@ == context.id.text@ && files@[k].deleted_at is None,
            |a: int, b: int|
                files@[a].path.text@ == files@[b].path.text@ || crate::text::text_before(
                    files@[a].path.text@,
                    files@[b].path.text@,
                ),
        ),
{
    lemma_selection_listing(
        files@.map_values(|file: FileRecord| crate::files::queries::path_key(file)),
        files@.map_values(|file: FileRecord| file.live_in(context.id@)),
        files@.len(),
        picked@,
        |k: int| files@[k].vault_id.text@ == context.id.text@ && files@[k].deleted_at is None,
        |a: int, b: int|
            files@[a].path.text@ == files@[b].path.text@ || crate::text::text_before(
                files@[a].path.text@,
                files@[b].path.text@,
            ),
    );
}

/// The revisions of a file are all that the vault has of it, the first one first.
pub proof fn law_revisions_are_listed_in_turn(
    context: &VaultContext,
    revisions: &[FileRevisionRecord],
    file_id: &Id,
    picked: Vec<usize>,
)
    requires
        call_ensures(crate::files::queries::list_revisions, (context, revisions, file_id), picked),
    ensures
        is_listing(
            picked@,
            revisions@.len(),
            revisions@.len(),
            |k: int|
                revisions@[k].vault_id.text@ == context.id.text@ && revisions@[k].file_id.text@
                    == file_id.text@,
            |a: int, b: int| revisions@[a].revision.value <= revisions@[b].revision.value,
        ),
{
    lemma_selection_listing(
        revisions@.map_values(
            |row: FileRevisionRecord| crate::files::queries::revision_key(row),
        ),
        revisions@.map_values(|row: FileRevisionRecord| row.revises(context.id@, file_id@)),
        revisions@.len(),
        picked@,
        |k: int|
            revisions@[k].vault_id.text@ == context.id.text@ && revisions@[k].file_id.text@
                == file_id.text@,
        |a: int, b: int| revisions@[a].revision.value <= revisions@[b].revision.value,
    );
}

/// Recent revisions are those of the vault, the latest first; a list that is not
/// full holds all of them.
pub proof fn law_recent_revisions_come_latest_first(
    context: &VaultContext,
    revisions: &[FileRevisionRecord],
    limit: u32,
    r: Result<Vec<usize>, StateError>,
)
    requires
        call_ensures(crate::files::queries::list_recent_revisions, (context, revisions, limit), r),
    ensures
        r is Ok <==> 1 <= limit <= 200,
        r matches Ok(picked) ==> {
            &&& picked@.len() <= limit
            &&& forall|i: int|
                0 <= i < picked@.len() ==> (#[trigger] picked@[i]) < revisions@.len()
                    && revisions@[picked@[i] as int].vault_id.text@ == context.id.text@
            &&& forall|i: int, j: int|
                0 <= i < j < picked@.len() ==> (#[trigger] picked@[i]) != (#[trigger] picked@[j])
                    && revisions@[picked@[i] as int].created_at
                    >= revisions@[picked@[j] as int].created_at
            &&& picked@.len() < limit ==> forall|k: int|
                0 <= k < revisions@.len() && (#[trigger] revisions@[k]).vault_id.text@
                    == context.id.text@ ==> picked@.contains(k as usize)
        },
{
    if let Ok(picked) = r {
        let order_keys = revisions@.map_values(
            |row: FileRevisionRecord| crate::files::queries::recency_key(row),
        );
        let marked = revisions@.map_values(
            |row: FileRevisionRecord| row.vault_id@ == context.id@,
        );
        lemma_page_rows(order_keys, marked, true, limit as nat, 0, picked@);
        assert forall|i: int, j: int| 0 <= i < j < picked@.len() implies (#[trigger] picked@[i])
            != (#[trigger] picked@[j]) && revisions@[picked@[i] as int].created_at
            >= revisions@[picked@[j] as int].created_at by {
            assert(no_later(order_keys[picked@[j] as int], order_keys[picked@[i] as int]));
        }
        assert forall|k: int|
            picked@.len() < limit && 0 <= k < revisions@.len() && (
            #[trigger] revisions@[k]).vault_id.text@ == context.id.text@ implies picked@.contains(
            k as usize,
        ) by {
            assert(marked[k]);
        }
    }
}

/// Incomplete intents are those of the vault that are neither settled nor rolled
/// back nor set aside, all of them, the oldest first.
pub proof fn law_incomplete_intents_are_listed(
    context: &VaultContext,
    journal: &[JournalRecord],
    picked: Vec<usize>,
)
    requires
        call_ensures(crate::files::queries::list_incomplete, (context, journal), picked),
    ensures
        is_listing(
            picked@,
            journal@.len(),
            journal@.len(),
            |k: int|
                journal@[k].vault_id.text@ == context.id.text@ && (journal@[k].state
                    == JournalState::Prepared || journal@[k].state == JournalState::FileCommitted),
            |a: int, b: int| journal@[a].created_at <= journal@[b].created_at,
        ),
{
    lemma_selection_listing(
        journal@.map_values(|row: JournalRecord| crate::files::queries::journal_key(row)),
        journal@.map_values(
            |row: JournalRecord| row.vault_id@ == context.id@ && row.state.incomplete(),
        ),
        journal@.len(),
        picked@,
        |k: int|
            journal@[k].vault_id.text@ == context.id.text@ && (journal@[k].state
                == JournalState::Prepared || journal@[k].state == JournalState::FileCommitted),
        |a: int, b: int| journal@[a].created_at <= journal@[b].created_at,
    );
}

} // verus!
