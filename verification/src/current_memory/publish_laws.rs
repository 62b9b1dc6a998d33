//! What publishing, restoring, deleting and reserving an explicit memory does, in
//! terms of the stored rows.

use vstd::prelude::*;

use crate::current_memory::publish::{
    delete_explicit_projection, explicit_idempotency, other_reservations, publish_explicit,
    reserve_explicit, restore_explicit_projection, CurrentExplicitReservation, ExplicitClaim,
    ExplicitPublication,
};
use crate::current_memory::reads::is_canonical;
use crate::current_memory::set_laws::{item_holds, lemma_put, same_identity};
use crate::current_memory::{
    CurrentMemoryBundle, CurrentMemoryOwnership, CurrentMemoryRecord, StoredItem,
};
use crate::domain::{Id, Revision, VaultContext};
use crate::error::StateError;
use crate::files::FileRecord;
use crate::rows::laws::lemma_kept;
use crate::rows::{first_index, lemma_first_index, some_row};
use crate::text::{blank, trimmed};

verus! {

/// Whether the file that a memory is written in is live, at the path and revision
/// that the memory names.
pub open spec fn file_is_in_place(memory: CurrentMemoryRecord, files: Seq<FileRecord>) -> bool {
    &&& memory.canonical_file_id is Some
    &&& memory.canonical_path is Some
    &&& memory.canonical_revision is Some
    &&& exists|f: int|
        {
            &&& 0 <= f < files.len()
            &&& (#[trigger] files[f]).vault_id.text@ == memory.vault_id.text@
            &&& files[f].id.text@ == memory.canonical_file_id->0.text@
            &&& files[f].path.text@ == memory.canonical_path->0.text@
            &&& files[f].current_revision.value == memory.canonical_revision->0.value
            &&& files[f].deleted_at is None
        }
}

/// Whether a bundle stands in the place of its identity, all other items being as
/// they were.
pub open spec fn is_put(
    before: Seq<StoredItem>,
    after: Seq<StoredItem>,
    bundle: CurrentMemoryBundle,
) -> bool {
    exists|at: int|
        {
            &&& 0 <= at < after.len()
            &&& item_holds(#[trigger] after[at], bundle)
            &&& at < before.len() ==> same_identity(before[at].memory, bundle.memory)
                && after.len() == before.len() && after[at].memory.created_at
                == before[at].memory.created_at
            &&& at >= before.len() ==> after.len() == before.len() + 1
                && after[at].memory.created_at == bundle.memory.created_at && forall|k: int|
                0 <= k < before.len() ==> !same_identity(
                    (#[trigger] before[k]).memory,
                    bundle.memory,
                )
            &&& forall|k: int|
                0 <= k < before.len() && k != at ==> #[trigger] after[k] == before[k]
        }
}

/// A published explicit memory is stored as it is given, where its file is in
/// place: new at revision one, or one revision further than the explicit memory
/// that the caller saw. No other item changes.
pub proof fn law_explicit_memories_are_published_as_given(
    context: &VaultContext,
    items: Vec<StoredItem>,
    reservations: Vec<ExplicitClaim>,
    files: &[FileRecord],
    bundle: CurrentMemoryBundle,
    expected: Option<Revision>,
    idempotency: Option<(String, String)>,
    r: Result<ExplicitPublication, StateError>,
)
    requires
        call_ensures(
            publish_explicit,
            (context, items, reservations, files, bundle, expected, idempotency),
            r,
        ),
    ensures
        r matches Ok(after) ==> {
            &&& bundle.memory.vault_id.text@ == context.id.text@
            &&& bundle.memory.ownership == CurrentMemoryOwnership::Explicit
            &&& bundle.note_set is None
            &&& file_is_in_place(bundle.memory, files@)
            &&& is_put(items@, after.items@, bundle)
            &&& expected is None ==> bundle.memory.revision.value == 1 && forall|k: int|
                0 <= k < items@.len() ==> !same_identity(
                    (#[trigger] items@[k]).memory,
                    bundle.memory,
                )
            &&& expected matches Some(seen) ==> bundle.memory.revision.value == seen.value + 1
                && exists|k: int|
                0 <= k < items@.len() && same_identity(
                    (#[trigger] items@[k]).memory,
                    bundle.memory,
                ) && items@[k].memory.ownership == CurrentMemoryOwnership::Explicit
                    && items@[k].memory.revision == seen
        },
{
    if r is Ok {
        let vault = context.id@;
        let rule = |item: StoredItem| item.is(context.id@, bundle.memory.id@);
        lemma_first_index(items@, rule);
        lemma_put(items@, bundle);
        lemma_in_place(bundle.memory, files@);
        lemma_bundle_vault(bundle, context.id@);
        if let Some(k) = first_index(items@, rule) {
            assert(same_identity(items@[k].memory, bundle.memory));
        }
        assert forall|k: int| 0 <= k < items@.len() && !rule(#[trigger] items@[k]) implies
            !same_identity(items@[k].memory, bundle.memory) by {}
    }
}

proof fn lemma_bundle_vault(bundle: CurrentMemoryBundle, vault: Seq<char>)
    requires
        bundle.fault(vault) is None,
    ensures
        bundle.memory.vault_id.text@ == vault,
{
}

proof fn lemma_in_place(memory: CurrentMemoryRecord, files: Seq<FileRecord>)
    ensures
        memory.canonical_live(files) <==> file_is_in_place(memory, files),
{
    if memory.canonical_file_id is Some && memory.canonical_path is Some
        && memory.canonical_revision is Some {
        let rule = |file: FileRecord|
            is_canonical(
                file,
                memory.vault_id@,
                memory.canonical_file_id->0@,
                memory.canonical_path->0@,
                memory.canonical_revision->0,
            );
        if some_row(files, rule) {
            let f = choose|f: int| 0 <= f < files.len() && rule(#[trigger] files[f]);
            assert(files[f].vault_id.text@ == memory.vault_id.text@);
        }
        if file_is_in_place(memory, files) {
            let f = choose|f: int|
                {
                    &&& 0 <= f < files.len()
                    &&& (#[trigger] files[f]).vault_id.text@ == memory.vault_id.text@
                    &&& files[f].id.text@ == memory.canonical_file_id->0.text@
                    &&& files[f].path.text@ == memory.canonical_path->0.text@
                    &&& files[f].current_revision.value == memory.canonical_revision->0.value
                    &&& files[f].deleted_at is None
                };
            assert(rule(files[f]));
        }
    }
}

/// A publication with a key leaves its claim, for the request and the memory, and
/// takes back the reservation that was made for it; one without leaves none.
pub proof fn law_publications_claim_their_key(
    context: &VaultContext,
    items: Vec<StoredItem>,
    reservations: Vec<ExplicitClaim>,
    files: &[FileRecord],
    bundle: CurrentMemoryBundle,
    expected: Option<Revision>,
    idempotency: Option<(String, String)>,
    r: Result<ExplicitPublication, StateError>,
)
    requires
        call_ensures(
            publish_explicit,
            (context, items, reservations, files, bundle, expected, idempotency),
            r,
        ),
    ensures
        r matches Ok(after) ==> match idempotency {
            Some(given) => {
                &&& after.claim is Some
                &&& after.claim->0.vault_id == context.id
                &&& after.claim->0.idempotency_key == given.0
                &&& after.claim->0.request_hash == given.1
                &&& after.claim->0.memory_id == bundle.memory.id
                &&& after.claim->0.created_at == bundle.memory.created_at
                &&& trimmed(given.0@).len() > 0
                &&& vstd::utf8::encode_utf8(given.0@).len() <= 256
                &&& trimmed(given.1@).len() > 0
                &&& forall|row: ExplicitClaim| #[trigger]
                    after.reservations@.contains(row) <==> reservations@.contains(row) && !(
                    row.vault_id.text@ == context.id.text@ && row.idempotency_key@ == given.0@
                        && row.request_hash@ == given.1@ && row.memory_id.text@
                        == bundle.memory.id.text@)
            },
            None => after.claim is None && after.reservations@ == reservations@,
        },
{
    if let Ok(after) = r {
        if let Some(given) = idempotency {
            lemma_blank(given.0@);
            lemma_blank(given.1@);
            let claim = after.claim->0;
            lemma_reservations(reservations@, claim);
        }
    }
}

proof fn lemma_blank(text: Seq<char>)
    ensures
        blank(text) <==> trimmed(text).len() == 0,
{
}

proof fn lemma_reservations(reservations: Seq<ExplicitClaim>, claim: ExplicitClaim)
    ensures
        forall|row: ExplicitClaim| #[trigger]
            other_reservations(reservations, claim).contains(row) <==> reservations.contains(row)
                && !(row.vault_id.text@ == claim.vault_id.text@ && row.idempotency_key@
                == claim.idempotency_key@ && row.request_hash@ == claim.request_hash@
                && row.memory_id.text@ == claim.memory_id.text@),
{
    let rule = |reservation: ExplicitClaim|
        !(reservation.vault_id@ == claim.vault_id@ && reservation.idempotency_key@
            == claim.idempotency_key@ && reservation.request_hash@ == claim.request_hash@
            && reservation.memory_id@ == claim.memory_id@);
    lemma_kept(reservations, rule);
    assert(other_reservations(reservations, claim) == reservations.filter(rule));
}

/// A restored explicit memory is stored as it is given, where its file is in
/// place and no note's memory has its identity.
pub proof fn law_explicit_memories_are_restored_as_given(
    context: &VaultContext,
    items: Vec<StoredItem>,
    files: &[FileRecord],
    bundle: CurrentMemoryBundle,
    r: Result<Vec<StoredItem>, StateError>,
)
    requires
        call_ensures(restore_explicit_projection, (context, items, files, bundle), r),
    ensures
        r matches Ok(after) ==> {
            &&& bundle.memory.vault_id.text@ == context.id.text@
            &&& bundle.memory.ownership == CurrentMemoryOwnership::Explicit
            &&& bundle.note_set is None
            &&& file_is_in_place(bundle.memory, files@)
            &&& is_put(items@, after@, bundle)
        },
{
    if r is Ok {
        lemma_put(items@, bundle);
        lemma_in_place(bundle.memory, files@);
        lemma_bundle_vault(bundle, context.id@);
    }
}

/// An explicit memory that was seen at its revision is deleted, and no other
/// item is.
pub proof fn law_deleting_an_explicit_memory_takes_it_alone(
    context: &VaultContext,
    items: Vec<StoredItem>,
    memory_id: &Id,
    expected: Revision,
    r: Result<Vec<StoredItem>, StateError>,
)
    requires
        call_ensures(delete_explicit_projection, (context, items, memory_id, expected), r),
    ensures
        r matches Ok(after) ==> {
            &&& exists|k: int|
                {
                    &&& 0 <= k < items@.len()
                    &&& (#[trigger] items@[k]).memory.vault_id.text@ == context.id.text@
                    &&& items@[k].memory.id.text@ == memory_id.text@
                    &&& items@[k].memory.ownership == CurrentMemoryOwnership::Explicit
                    &&& items@[k].memory.revision == expected
                }
            &&& forall|item: StoredItem| #[trigger]
                after@.contains(item) <==> items@.contains(item) && !(item.memory.vault_id.text@
                    == context.id.text@ && item.memory.id.text@ == memory_id.text@)
        },
{
    if r is Ok {
        let rule = |item: StoredItem| item.is(context.id@, memory_id@);
        lemma_first_index(items@, rule);
        let k = first_index(items@, rule)->0;
        assert(items@[k].memory.vault_id.text@ == context.id.text@);
        lemma_items_left(items@, *context, *memory_id);
    }
}

proof fn lemma_items_left(items: Seq<StoredItem>, context: VaultContext, memory_id: Id)
    ensures
        forall|item: StoredItem| #[trigger]
            crate::current_memory::publish::without_item(
                items,
                context.id@,
                memory_id@,
            ).contains(item) <==> items.contains(item) && !(item.memory.vault_id.text@
                == context.id.text@ && item.memory.id.text@ == memory_id.text@),
{
    let rule = |item: StoredItem| !item.is(context.id@, memory_id@);
    lemma_kept(items, rule);
    assert(crate::current_memory::publish::without_item(items, context.id@, memory_id@)
        == items.filter(rule));
}

/// A key is answered by the claim of the vault under it, wherever there is one.
pub proof fn law_claims_are_found_by_key(
    context: &VaultContext,
    claims: &[ExplicitClaim],
    key: &str,
    r: Result<Option<usize>, StateError>,
)
    requires
        call_ensures(explicit_idempotency, (context, claims, key), r),
    ensures
        r is Ok <==> trimmed(key@).len() > 0 && vstd::utf8::encode_utf8(key@).len() <= 256,
        r matches Ok(Some(i)) ==> i < claims@.len() && claims@[i as int].vault_id.text@
            == context.id.text@ && claims@[i as int].idempotency_key@ == key@,
        r matches Ok(None) ==> forall|k: int|
            0 <= k < claims@.len() ==> !((#[trigger] claims@[k]).vault_id.text@ == context.id.text@
                && claims@[k].idempotency_key@ == key@),
{
    lemma_blank(key@);
    let rule = |claim: ExplicitClaim|
        claim.vault_id@ == context.id@ && claim.idempotency_key@ == key@;
    lemma_first_index(claims@, rule);
    assert forall|k: int|
        0 <= k < claims@.len() && !rule(#[trigger] claims@[k]) implies !(claims@[k].vault_id.text@
        == context.id.text@ && claims@[k].idempotency_key@ == key@) by {}
}

/// A key is reserved once: the same request gets the reservation that stands,
/// another request is refused, and a new key is reserved for the memory proposed.
pub proof fn law_keys_are_reserved_once(
    key: &str,
    request_hash: &str,
    reserved: Option<CurrentExplicitReservation>,
    proposed: Id,
    now: i64,
    r: Result<CurrentExplicitReservation, StateError>,
)
    requires
        call_ensures(reserve_explicit, (key, request_hash, reserved, proposed, now), r),
    ensures
        r is Ok <==> {
            &&& trimmed(key@).len() > 0
            &&& vstd::utf8::encode_utf8(key@).len() <= 256
            &&& trimmed(request_hash@).len() > 0
            &&& vstd::utf8::encode_utf8(request_hash@).len() <= 256
            &&& reserved is Some ==> reserved->0.request_hash@ == request_hash@
        },
        r matches Ok(row) ==> {
            &&& row.request_hash@ == request_hash@
            &&& reserved is Some ==> row == reserved->0
            &&& reserved is None ==> row.memory_id == proposed && row.created_at == now
        },
{
    lemma_blank(key@);
    lemma_blank(request_hash@);
}

} // verus!
