//! Publishing, restoring and deleting current memories.
//!
//! Each function takes the stored rows and gives back the rows after the
//! change, or the error that leaves them as they are.

use vstd::prelude::*;

use crate::current_memory::reads::get_unchecked;
use crate::current_memory::{
    checked, validate_current_bundle, CurrentMemoryBundle, CurrentMemoryOwnership,
    CurrentMemoryRecord, CurrentMemorySourceRecord, MemoryNoteSetRecord, StoredItem,
};
use crate::domain::{DomainError, Id, Revision, VaultContext};
use crate::error::{invalid, StateError};
use crate::files::FileRecord;
use crate::rows::{
    any, find, first_index, first_row, keep, lemma_filter_drops, lemma_first_index,
    lemma_first_index_is, some_row,
};
use crate::text::{blank, byte_len, bytes_of, is_blank, text_eq};

verus! {

/// The fault of a revision that does not fit its column.
pub open spec fn unstorable() -> StateError {
    StateError::InvalidDomain(DomainError::RevisionOutOfRange)
}

/// Why an item cannot be stored, if it cannot.
pub open spec fn item_storage_fault(memory: CurrentMemoryRecord) -> Option<StateError> {
    if !memory.revision.storable() || (memory.canonical_revision is Some
        && !memory.canonical_revision->0.storable()) {
        Some(unstorable())
    } else if memory.recall_count > i64::MAX {
        Some(StateError::InvalidInput("current-memory recall count is invalid"))
    } else {
        None
    }
}

/// Why a bundle cannot be stored, if it cannot.
pub open spec fn storage_fault(bundle: CurrentMemoryBundle) -> Option<StateError> {
    match item_storage_fault(bundle.memory) {
        Some(error) => Some(error),
        None => if some_row(
            bundle.sources@,
            |source: CurrentMemorySourceRecord|
                source.note_revision is Some && !source.note_revision->0.storable(),
        ) {
            Some(unstorable())
        } else {
            None
        },
    }
}

/// Checks that a bundle fits its columns.
pub fn check_storable(bundle: &CurrentMemoryBundle) -> (r: Result<(), StateError>)
    ensures
        r == checked(storage_fault(*bundle)),
{
    let memory = &bundle.memory;
    match memory.revision.as_i64() {
        Ok(_) => {},
        Err(error) => return Err(StateError::InvalidDomain(error)),
    }
    match memory.canonical_revision {
        Some(revision) => match revision.as_i64() {
            Ok(_) => {},
            Err(error) => return Err(StateError::InvalidDomain(error)),
        },
        None => {},
    }
    if memory.recall_count > i64::MAX as u64 {
        return Err(StateError::InvalidInput("current-memory recall count is invalid"));
    }
    let accepts = |source: &CurrentMemorySourceRecord| -> (yes: bool)
        ensures
            yes == (source.note_revision is Some && !source.note_revision->0.storable()),
        {
            match source.note_revision {
                Some(revision) => revision.value > i64::MAX as u64,
                None => false,
            }
        };
    if any(
        bundle.sources.as_slice(),
        accepts,
        Ghost(
            |source: CurrentMemorySourceRecord|
                source.note_revision is Some && !source.note_revision->0.storable(),
        ),
    ) {
        return Err(StateError::InvalidDomain(DomainError::RevisionOutOfRange));
    }
    Ok(())
}

/// What the store keeps of a bundle.
pub open spec fn stored(bundle: CurrentMemoryBundle) -> StoredItem {
    StoredItem { memory: bundle.memory, sources: bundle.sources }
}

/// An item after it is overwritten: all but its creation time is new.
pub open spec fn overwritten(old: StoredItem, new: StoredItem) -> StoredItem {
    StoredItem {
        memory: CurrentMemoryRecord { created_at: old.memory.created_at, ..new.memory },
        sources: new.sources,
    }
}

/// Items after one is stored: in place of the item with its identity, else at
/// the end.
pub open spec fn put(items: Seq<StoredItem>, new: StoredItem) -> Seq<StoredItem> {
    match first_index(
        items,
        |item: StoredItem| item.is(new.memory.vault_id@, new.memory.id@),
    ) {
        Some(i) => items.update(i, overwritten(items[i], new)),
        None => items.push(new),
    }
}

/// Stores an item: in place of the item with its identity, else at the end.
pub fn put_item(items: Vec<StoredItem>, new: StoredItem) -> (r: Vec<StoredItem>)
    ensures
        r@ == put(items@, new),
{
    let mut items = items;
    let at = {
        let vault = &new.memory.vault_id;
        let id = &new.memory.id;
        let accepts = |item: &StoredItem| -> (yes: bool)
            ensures
                yes == item.is(vault@, id@),
            { item.is_item(vault, id) };
        find(
            items.as_slice(),
            accepts,
            Ghost(|item: StoredItem| item.is(new.memory.vault_id@, new.memory.id@)),
        )
    };
    match at {
        Some(i) => {
            let created_at: i64 = items[i].memory.created_at;
            items.set(
                i,
                StoredItem {
                    memory: CurrentMemoryRecord { created_at, ..new.memory },
                    sources: new.sources,
                },
            );
        },
        None => {
            items.push(new);
        },
    }
    items
}

/// Why an explicit bundle is refused, if it is.
pub open spec fn explicit_fault(
    bundle: CurrentMemoryBundle,
    vault: Seq<char>,
    reason: &'static str,
) -> Option<StateError> {
    match bundle.fault(vault) {
        Some(error) => Some(error),
        None => if bundle.memory.ownership != CurrentMemoryOwnership::Explicit
            || bundle.note_set is Some {
            Some(StateError::InvalidInput(reason))
        } else {
            None
        },
    }
}

/// Checks an explicit bundle.
fn check_explicit(context: &VaultContext, bundle: &CurrentMemoryBundle, reason: &'static str) -> (r: Result<
    (),
    StateError,
>)
    ensures
        r == checked(explicit_fault(*bundle, context.id@, reason)),
{
    match validate_current_bundle(context, bundle) {
        Ok(()) => {},
        Err(error) => return Err(error),
    }
    if bundle.memory.ownership != CurrentMemoryOwnership::Explicit || bundle.note_set.is_some() {
        return Err(StateError::InvalidInput(reason));
    }
    Ok(())
}

/// Why an optimistic replacement of an explicit item is refused, if it is. A
/// new item starts at revision one; a replacement follows the stored revision
/// that the caller has seen.
pub open spec fn revision_fault(
    current: Option<StoredItem>,
    expected: Option<Revision>,
    proposed: Revision,
) -> Option<StateError> {
    match (current, expected) {
        (None, None) => if proposed.value == 1 {
            None
        } else {
            Some(StateError::Conflict)
        },
        (Some(current), Some(expected)) => if current.memory.ownership
            == CurrentMemoryOwnership::Explicit && current.memory.revision == expected {
            match expected.successor() {
                Some(next) => if proposed == next {
                    None
                } else {
                    Some(StateError::Conflict)
                },
                None => Some(unstorable()),
            }
        } else {
            Some(StateError::Conflict)
        },
        _ => Some(StateError::Conflict),
    }
}

/// Checks an optimistic replacement of an explicit item.
fn check_revision(current: Option<&StoredItem>, expected: Option<Revision>, proposed: Revision) -> (r: Result<
    (),
    StateError,
>)
    ensures
        r == checked(
            revision_fault(
                match current {
                    Some(current) => Some(*current),
                    None => None,
                },
                expected,
                proposed,
            ),
        ),
{
    match (current, expected) {
        (None, None) => {
            if proposed.value != 1 {
                return Err(StateError::Conflict);
            }
            Ok(())
        },
        (Some(current), Some(expected)) => {
            if current.memory.ownership == CurrentMemoryOwnership::Explicit
                && current.memory.revision.value == expected.value {
                match expected.next() {
                    Ok(next) => {
                        if proposed.value == next.value {
                            Ok(())
                        } else {
                            Err(StateError::Conflict)
                        }
                    },
                    Err(error) => Err(StateError::InvalidDomain(error)),
                }
            } else {
                Err(StateError::Conflict)
            }
        },
        _ => Err(StateError::Conflict),
    }
}

/// Why the canonical file of an explicit item does not back it, if so.
pub open spec fn canonical_fault(memory: CurrentMemoryRecord, files: Seq<FileRecord>) -> Option<
    StateError,
> {
    if memory.canonical_file_id is None || memory.canonical_path is None
        || memory.canonical_revision is None {
        Some(StateError::InvalidInput("explicit canonical metadata is missing"))
    } else if !memory.canonical_revision->0.storable() {
        Some(unstorable())
    } else if !memory.canonical_live(files) {
        Some(StateError::Conflict)
    } else {
        None
    }
}

/// Checks that the canonical file of an explicit item backs it: exactly the
/// path and revision that the item names, and not deleted.
pub fn ensure_explicit_canonical_current(memory: &CurrentMemoryRecord, files: &[FileRecord]) -> (r: Result<
    (),
    StateError,
>)
    ensures
        r == checked(canonical_fault(*memory, files@)),
{
    match (&memory.canonical_file_id, &memory.canonical_path, memory.canonical_revision) {
        (Some(_), Some(_), Some(revision)) => match revision.as_i64() {
            Ok(_) => {},
            Err(error) => return Err(StateError::InvalidDomain(error)),
        },
        _ => return Err(StateError::InvalidInput("explicit canonical metadata is missing")),
    }
    if !memory.is_canonical_live(files) {
        return Err(StateError::Conflict);
    }
    Ok(())
}

/// A command's claim on an identity under its idempotency key.
#[derive(Clone, Debug, PartialEq, Eq)]
pub struct ExplicitClaim {
    /// Isolation boundary.
    pub vault_id: Id,
    /// The caller's key.
    pub idempotency_key: String,
    /// Request hash bound to the key.
    pub request_hash: String,
    /// Identity that the command wrote.
    pub memory_id: Id,
    /// Creation time of the item.
    pub created_at: i64,
}

/// Whether a key and request hash can be claimed.
pub open spec fn claim_ok(key: Seq<char>, request_hash: Seq<char>) -> bool {
    !blank(key) && byte_len(key) <= 256 && !blank(request_hash)
}

/// An explicit publication: the items after it, the claim that goes with it and
/// the reservations that are left.
pub struct ExplicitPublication {
    pub items: Vec<StoredItem>,
    pub claim: Option<ExplicitClaim>,
    pub reservations: Vec<ExplicitClaim>,
}

/// Why an explicit publication is refused, if it is.
pub open spec fn publication_fault(
    items: Seq<StoredItem>,
    files: Seq<FileRecord>,
    vault: Seq<char>,
    bundle: CurrentMemoryBundle,
    expected: Option<Revision>,
    idempotency: Option<(String, String)>,
) -> Option<StateError> {
    let current = first_row(items, |item: StoredItem| item.is(vault, bundle.memory.id@));
    if let Some(error) = explicit_fault(
        bundle,
        vault,
        "explicit publication ownership is invalid",
    ) {
        Some(error)
    } else if let Some(error) = revision_fault(current, expected, bundle.memory.revision) {
        Some(error)
    } else if let Some(error) = canonical_fault(bundle.memory, files) {
        Some(error)
    } else if let Some(error) = storage_fault(bundle) {
        Some(error)
    } else if idempotency is Some && !claim_ok((idempotency->0).0@, (idempotency->0).1@) {
        Some(StateError::InvalidInput("current-memory idempotency input is invalid"))
    } else {
        None
    }
}

/// Insert or replace an explicit item after the exact canonical revision was
/// durably written. This is the only direct publication and compares
/// optimistic revisions. The reservation that the claim came from ends.
pub fn publish_explicit(
    context: &VaultContext,
    items: Vec<StoredItem>,
    reservations: Vec<ExplicitClaim>,
    files: &[FileRecord],
    bundle: CurrentMemoryBundle,
    expected_revision: Option<Revision>,
    idempotency: Option<(String, String)>,
) -> (r: Result<ExplicitPublication, StateError>)
    ensures
        match publication_fault(
            items@,
            files@,
            context.id@,
            bundle,
            expected_revision,
            idempotency,
        ) {
            Some(error) => r == Err::<ExplicitPublication, StateError>(error),
            None => {
                &&& r matches Ok(after)
                &&& after.items@ == put(items@, stored(bundle))
                &&& after.claim == (match idempotency {
                    Some((key, hash)) => Some(
                        ExplicitClaim {
                            vault_id: context.id,
                            idempotency_key: key,
                            request_hash: hash,
                            memory_id: bundle.memory.id,
                            created_at: bundle.memory.created_at,
                        },
                    ),
                    None => None::<ExplicitClaim>,
                })
                &&& after.reservations@ == (match after.claim {
                    Some(claim) => other_reservations(reservations@, claim),
                    None => reservations@,
                })
            },
        },
{
    match check_explicit(context, &bundle, "explicit publication ownership is invalid") {
        Ok(()) => {},
        Err(error) => return Err(error),
    }
    let at = get_unchecked(context, items.as_slice(), &bundle.memory.id);
    let current: Option<&StoredItem> = match at {
        Some(i) => Some(&items[i]),
        None => None,
    };
    match check_revision(current, expected_revision, bundle.memory.revision) {
        Ok(()) => {},
        Err(error) => return Err(error),
    }
    match ensure_explicit_canonical_current(&bundle.memory, files) {
        Ok(()) => {},
        Err(error) => return Err(error),
    }
    match check_storable(&bundle) {
        Ok(()) => {},
        Err(error) => return Err(error),
    }
    let claim = match idempotency {
        Some((key, request_hash)) => {
            if is_blank(key.as_str()) || bytes_of(key.as_str()) > 256 || is_blank(
                request_hash.as_str(),
            ) {
                return Err(
                    StateError::InvalidInput("current-memory idempotency input is invalid"),
                );
            }
            Some(
                ExplicitClaim {
                    vault_id: context.id.duplicate(),
                    idempotency_key: key,
                    request_hash,
                    memory_id: bundle.memory.id.duplicate(),
                    created_at: bundle.memory.created_at,
                },
            )
        },
        None => None,
    };
    let after = put_item(
        items,
        StoredItem { memory: bundle.memory, sources: bundle.sources },
    );
    let reservations = match &claim {
        Some(claim) => release_reservation(reservations, claim),
        None => reservations,
    };
    Ok(ExplicitPublication { items: after, claim, reservations })
}

/// Reservations that stay when a claim takes effect: all but the one that the
/// claim came from.
pub open spec fn other_reservations(reservations: Seq<ExplicitClaim>, claim: ExplicitClaim) -> Seq<
    ExplicitClaim,
> {
    reservations.filter(
        |reservation: ExplicitClaim|
            !(reservation.vault_id@ == claim.vault_id@ && reservation.idempotency_key@
                == claim.idempotency_key@ && reservation.request_hash@ == claim.request_hash@
                && reservation.memory_id@ == claim.memory_id@),
    )
}

/// Releases the reservation that a claim came from.
pub fn release_reservation(reservations: Vec<ExplicitClaim>, claim: &ExplicitClaim) -> (r: Vec<
    ExplicitClaim,
>)
    ensures
        r@ == other_reservations(reservations@, *claim),
{
    let accepts = |reservation: &ExplicitClaim| -> (yes: bool)
        ensures
            yes == !(reservation.vault_id@ == claim.vault_id@ && reservation.idempotency_key@
                == claim.idempotency_key@ && reservation.request_hash@ == claim.request_hash@
                && reservation.memory_id@ == claim.memory_id@),
        {
            !(reservation.vault_id.same(&claim.vault_id) && text_eq(
                reservation.idempotency_key.as_str(),
                claim.idempotency_key.as_str(),
            ) && text_eq(reservation.request_hash.as_str(), claim.request_hash.as_str())
                && reservation.memory_id.same(&claim.memory_id))
        };
    keep(
        reservations,
        accepts,
        Ghost(
            |reservation: ExplicitClaim|
                !(reservation.vault_id@ == claim.vault_id@ && reservation.idempotency_key@
                    == claim.idempotency_key@ && reservation.request_hash@ == claim.request_hash@
                    && reservation.memory_id@ == claim.memory_id@),
        ),
    )
}

/// Why a recovery of an explicit item is refused, if it is.
pub open spec fn recovery_fault(
    items: Seq<StoredItem>,
    files: Seq<FileRecord>,
    vault: Seq<char>,
    bundle: CurrentMemoryBundle,
) -> Option<StateError> {
    let current = first_row(items, |item: StoredItem| item.is(vault, bundle.memory.id@));
    if let Some(error) = explicit_fault(bundle, vault, "explicit recovery ownership is invalid") {
        Some(error)
    } else if current is Some && current->0.memory.ownership != CurrentMemoryOwnership::Explicit {
        Some(StateError::Conflict)
    } else if let Some(error) = canonical_fault(bundle.memory, files) {
        Some(error)
    } else {
        storage_fault(bundle)
    }
}

/// Restore an explicit item from its already-current canonical Markdown. This
/// recovery path needs no revision transition, but refuses to change ownership
/// or to bypass the canonical file check.
pub fn restore_explicit_projection(
    context: &VaultContext,
    items: Vec<StoredItem>,
    files: &[FileRecord],
    bundle: CurrentMemoryBundle,
) -> (r: Result<Vec<StoredItem>, StateError>)
    ensures
        match recovery_fault(items@, files@, context.id@, bundle) {
            Some(error) => r == Err::<Vec<StoredItem>, StateError>(error),
            None => r matches Ok(after) && after@ == put(items@, stored(bundle)),
        },
{
    match check_explicit(context, &bundle, "explicit recovery ownership is invalid") {
        Ok(()) => {},
        Err(error) => return Err(error),
    }
    match get_unchecked(context, items.as_slice(), &bundle.memory.id) {
        Some(i) => {
            if items[i].memory.ownership != CurrentMemoryOwnership::Explicit {
                return Err(StateError::Conflict);
            }
        },
        None => {},
    }
    match ensure_explicit_canonical_current(&bundle.memory, files) {
        Ok(()) => {},
        Err(error) => return Err(error),
    }
    match check_storable(&bundle) {
        Ok(()) => {},
        Err(error) => return Err(error),
    }
    Ok(put_item(items, StoredItem { memory: bundle.memory, sources: bundle.sources }))
}

/// The position of the claim under an idempotency key, if there is one. The
/// caller compares the request hash before it returns the item.
pub fn explicit_idempotency(context: &VaultContext, claims: &[ExplicitClaim], key: &str) -> (r: Result<
    Option<usize>,
    StateError,
>)
    ensures
        if blank(key@) || byte_len(key@) > 256 {
            r == invalid::<Option<usize>>("current-memory idempotency key is invalid")
        } else {
            match r {
                Ok(Some(i)) => i < claims@.len() && first_index(
                    claims@,
                    |claim: ExplicitClaim|
                        claim.vault_id@ == context.id@ && claim.idempotency_key@ == key@,
                ) == Some(i as int),
                Ok(None) => first_index(
                    claims@,
                    |claim: ExplicitClaim|
                        claim.vault_id@ == context.id@ && claim.idempotency_key@ == key@,
                ) is None,
                Err(_) => false,
            }
        },
{
    if is_blank(key) || bytes_of(key) > 256 {
        return Err(StateError::InvalidInput("current-memory idempotency key is invalid"));
    }
    let accepts = |claim: &ExplicitClaim| -> (yes: bool)
        ensures
            yes == (claim.vault_id@ == context.id@ && claim.idempotency_key@ == key@),
        { claim.vault_id.same(&context.id) && text_eq(claim.idempotency_key.as_str(), key) };
    Ok(
        find(
            claims,
            accepts,
            Ghost(
                |claim: ExplicitClaim|
                    claim.vault_id@ == context.id@ && claim.idempotency_key@ == key@,
            ),
        ),
    )
}

/// Durable identity reservation for a retryable explicit-memory command.
#[derive(Clone, Debug, PartialEq, Eq)]
pub struct CurrentExplicitReservation {
    /// Request hash bound to the caller's idempotency key.
    pub request_hash: String,
    /// Stable identity allocated before the canonical write.
    pub memory_id: Id,
    /// Stable creation time reused by retries.
    pub created_at: i64,
}

/// Allocate or recover an explicit-memory identity before the canonical file
/// write. `reserved` is what the vault has reserved under the key. Reusing a
/// key for different input fails closed.
pub fn reserve_explicit(
    key: &str,
    request_hash: &str,
    reserved: Option<CurrentExplicitReservation>,
    proposed_id: Id,
    now: i64,
) -> (r: Result<CurrentExplicitReservation, StateError>)
    ensures
        if !claim_ok(key@, request_hash@) || byte_len(request_hash@) > 256 {
            r == invalid::<CurrentExplicitReservation>(
                "current-memory reservation input is invalid",
            )
        } else {
            match reserved {
                Some(reserved) => r == if reserved.request_hash@ == request_hash@ {
                    Ok::<CurrentExplicitReservation, StateError>(reserved)
                } else {
                    Err(StateError::Conflict)
                },
                None => r matches Ok(fresh) && fresh.request_hash@ == request_hash@
                    && fresh.memory_id == proposed_id && fresh.created_at == now,
            }
        },
{
    if is_blank(key) || bytes_of(key) > 256 || is_blank(request_hash) || bytes_of(request_hash)
        > 256 {
        return Err(StateError::InvalidInput("current-memory reservation input is invalid"));
    }
    match reserved {
        Some(reserved) => {
            if !text_eq(reserved.request_hash.as_str(), request_hash) {
                return Err(StateError::Conflict);
            }
            Ok(reserved)
        },
        None => Ok(
            CurrentExplicitReservation {
                request_hash: request_hash.to_owned(),
                memory_id: proposed_id,
                created_at: now,
            },
        ),
    }
}

/// Why the deletion of an explicit item is refused, if it is.
pub open spec fn deletion_fault(
    items: Seq<StoredItem>,
    vault: Seq<char>,
    id: Seq<char>,
    expected: Revision,
) -> Option<StateError> {
    let current = first_row(items, |item: StoredItem| item.is(vault, id));
    if !(current is Some && current->0.memory.ownership == CurrentMemoryOwnership::Explicit
        && current->0.memory.revision == expected) {
        Some(StateError::Conflict)
    } else if !expected.storable() {
        Some(unstorable())
    } else {
        None
    }
}

/// Items without one of them.
pub open spec fn without_item(items: Seq<StoredItem>, vault: Seq<char>, id: Seq<char>) -> Seq<
    StoredItem,
> {
    items.filter(|item: StoredItem| !item.is(vault, id))
}

/// Removes an item with its provenance.
fn drop_item(items: Vec<StoredItem>, vault: &Id, id: &Id) -> (r: Vec<StoredItem>)
    ensures
        r@ == without_item(items@, vault@, id@),
{
    let accepts = |item: &StoredItem| -> (yes: bool)
        ensures
            yes == !item.is(vault@, id@),
        { !item.is_item(vault, id) };
    keep(items, accepts, Ghost(|item: StoredItem| !item.is(vault@, id@)))
}

/// Delete one explicit item after its canonical file is no longer current.
pub fn delete_explicit_projection(
    context: &VaultContext,
    items: Vec<StoredItem>,
    memory_id: &Id,
    expected_revision: Revision,
) -> (r: Result<Vec<StoredItem>, StateError>)
    ensures
        match deletion_fault(items@, context.id@, memory_id@, expected_revision) {
            Some(error) => r == Err::<Vec<StoredItem>, StateError>(error),
            None => r matches Ok(after) && after@ == without_item(
                items@,
                context.id@,
                memory_id@,
            ),
        },
{
    match get_unchecked(context, items.as_slice(), memory_id) {
        Some(i) => {
            let memory = &items[i].memory;
            if memory.ownership != CurrentMemoryOwnership::Explicit || memory.revision.value
                != expected_revision.value {
                return Err(StateError::Conflict);
            }
        },
        None => return Err(StateError::Conflict),
    }
    match expected_revision.as_i64() {
        Ok(_) => {},
        Err(error) => return Err(StateError::InvalidDomain(error)),
    }
    Ok(drop_item(items, &context.id, memory_id))
}

/// A deleted item is found no more.
pub proof fn law_deleted_item_is_gone(items: Seq<StoredItem>, vault: Seq<char>, id: Seq<char>)
    ensures
        first_index(without_item(items, vault, id), |item: StoredItem| item.is(vault, id)) is None,
{
    let rule = |item: StoredItem| item.is(vault, id);
    let other = |item: StoredItem| !item.is(vault, id);
    assert(other =~= |item: StoredItem| !rule(item));
    lemma_filter_drops(items, rule);
    lemma_first_index(items.filter(other), rule);
}

/// An explicit item that was published is readable at once: the very file that
/// backs it was checked.
pub proof fn law_published_item_is_readable(
    items: Seq<StoredItem>,
    sets: Seq<MemoryNoteSetRecord>,
    files: Seq<FileRecord>,
    vault: Seq<char>,
    bundle: CurrentMemoryBundle,
    expected: Option<Revision>,
    idempotency: Option<(String, String)>,
)
    requires
        publication_fault(items, files, vault, bundle, expected, idempotency) is None,
    ensures
        ({
            let after = put(items, stored(bundle));
            let found = first_row(
                after,
                |item: StoredItem| item.is(vault, bundle.memory.id@) && item.memory.eligible(sets, files),
            );
            found is Some && found->0.memory.content == bundle.memory.content
                && found->0.memory.revision == bundle.memory.revision && found->0.sources
                == bundle.sources
        }),
{
    let same = |item: StoredItem|
        item.is(stored(bundle).memory.vault_id@, stored(bundle).memory.id@);
    let readable = |item: StoredItem|
        item.is(vault, bundle.memory.id@) && item.memory.eligible(sets, files);
    let after = put(items, stored(bundle));
    lemma_first_index(items, same);
    let at = match first_index(items, same) {
        Some(i) => i,
        None => items.len() as int,
    };
    assert(readable(after[at]));
    assert forall|k: int| 0 <= k < at implies !readable(#[trigger] after[k]) by {
        assert(after[k] == items[k]);
        assert(!same(items[k]));
    }
    lemma_first_index_is(after, readable, at);
}

/// A stale writer is refused: an explicit item is replaced only from the
/// revision that is stored, and then advances by exactly one.
pub proof fn law_stale_explicit_writer_is_refused(
    items: Seq<StoredItem>,
    files: Seq<FileRecord>,
    vault: Seq<char>,
    bundle: CurrentMemoryBundle,
    expected: Option<Revision>,
    idempotency: Option<(String, String)>,
)
    requires
        publication_fault(items, files, vault, bundle, expected, idempotency) is None,
    ensures
        match first_row(items, |item: StoredItem| item.is(vault, bundle.memory.id@)) {
            Some(current) => expected == Some(current.memory.revision)
                && bundle.memory.revision.value == current.memory.revision.value + 1,
            None => expected is None && bundle.memory.revision.value == 1,
        },
{
}

} // verus!
