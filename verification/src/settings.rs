//! Global and vault-scoped typed JSON settings.

use vstd::prelude::*;

use crate::domain::{id_of, stored_id, DomainError, Id, Revision, VaultContext};
use crate::error::{accepted_if, invalid, StateError};
use crate::json::{compact_json, Json};
use crate::text::{is_label, label_ok};

pub mod laws;

verus! {

/// One stored setting.
#[derive(Clone, Debug, PartialEq, Eq)]
pub struct SettingRecord {
    /// Owning vault; none for a global setting.
    pub vault_id: Option<Id>,
    /// Stable setting key.
    pub key: String,
    /// Typed value.
    pub value: Json,
    /// Optimistic revision.
    pub revision: Revision,
    /// Last update timestamp.
    pub updated_at: i64,
    /// Non-secret identity of the last writer.
    pub updated_by: Option<Id>,
}

/// A setting as stored.
#[derive(Clone, Debug, PartialEq, Eq)]
pub struct SettingRow {
    pub key: String,
    pub value_json: String,
    pub revision: i64,
    pub updated_at: i64,
    pub updated_by: Option<String>,
}

/// Checks a setting key.
pub fn validate_key(key: &str) -> (r: Result<(), StateError>)
    ensures
        r == accepted_if(label_ok(key@, 128), "setting key is invalid"),
{
    if !is_label(key, 128) {
        return Err(StateError::InvalidInput("setting key is invalid"));
    }
    Ok(())
}

impl SettingRow {
    /// The record that the row holds in its scope.
    pub open spec fn record(self, vault_id: Option<Id>, value: Json) -> SettingRecord {
        SettingRecord {
            vault_id,
            key: self.key,
            value,
            revision: Revision { value: self.revision as u64 },
            updated_at: self.updated_at,
            updated_by: id_of(self.updated_by),
        }
    }
}

/// Reads a stored setting of the given scope.
pub fn setting_row_to_record(row: SettingRow, vault_id: Option<Id>) -> (r: Result<
    SettingRecord,
    StateError,
>)
    ensures
        match compact_json(row.value_json@) {
            None => r == Err::<SettingRecord, StateError>(StateError::Json),
            Some(value) => if row.revision < 0 {
                r == Err::<SettingRecord, StateError>(
                    StateError::InvalidDomain(DomainError::RevisionOutOfRange),
                )
            } else {
                r matches Ok(record) && record == row.record(vault_id, record.value)
                    && record.value@ == value
            },
        },
{
    let value = match Json::parse(row.value_json.as_str()) {
        Ok(value) => value,
        Err(error) => return Err(error),
    };
    let revision = match Revision::from_stored(row.revision) {
        Ok(revision) => revision,
        Err(error) => return Err(StateError::InvalidDomain(error)),
    };
    Ok(
        SettingRecord {
            vault_id,
            key: row.key,
            value,
            revision,
            updated_at: row.updated_at,
            updated_by: stored_id(row.updated_by),
        },
    )
}

/// The stored revision of a setting, if it is stored.
pub open spec fn stored_setting_revision(current: Option<SettingRow>) -> Option<Revision> {
    match current {
        Some(row) => Some(Revision { value: row.revision as u64 }),
        None => None,
    }
}

/// Reads the stored revision of a setting, which a write precondition is
/// checked against.
pub fn current_revision(current: &Option<SettingRow>) -> (r: Result<Option<Revision>, StateError>)
    ensures
        r == (if current is Some && current->0.revision < 0 {
            Err::<Option<Revision>, StateError>(
                StateError::InvalidDomain(DomainError::RevisionOutOfRange),
            )
        } else {
            Ok(stored_setting_revision(*current))
        }),
{
    match current {
        Some(row) => match Revision::from_stored(row.revision) {
            Ok(revision) => Ok(Some(revision)),
            Err(error) => Err(StateError::InvalidDomain(error)),
        },
        None => Ok(None),
    }
}

/// The revision after the given one: one for a new setting.
pub fn next_setting_revision(current: Option<Revision>) -> (r: Result<Revision, StateError>)
    ensures
        r == (match current {
            Some(revision) => match revision.successor() {
                Some(next) => Ok::<Revision, StateError>(next),
                None => Err(StateError::InvalidDomain(DomainError::RevisionOutOfRange)),
            },
            None => Ok(Revision { value: 1 }),
        }),
{
    match current {
        Some(revision) => match revision.next() {
            Ok(next) => Ok(next),
            Err(error) => Err(StateError::InvalidDomain(error)),
        },
        None => Ok(Revision::new(1)),
    }
}

/// A setting write.
#[derive(Clone, Debug, PartialEq, Eq)]
pub struct SettingWrite {
    pub key: String,
    pub value: Json,
    /// Non-secret identity of the writer.
    pub updated_by: Option<Id>,
}

/// Why a write is refused, if it is: the key, the stored revision, the
/// caller's precondition and the next revision must all be in order.
pub open spec fn write_refusal(
    write: SettingWrite,
    current: Option<SettingRow>,
    precondition: Result<(), DomainError>,
) -> Option<StateError> {
    if !label_ok(write.key@, 128) {
        Some(StateError::InvalidInput("setting key is invalid"))
    } else if current is Some && current->0.revision < 0 {
        Some(StateError::InvalidDomain(DomainError::RevisionOutOfRange))
    } else if precondition is Err {
        Some(StateError::InvalidDomain(precondition->Err_0))
    } else if current is Some && current->0.revision == i64::MAX {
        Some(StateError::InvalidDomain(DomainError::RevisionOutOfRange))
    } else {
        None
    }
}

/// The record that an accepted write leaves.
pub open spec fn written(
    vault_id: Option<Id>,
    write: SettingWrite,
    current: Option<SettingRow>,
    now: i64,
) -> SettingRecord {
    SettingRecord {
        vault_id,
        key: write.key,
        value: write.value,
        revision: Revision {
            value: match current {
                Some(row) => (row.revision + 1) as u64,
                None => 1,
            },
        },
        updated_at: now,
        updated_by: write.updated_by,
    }
}

fn write_row(
    vault_id: Option<Id>,
    write: SettingWrite,
    current: Option<SettingRow>,
    precondition: Result<(), DomainError>,
    now: i64,
) -> (r: Result<SettingRecord, StateError>)
    ensures
        r == (match write_refusal(write, current, precondition) {
            Some(error) => Err::<SettingRecord, StateError>(error),
            None => Ok(written(vault_id, write, current, now)),
        }),
{
    match validate_key(write.key.as_str()) {
        Ok(()) => {},
        Err(error) => return Err(error),
    }
    let stored = match current_revision(&current) {
        Ok(stored) => stored,
        Err(error) => return Err(error),
    };
    match precondition {
        Ok(()) => {},
        Err(error) => return Err(StateError::InvalidDomain(error)),
    }
    let revision = match next_setting_revision(stored) {
        Ok(revision) => revision,
        Err(error) => return Err(error),
    };
    match revision.as_i64() {
        Ok(_) => {},
        Err(error) => return Err(StateError::InvalidDomain(error)),
    }
    Ok(
        SettingRecord {
            vault_id,
            key: write.key,
            value: write.value,
            revision,
            updated_at: now,
            updated_by: write.updated_by,
        },
    )
}

/// Insert or update a global setting: `current` is the stored row and
/// `precondition` the answer of the caller's write precondition for its
/// revision.
pub fn set_system(
    write: SettingWrite,
    current: Option<SettingRow>,
    precondition: Result<(), DomainError>,
    now: i64,
) -> (r: Result<SettingRecord, StateError>)
    ensures
        r == (match write_refusal(write, current, precondition) {
            Some(error) => Err::<SettingRecord, StateError>(error),
            None => Ok(written(None, write, current, now)),
        }),
{
    write_row(None, write, current, precondition, now)
}

/// Insert or update a setting of one vault: `current` is the vault's stored
/// row and `precondition` the answer of the caller's write precondition for
/// its revision.
pub fn set_vault(
    context: &VaultContext,
    write: SettingWrite,
    current: Option<SettingRow>,
    precondition: Result<(), DomainError>,
    now: i64,
) -> (r: Result<SettingRecord, StateError>)
    ensures
        r == (match write_refusal(write, current, precondition) {
            Some(error) => Err::<SettingRecord, StateError>(error),
            None => Ok(written(Some(context.id), write, current, now)),
        }),
{
    write_row(Some(context.id.duplicate()), write, current, precondition, now)
}

/// Outcome of a row update that matched no row: another writer came first.
pub fn lost_update() -> (r: StateError)
    ensures
        r == StateError::InvalidDomain(
            DomainError::PreconditionFailed { reason: "setting changed during update" },
        ),
{
    StateError::InvalidDomain(
        DomainError::PreconditionFailed { reason: "setting changed during update" },
    )
}

/// Each accepted write raises the stored revision by exactly one, so no two
/// writes of a setting share a revision.
pub proof fn law_write_raises_revision(
    vault_id: Option<Id>,
    write: SettingWrite,
    current: SettingRow,
    precondition: Result<(), DomainError>,
    now: i64,
)
    requires
        write_refusal(write, Some(current), precondition) is None,
    ensures
        written(vault_id, write, Some(current), now).revision.value == current.revision + 1,
        current.revision + 1 <= i64::MAX,
{
}

} // verus!
