//! What writing and reading a setting does, in terms of its row.

use vstd::prelude::*;

use crate::domain::{DomainError, Id, VaultContext};
use crate::error::StateError;
use crate::json::compact_json;
use crate::settings::{
    set_system, set_vault, setting_row_to_record, SettingRecord, SettingRow, SettingWrite,
};
use crate::text::label_ok;

verus! {

/// Whether a setting holds a write, one revision further than the row in its
/// place, or at the first.
pub open spec fn is_written(
    record: SettingRecord,
    write: SettingWrite,
    current: Option<SettingRow>,
    now: i64,
) -> bool {
    &&& record.key == write.key
    &&& record.value == write.value
    &&& record.updated_by == write.updated_by
    &&& record.updated_at == now
    &&& record.revision.value == match current {
        Some(row) => row.revision + 1,
        None => 1,
    }
}

/// A setting is written where its key is in order and the caller's precondition
/// holds, for the vault given or for all; it holds what is given.
pub proof fn law_settings_hold_what_is_written(
    context: &VaultContext,
    write: SettingWrite,
    current: Option<SettingRow>,
    precondition: Result<(), DomainError>,
    now: i64,
    shared: Result<SettingRecord, StateError>,
    own: Result<SettingRecord, StateError>,
)
    requires
        call_ensures(set_system, (write, current, precondition, now), shared),
        call_ensures(set_vault, (context, write, current, precondition, now), own),
    ensures
        shared is Ok <==> {
            &&& label_ok(write.key@, 128)
            &&& precondition is Ok
            &&& current is Some ==> 0 <= current->0.revision < i64::MAX
        },
        own is Ok <==> shared is Ok,
        shared is Ok ==> is_written(shared->Ok_0, write, current, now)
            && shared->Ok_0.vault_id is None,
        own is Ok ==> is_written(own->Ok_0, write, current, now) && own->Ok_0.vault_id == Some(
            context.id,
        ),
{
}

/// A stored setting is read column by column, in the scope that it is read for.
pub proof fn law_stored_setting_is_read_by_column(
    row: SettingRow,
    vault_id: Option<Id>,
    r: Result<SettingRecord, StateError>,
)
    requires
        call_ensures(setting_row_to_record, (row, vault_id), r),
    ensures
        r is Ok <==> compact_json(row.value_json@) is Some && row.revision >= 0,
        r matches Ok(record) ==> {
            &&& record.vault_id == vault_id
            &&& record.key == row.key
            &&& compact_json(row.value_json@) == Some(record.value@)
            &&& record.revision.value == row.revision
            &&& record.updated_at == row.updated_at
            &&& record.updated_by is Some <==> row.updated_by is Some
            &&& row.updated_by is Some ==> record.updated_by->0.text == row.updated_by->0
        },
{
}

} // verus!
