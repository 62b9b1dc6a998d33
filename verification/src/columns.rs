//! What reading a stored row gives, column by column.

use vstd::prelude::*;

use crate::error::StateError;

verus! {

/// A stored audit entry is read column by column; a row is refused exactly where a
/// column cannot hold such a value.
pub proof fn law_stored_audit_entry_is_read_by_column(row: crate::audit::AuditRow, r: Result<crate::audit::AuditRecord, StateError>)
    requires
        call_ensures(crate::audit::row_to_audit, (row,), r),
    ensures
        r is Ok <==> {
            &&& crate::json::compact_json(row.metadata_json@) is Some
        },
        r matches Ok(record) ==> {
            &&& record.id.text == row.id
            &&& record.occurred_at == row.occurred_at
            &&& record.request_id == row.request_id
            &&& record.vault_id is Some <==> row.vault_id is Some
            &&& row.vault_id is Some ==> record.vault_id->0.text == row.vault_id->0
            &&& record.plane == row.plane
            &&& record.actor_type == row.actor_type
            &&& record.actor_id is Some <==> row.actor_id is Some
            &&& row.actor_id is Some ==> record.actor_id->0.text == row.actor_id->0
            &&& record.action == row.action
            &&& record.target_type == row.target_type
            &&& record.target_id == row.target_id
            &&& record.target_path_hash == row.target_path_hash
            &&& record.result == row.result
            &&& crate::json::compact_json(row.metadata_json@) == Some(record.metadata@)
        },
{
}

/// A stored secret is read column by column; a row is refused exactly where a
/// column cannot hold such a value.
pub proof fn law_stored_secret_is_read_by_column(row: crate::auth::EncryptedSecretRow, r: Result<crate::auth::EncryptedSecretRecord, StateError>)
    requires
        call_ensures(crate::auth::row_to_secret, (row,), r),
    ensures
        r is Ok <==> {
            &&& 0 <= row.key_version <= u32::MAX
        },
        r matches Ok(record) ==> {
            &&& record.id.text == row.id
            &&& record.purpose == row.purpose
            &&& record.owner_type == row.owner_type
            &&& record.owner_id == row.owner_id
            &&& record.key_version == row.key_version
            &&& record.nonce == row.nonce
            &&& record.ciphertext == row.ciphertext
            &&& record.hint == row.hint
            &&& record.created_at == row.created_at
            &&& record.updated_at == row.updated_at
        },
{
}

/// Every stored administrator is read, column by column.
pub proof fn law_stored_administrator_is_read_by_column(row: crate::auth::AdminUserRow, r: Result<crate::auth::AdminUserRecord, StateError>)
    requires
        call_ensures(crate::auth::row_to_admin_user, (row,), r),
    ensures
        r is Ok,
        r matches Ok(record) ==> {
            &&& record.id.text == row.id
            &&& record.username == row.username
            &&& record.password_hash == row.password_hash
            &&& record.disabled <==> row.disabled != 0
            &&& record.password_changed_at == row.password_changed_at
            &&& record.created_at == row.created_at
            &&& record.updated_at == row.updated_at
        },
{
}

/// A stored session is read column by column; a row is refused exactly where a
/// column cannot hold such a value.
pub proof fn law_stored_session_is_read_by_column(row: crate::auth::AdminSessionRow, r: Result<crate::auth::AdminSessionRecord, StateError>)
    requires
        call_ensures(crate::auth::row_to_session, (row,), r),
    ensures
        r is Ok <==> {
            &&& 0 <= row.digest_key_version <= u32::MAX
        },
        r matches Ok(record) ==> {
            &&& record.id.text == row.id
            &&& record.user_id.text == row.user_id
            &&& record.token_digest == row.token_digest
            &&& record.csrf_secret_digest == row.csrf_secret_digest
            &&& record.digest_key_version == row.digest_key_version
            &&& record.created_at == row.created_at
            &&& record.last_seen_at == row.last_seen_at
            &&& record.expires_at == row.expires_at
            &&& record.source_ip == row.source_ip
            &&& record.user_agent_hash == row.user_agent_hash
            &&& record.revoked_at == row.revoked_at
        },
{
}

/// Every stored WebDAV credential is read, column by column.
pub proof fn law_stored_webdav_credential_is_read_by_column(row: crate::auth::WebDavCredentialRow, r: Result<crate::auth::WebDavCredentialRecord, StateError>)
    requires
        call_ensures(crate::auth::row_to_webdav, (row,), r),
    ensures
        r is Ok,
        r matches Ok(record) ==> {
            &&& record.id.text == row.id
            &&& record.vault_id.text == row.vault_id
            &&& record.name == row.name
            &&& record.username == row.username
            &&& record.password_hash == row.password_hash
            &&& record.permissions_json == row.permissions_json
            &&& record.created_at == row.created_at
            &&& record.last_used_at == row.last_used_at
            &&& record.expires_at == row.expires_at
            &&& record.revoked_at == row.revoked_at
        },
{
}

/// A stored access token is read column by column; a row is refused exactly where a
/// column cannot hold such a value.
pub proof fn law_stored_access_token_is_read_by_column(row: crate::auth::McpTokenRow, r: Result<crate::auth::McpTokenRecord, StateError>)
    requires
        call_ensures(crate::auth::row_to_mcp, (row,), r),
    ensures
        r is Ok <==> {
            &&& 0 <= row.digest_key_version <= u32::MAX
        },
        r matches Ok(record) ==> {
            &&& record.id.text == row.id
            &&& record.vault_id.text == row.vault_id
            &&& record.name == row.name
            &&& record.token_prefix == row.token_prefix
            &&& record.token_digest == row.token_digest
            &&& record.digest_key_version == row.digest_key_version
            &&& record.scopes_json == row.scopes_json
            &&& record.created_at == row.created_at
            &&& record.last_used_at == row.last_used_at
            &&& record.expires_at == row.expires_at
            &&& record.revoked_at == row.revoked_at
        },
{
}

/// Every stored issuer is read, column by column.
pub proof fn law_stored_issuer_is_read_by_column(row: crate::auth::OAuthIssuerRow, r: Result<crate::auth::OAuthIssuerRecord, StateError>)
    requires
        call_ensures(crate::auth::row_to_issuer, (row,), r),
    ensures
        r is Ok,
        r matches Ok(record) ==> {
            &&& record.id.text == row.id
            &&& record.name == row.name
            &&& record.issuer_url == row.issuer_url
            &&& record.discovery_url == row.discovery_url
            &&& record.audience == row.audience
            &&& record.resource == row.resource
            &&& record.jwks_cache_json == row.jwks_cache_json
            &&& record.jwks_cached_at == row.jwks_cached_at
            &&& record.enabled <==> row.enabled != 0
            &&& record.created_at == row.created_at
            &&& record.updated_at == row.updated_at
        },
{
}

/// Every stored grant is read, column by column.
pub proof fn law_stored_grant_is_read_by_column(row: crate::auth::OAuthGrantRow, r: Result<crate::auth::OAuthGrantRecord, StateError>)
    requires
        call_ensures(crate::auth::row_to_grant, (row,), r),
    ensures
        r is Ok,
        r matches Ok(record) ==> {
            &&& record.id.text == row.id
            &&& record.issuer_id.text == row.issuer_id
            &&& record.subject == row.subject
            &&& record.vault_id.text == row.vault_id
            &&& record.scopes_json == row.scopes_json
            &&& record.created_at == row.created_at
            &&& record.updated_at == row.updated_at
            &&& record.revoked_at == row.revoked_at
        },
{
}

/// A stored backup is read column by column; a row is refused exactly where a
/// column cannot hold such a value.
pub proof fn law_stored_backup_is_read_by_column(row: crate::backups::BackupRow, r: Result<crate::backups::BackupRecord, StateError>)
    requires
        call_ensures(crate::backups::row_to_record, (row,), r),
    ensures
        r is Ok <==> {
            &&& (row.status@ == "queued"@ || row.status@ == "running"@ || row.status@ == "completed"@ || row.status@ == "failed"@ || row.status@ == "validating"@ || row.status@ == "restoring"@)
            &&& row.manifest_json is Some ==> crate::json::compact_json(row.manifest_json->0@) is Some
        },
        r matches Ok(record) ==> {
            &&& record.id.text == row.id
            &&& match record.status {
                crate::backups::BackupStatus::Queued => row.status@ == "queued"@,
                crate::backups::BackupStatus::Running => row.status@ == "running"@,
                crate::backups::BackupStatus::Completed => row.status@ == "completed"@,
                crate::backups::BackupStatus::Failed => row.status@ == "failed"@,
                crate::backups::BackupStatus::Validating => row.status@ == "validating"@,
                crate::backups::BackupStatus::Restoring => row.status@ == "restoring"@,
            }
            &&& record.location == row.location
            &&& record.manifest is Some <==> row.manifest_json is Some
            &&& record.manifest is Some ==> crate::json::compact_json(row.manifest_json->0@) == Some(record.manifest->0@)
            &&& record.started_at == row.started_at
            &&& record.completed_at == row.completed_at
            &&& record.verified_at == row.verified_at
            &&& record.error == row.error
            &&& record.created_by == row.created_by
        },
{
}

/// A stored current memory is read column by column; a row is refused exactly where a
/// column cannot hold such a value.
pub proof fn law_stored_current_memory_is_read_by_column(row: crate::current_memory::CurrentMemoryRow, r: Result<crate::current_memory::CurrentMemoryRecord, StateError>)
    requires
        call_ensures(crate::current_memory::row_to_item, (row,), r),
    ensures
        r is Ok <==> {
            &&& (row.ownership@ == "explicit"@ || row.ownership@ == "note_derived"@)
            &&& row.ordinal is Some ==> 0 <= row.ordinal->0 <= u32::MAX
            &&& row.revision >= 0
            &&& row.canonical_revision is Some ==> row.canonical_revision->0 >= 0
            &&& crate::json::json_strings(row.tags_json@) is Some
            &&& crate::json::json_strings(row.entities_json@) is Some
            &&& crate::json::compact_json(row.metadata_json@) is Some
            &&& row.recall_count >= 0
        },
        r matches Ok(record) ==> {
            &&& record.id.text == row.id
            &&& record.vault_id.text == row.vault_id
            &&& match record.ownership {
                crate::current_memory::CurrentMemoryOwnership::Explicit => row.ownership@ == "explicit"@,
                crate::current_memory::CurrentMemoryOwnership::NoteDerived => row.ownership@ == "note_derived"@,
            }
            &&& record.note_set_id is Some <==> row.note_set_id is Some
            &&& row.note_set_id is Some ==> record.note_set_id->0.text == row.note_set_id->0
            &&& record.ordinal is Some <==> row.ordinal is Some
            &&& row.ordinal is Some ==> record.ordinal->0 == row.ordinal->0
            &&& record.kind == row.kind
            &&& record.content == row.content
            &&& record.normalized_content == row.normalized_content
            &&& record.content_hash == row.content_hash
            &&& record.importance == row.importance
            &&& record.confidence == row.confidence
            &&& record.origin == row.origin
            &&& record.revision.value == row.revision
            &&& record.canonical_file_id is Some <==> row.canonical_file_id is Some
            &&& row.canonical_file_id is Some ==> record.canonical_file_id->0.text == row.canonical_file_id->0
            &&& record.canonical_path is Some <==> row.canonical_path is Some
            &&& row.canonical_path is Some ==> record.canonical_path->0.text == row.canonical_path->0
            &&& record.canonical_revision is Some <==> row.canonical_revision is Some
            &&& row.canonical_revision is Some ==> record.canonical_revision->0.value == row.canonical_revision->0
            &&& record.valid_from == row.valid_from
            &&& record.valid_to == row.valid_to
            &&& crate::json::json_strings(row.tags_json@) == Some(record.tags@.map_values(|text: String| text@))
            &&& crate::json::json_strings(row.entities_json@) == Some(record.entities@.map_values(|text: String| text@))
            &&& crate::json::compact_json(row.metadata_json@) == Some(record.metadata@)
            &&& record.created_at == row.created_at
            &&& record.updated_at == row.updated_at
            &&& record.last_recalled_at == row.last_recalled_at
            &&& record.recall_count == row.recall_count
        },
{
}

/// A stored current memory source is read column by column; a row is refused exactly where a
/// column cannot hold such a value.
pub proof fn law_stored_current_memory_source_is_read_by_column(row: crate::current_memory::CurrentMemorySourceRow, r: Result<crate::current_memory::CurrentMemorySourceRecord, StateError>)
    requires
        call_ensures(crate::current_memory::row_to_source, (row,), r),
    ensures
        r is Ok <==> {
            &&& row.note_revision is Some ==> row.note_revision->0 >= 0
            &&& crate::json::json_strings(row.heading_path_json@) is Some
            &&& row.start_line is Some ==> 0 <= row.start_line->0 <= u32::MAX
            &&& row.end_line is Some ==> 0 <= row.end_line->0 <= u32::MAX
        },
        r matches Ok(record) ==> {
            &&& record.id.text == row.id
            &&& record.vault_id.text == row.vault_id
            &&& record.memory_id.text == row.memory_id
            &&& record.source_type == row.source_type
            &&& record.note_file_id is Some <==> row.note_file_id is Some
            &&& row.note_file_id is Some ==> record.note_file_id->0.text == row.note_file_id->0
            &&& record.note_path is Some <==> row.note_path is Some
            &&& row.note_path is Some ==> record.note_path->0.text == row.note_path->0
            &&& record.note_revision is Some <==> row.note_revision is Some
            &&& row.note_revision is Some ==> record.note_revision->0.value == row.note_revision->0
            &&& record.source_content_hash == row.source_content_hash
            &&& crate::json::json_strings(row.heading_path_json@) == Some(record.heading_path@.map_values(|text: String| text@))
            &&& record.start_line is Some <==> row.start_line is Some
            &&& row.start_line is Some ==> record.start_line->0 == row.start_line->0
            &&& record.end_line is Some <==> row.end_line is Some
            &&& row.end_line is Some ==> record.end_line->0 == row.end_line->0
            &&& record.excerpt_hash == row.excerpt_hash
            &&& record.actor_id == row.actor_id
            &&& record.created_at == row.created_at
        },
{
}

/// A stored note set is read column by column; a row is refused exactly where a
/// column cannot hold such a value.
pub proof fn law_stored_note_set_is_read_by_column(row: crate::current_memory::MemoryNoteSetRow, r: Result<crate::current_memory::MemoryNoteSetRecord, StateError>)
    requires
        call_ensures(crate::current_memory::row_to_set, (row,), r),
    ensures
        r is Ok <==> {
            &&& row.source_revision >= 0
            &&& row.set_revision >= 0
            &&& row.canonical_revision >= 0
        },
        r matches Ok(record) ==> {
            &&& record.id.text == row.id
            &&& record.vault_id.text == row.vault_id
            &&& record.source_file_id.text == row.source_file_id
            &&& record.source_path.text == row.source_path
            &&& record.source_content_hash == row.source_content_hash
            &&& record.source_revision.value == row.source_revision
            &&& record.set_revision.value == row.set_revision
            &&& record.extraction_paused <==> row.extraction_paused != 0
            &&& record.canonical_file_id.text == row.canonical_file_id
            &&& record.canonical_path.text == row.canonical_path
            &&& record.canonical_revision.value == row.canonical_revision
            &&& record.profile_hash == row.profile_hash
            &&& record.prompt_version == row.prompt_version
            &&& record.provider_id is Some <==> row.provider_id is Some
            &&& row.provider_id is Some ==> record.provider_id->0.text == row.provider_id->0
            &&& record.model_id is Some <==> row.model_id is Some
            &&& row.model_id is Some ==> record.model_id->0.text == row.model_id->0
            &&& record.created_at == row.created_at
            &&& record.updated_at == row.updated_at
        },
{
}

/// A stored set proposal is read column by column; a row is refused exactly where a
/// column cannot hold such a value.
pub proof fn law_stored_set_proposal_is_read_by_column(row: crate::current_memory::MemoryNoteSetSnapshotRow, r: Result<crate::current_memory::MemoryNoteSetSnapshotRecord, StateError>)
    requires
        call_ensures(crate::current_memory::row_to_snapshot, (row,), r),
    ensures
        r is Ok <==> {
            &&& row.source_revision >= 0
            &&& row.expected_set_revision is Some ==> row.expected_set_revision->0 >= 0
            &&& row.proposed_set_revision >= 0
            &&& crate::json::compact_json(row.items_json@) is Some
        },
        r matches Ok(record) ==> {
            &&& record.id.text == row.id
            &&& record.vault_id.text == row.vault_id
            &&& record.note_set_id.text == row.note_set_id
            &&& record.source_file_id.text == row.source_file_id
            &&& record.source_path.text == row.source_path
            &&& record.source_content_hash == row.source_content_hash
            &&& record.source_revision.value == row.source_revision
            &&& record.expected_set_revision is Some <==> row.expected_set_revision is Some
            &&& row.expected_set_revision is Some ==> record.expected_set_revision->0.value == row.expected_set_revision->0
            &&& record.proposed_set_revision.value == row.proposed_set_revision
            &&& record.extraction_paused <==> row.extraction_paused != 0
            &&& crate::json::compact_json(row.items_json@) == Some(record.items@)
            &&& record.canonical_bytes_hash == row.canonical_bytes_hash
            &&& record.canonical_path.text == row.canonical_path
            &&& record.profile_hash == row.profile_hash
            &&& record.prompt_version == row.prompt_version
            &&& record.provider_id.text == row.provider_id
            &&& record.model_id.text == row.model_id
            &&& record.status == row.status
            &&& record.created_at == row.created_at
            &&& record.applied_at == row.applied_at
        },
{
}

/// A stored file is read column by column; a row is refused exactly where a
/// column cannot hold such a value.
pub proof fn law_stored_file_is_read_by_column(row: crate::files::FileRow, r: Result<crate::files::FileRecord, StateError>)
    requires
        call_ensures(crate::files::row_to_file, (row,), r),
    ensures
        r is Ok <==> {
            &&& (row.entry_type@ == "file"@ || row.entry_type@ == "directory"@)
            &&& row.current_revision >= 0
            &&& row.size >= 0
        },
        r matches Ok(record) ==> {
            &&& record.id.text == row.id
            &&& record.vault_id.text == row.vault_id
            &&& record.path.text == row.path
            &&& match record.entry_type {
                crate::files::EntryType::File => row.entry_type@ == "file"@,
                crate::files::EntryType::Directory => row.entry_type@ == "directory"@,
            }
            &&& record.current_revision.value == row.current_revision
            &&& record.content_hash == row.content_hash
            &&& record.size == row.size
            &&& record.modified_at == row.modified_at
            &&& record.filesystem_identity == row.filesystem_identity
            &&& record.deleted_at == row.deleted_at
            &&& record.created_at == row.created_at
            &&& record.updated_at == row.updated_at
        },
{
}

/// A stored file revision is read column by column; a row is refused exactly where a
/// column cannot hold such a value.
pub proof fn law_stored_file_revision_is_read_by_column(row: crate::files::FileRevisionRow, r: Result<crate::files::FileRevisionRecord, StateError>)
    requires
        call_ensures(crate::files::row_to_revision, (row,), r),
    ensures
        r is Ok <==> {
            &&& row.revision >= 0
            &&& (row.operation@ == "create"@ || row.operation@ == "replace"@ || row.operation@ == "patch"@ || row.operation@ == "append"@ || row.operation@ == "move"@ || row.operation@ == "copy"@ || row.operation@ == "delete"@ || row.operation@ == "restore"@ || row.operation@ == "external_change"@)
            &&& row.size is Some ==> row.size->0 >= 0
        },
        r matches Ok(record) ==> {
            &&& record.id.text == row.id
            &&& record.vault_id.text == row.vault_id
            &&& record.file_id.text == row.file_id
            &&& record.revision.value == row.revision
            &&& match record.operation {
                crate::files::FileOperation::Create => row.operation@ == "create"@,
                crate::files::FileOperation::Replace => row.operation@ == "replace"@,
                crate::files::FileOperation::Patch => row.operation@ == "patch"@,
                crate::files::FileOperation::Append => row.operation@ == "append"@,
                crate::files::FileOperation::Move => row.operation@ == "move"@,
                crate::files::FileOperation::Copy => row.operation@ == "copy"@,
                crate::files::FileOperation::Delete => row.operation@ == "delete"@,
                crate::files::FileOperation::Restore => row.operation@ == "restore"@,
                crate::files::FileOperation::ExternalChange => row.operation@ == "external_change"@,
            }
            &&& record.path_before is Some <==> row.path_before is Some
            &&& row.path_before is Some ==> record.path_before->0.text == row.path_before->0
            &&& record.path_after is Some <==> row.path_after is Some
            &&& row.path_after is Some ==> record.path_after->0.text == row.path_after->0
            &&& record.content_hash == row.content_hash
            &&& record.history_blob_hash == row.history_blob_hash
            &&& record.size is Some <==> row.size is Some
            &&& row.size is Some ==> record.size->0 == row.size->0
            &&& record.actor_type == row.actor_type
            &&& record.actor_id is Some <==> row.actor_id is Some
            &&& row.actor_id is Some ==> record.actor_id->0.text == row.actor_id->0
            &&& record.source_plane == row.source_plane
            &&& record.idempotency_key == row.idempotency_key
            &&& record.created_at == row.created_at
        },
{
}

/// A stored intent is read column by column; a row is refused exactly where a
/// column cannot hold such a value.
pub proof fn law_stored_intent_is_read_by_column(row: crate::files::JournalRow, r: Result<crate::files::JournalRecord, StateError>)
    requires
        call_ensures(crate::files::row_to_journal, (row,), r),
    ensures
        r is Ok <==> {
            &&& (row.operation@ == "create"@ || row.operation@ == "replace"@ || row.operation@ == "patch"@ || row.operation@ == "append"@ || row.operation@ == "move"@ || row.operation@ == "copy"@ || row.operation@ == "delete"@ || row.operation@ == "restore"@ || row.operation@ == "external_change"@)
            &&& (row.state@ == "prepared"@ || row.state@ == "file_committed"@ || row.state@ == "metadata_committed"@ || row.state@ == "rolled_back"@ || row.state@ == "needs_review"@)
            &&& row.expected_revision is Some ==> row.expected_revision->0 >= 0
            &&& crate::json::compact_json(row.payload_json@) is Some
        },
        r matches Ok(record) ==> {
            &&& record.id.text == row.id
            &&& record.vault_id.text == row.vault_id
            &&& match record.operation {
                crate::files::FileOperation::Create => row.operation@ == "create"@,
                crate::files::FileOperation::Replace => row.operation@ == "replace"@,
                crate::files::FileOperation::Patch => row.operation@ == "patch"@,
                crate::files::FileOperation::Append => row.operation@ == "append"@,
                crate::files::FileOperation::Move => row.operation@ == "move"@,
                crate::files::FileOperation::Copy => row.operation@ == "copy"@,
                crate::files::FileOperation::Delete => row.operation@ == "delete"@,
                crate::files::FileOperation::Restore => row.operation@ == "restore"@,
                crate::files::FileOperation::ExternalChange => row.operation@ == "external_change"@,
            }
            &&& match record.state {
                crate::files::JournalState::Prepared => row.state@ == "prepared"@,
                crate::files::JournalState::FileCommitted => row.state@ == "file_committed"@,
                crate::files::JournalState::MetadataCommitted => row.state@ == "metadata_committed"@,
                crate::files::JournalState::RolledBack => row.state@ == "rolled_back"@,
                crate::files::JournalState::NeedsReview => row.state@ == "needs_review"@,
            }
            &&& record.source_path is Some <==> row.source_path is Some
            &&& row.source_path is Some ==> record.source_path->0.text == row.source_path->0
            &&& record.destination_path is Some <==> row.destination_path is Some
            &&& row.destination_path is Some ==> record.destination_path->0.text == row.destination_path->0
            &&& record.prior_file_id is Some <==> row.prior_file_id is Some
            &&& row.prior_file_id is Some ==> record.prior_file_id->0.text == row.prior_file_id->0
            &&& record.expected_revision is Some <==> row.expected_revision is Some
            &&& row.expected_revision is Some ==> record.expected_revision->0.value == row.expected_revision->0
            &&& record.prior_hash == row.prior_hash
            &&& record.proposed_hash == row.proposed_hash
            &&& record.temp_path is Some <==> row.temp_path is Some
            &&& row.temp_path is Some ==> record.temp_path->0.text == row.temp_path->0
            &&& crate::json::compact_json(row.payload_json@) == Some(record.payload@)
            &&& record.idempotency_key == row.idempotency_key
            &&& record.created_at == row.created_at
            &&& record.updated_at == row.updated_at
            &&& record.error == row.error
        },
{
}

/// A stored index status is read column by column; a row is refused exactly where a
/// column cannot hold such a value.
pub proof fn law_stored_index_status_is_read_by_column(row: crate::index::IndexStatusRow, r: Result<crate::index::IndexStatusRecord, StateError>)
    requires
        call_ensures(crate::index::row_to_status, (row,), r),
    ensures
        r is Ok <==> {
            &&& row.index_revision >= 0
            &&& row.indexed_entries >= 0
            &&& row.indexed_notes >= 0
            &&& row.indexed_bytes >= 0
            &&& 0 <= row.analyzer_version <= u32::MAX
            &&& crate::json::compact_json(row.coverage_json@) is Some
        },
        r matches Ok(record) ==> {
            &&& record.vault_id.text == row.vault_id
            &&& record.index_revision.value == row.index_revision
            &&& record.indexed_entries == row.indexed_entries
            &&& record.indexed_notes == row.indexed_notes
            &&& record.indexed_bytes == row.indexed_bytes
            &&& record.analyzer_version == row.analyzer_version
            &&& crate::json::compact_json(row.coverage_json@) == Some(record.coverage@)
            &&& record.last_rebuilt_at == row.last_rebuilt_at
            &&& record.last_error == row.last_error
        },
{
}

/// A stored index node is read column by column; a row is refused exactly where a
/// column cannot hold such a value.
pub proof fn law_stored_index_node_is_read_by_column(row: crate::index::IndexNodeRow, r: Result<crate::index::IndexNodeRecord, StateError>)
    requires
        call_ensures(crate::index::row_to_node, (row,), r),
    ensures
        r is Ok <==> {
            &&& row.member_count >= 0
        },
        r matches Ok(record) ==> {
            &&& record.stable_key == row.stable_key
            &&& record.parent_key == row.parent_key
            &&& record.node_type == row.node_type
            &&& record.title == row.title
            &&& record.summary == row.summary
            &&& record.source_type == row.source_type
            &&& record.sort_key == row.sort_key
            &&& record.member_count == row.member_count
        },
{
}

/// A stored note link is read column by column; a row is refused exactly where a
/// column cannot hold such a value.
pub proof fn law_stored_note_link_is_read_by_column(row: crate::index::NoteLinkRow, r: Result<crate::index::NoteLinkRecord, StateError>)
    requires
        call_ensures(crate::index::row_to_link, (row,), r),
    ensures
        r is Ok <==> {
            &&& 0 <= row.ordinal <= u32::MAX
        },
        r matches Ok(record) ==> {
            &&& record.id == row.id
            &&& record.source_file_id.text == row.source_file_id
            &&& record.target_text == row.target_text
            &&& record.target_file_id is Some <==> row.target_file_id is Some
            &&& row.target_file_id is Some ==> record.target_file_id->0.text == row.target_file_id->0
            &&& record.target_heading == row.target_heading
            &&& record.link_type == row.link_type
            &&& record.ordinal == row.ordinal
        },
{
}

/// A stored job is read column by column; a row is refused exactly where a
/// column cannot hold such a value.
pub proof fn law_stored_job_is_read_by_column(row: crate::jobs::JobRow, r: Result<crate::jobs::JobRecord, StateError>)
    requires
        call_ensures(crate::jobs::row_to_job, (row,), r),
    ensures
        r is Ok <==> {
            &&& crate::json::compact_json(row.payload_json@) is Some
            &&& (row.status@ == "queued"@ || row.status@ == "running"@ || row.status@ == "retry_wait"@ || row.status@ == "completed"@ || row.status@ == "failed"@ || row.status@ == "cancelled"@)
            &&& i32::MIN <= row.priority <= i32::MAX
            &&& 0 <= row.attempts <= u32::MAX
            &&& 0 <= row.max_attempts <= u32::MAX
            &&& row.progress_json is Some ==> crate::json::compact_json(row.progress_json->0@) is Some
        },
        r matches Ok(record) ==> {
            &&& record.id.text == row.id
            &&& record.vault_id is Some <==> row.vault_id is Some
            &&& row.vault_id is Some ==> record.vault_id->0.text == row.vault_id->0
            &&& record.job_type == row.job_type
            &&& record.dedup_key == row.dedup_key
            &&& crate::json::compact_json(row.payload_json@) == Some(record.payload@)
            &&& match record.status {
                crate::jobs::JobStatus::Queued => row.status@ == "queued"@,
                crate::jobs::JobStatus::Running => row.status@ == "running"@,
                crate::jobs::JobStatus::RetryWait => row.status@ == "retry_wait"@,
                crate::jobs::JobStatus::Completed => row.status@ == "completed"@,
                crate::jobs::JobStatus::Failed => row.status@ == "failed"@,
                crate::jobs::JobStatus::Cancelled => row.status@ == "cancelled"@,
            }
            &&& record.priority == row.priority
            &&& record.attempts == row.attempts
            &&& record.max_attempts == row.max_attempts
            &&& record.available_at == row.available_at
            &&& record.lease_owner == row.lease_owner
            &&& record.lease_until == row.lease_until
            &&& record.progress is Some <==> row.progress_json is Some
            &&& record.progress is Some ==> crate::json::compact_json(row.progress_json->0@) == Some(record.progress->0@)
            &&& record.last_error == row.last_error
            &&& record.created_at == row.created_at
            &&& record.updated_at == row.updated_at
            &&& record.completed_at == row.completed_at
            &&& record.cancel_requested <==> row.cancel_requested != 0
        },
{
}

/// Every stored local user is read, column by column.
pub proof fn law_stored_local_user_is_read_by_column(row: crate::local_oauth::OAuthLocalUserRow, r: Result<crate::local_oauth::OAuthLocalUserRecord, StateError>)
    requires
        call_ensures(crate::local_oauth::row_to_local_user, (row,), r),
    ensures
        r is Ok,
        r matches Ok(record) ==> {
            &&& record.id.text == row.id
            &&& record.vault_id.text == row.vault_id
            &&& record.username == row.username
            &&& record.password_hash == row.password_hash
            &&& record.scopes_json == row.scopes_json
            &&& record.enabled <==> row.enabled != 0
            &&& record.password_changed_at == row.password_changed_at
            &&& record.created_at == row.created_at
            &&& record.updated_at == row.updated_at
        },
{
}

/// Every stored client is read, column by column.
pub proof fn law_stored_client_is_read_by_column(row: crate::local_oauth::OAuthClientRow, r: Result<crate::local_oauth::OAuthClientRecord, StateError>)
    requires
        call_ensures(crate::local_oauth::row_to_client, (row,), r),
    ensures
        r is Ok,
        r matches Ok(record) ==> {
            &&& record.id.text == row.id
            &&& record.client_name == row.client_name
            &&& record.redirect_uris_json == row.redirect_uris_json
            &&& record.grant_types_json == row.grant_types_json
            &&& record.response_types_json == row.response_types_json
            &&& record.token_endpoint_auth_method == row.token_endpoint_auth_method
            &&& record.created_at == row.created_at
            &&& record.last_used_at == row.last_used_at
            &&& record.revoked_at == row.revoked_at
        },
{
}

/// A stored authorisation request is read column by column; a row is refused exactly where a
/// column cannot hold such a value.
pub proof fn law_stored_authorisation_request_is_read_by_column(row: crate::local_oauth::OAuthAuthorizationRequestRow, r: Result<crate::local_oauth::OAuthAuthorizationRequestRecord, StateError>)
    requires
        call_ensures(crate::local_oauth::row_to_authorization_request, (row,), r),
    ensures
        r is Ok <==> {
            &&& 0 <= row.digest_key_version <= u32::MAX
        },
        r matches Ok(record) ==> {
            &&& record.id.text == row.id
            &&& record.request_digest == row.request_digest
            &&& record.digest_key_version == row.digest_key_version
            &&& record.client_id.text == row.client_id
            &&& record.vault_id.text == row.vault_id
            &&& record.resource == row.resource
            &&& record.redirect_uri == row.redirect_uri
            &&& record.scopes_json == row.scopes_json
            &&& record.state == row.state
            &&& record.code_challenge == row.code_challenge
            &&& record.created_at == row.created_at
            &&& record.expires_at == row.expires_at
            &&& record.consumed_at == row.consumed_at
        },
{
}

/// A stored authorisation code is read column by column; a row is refused exactly where a
/// column cannot hold such a value.
pub proof fn law_stored_authorisation_code_is_read_by_column(row: crate::local_oauth::OAuthAuthorizationCodeRow, r: Result<crate::local_oauth::OAuthAuthorizationCodeRecord, StateError>)
    requires
        call_ensures(crate::local_oauth::row_to_authorization_code, (row,), r),
    ensures
        r is Ok <==> {
            &&& 0 <= row.digest_key_version <= u32::MAX
        },
        r matches Ok(record) ==> {
            &&& record.id.text == row.id
            &&& record.code_digest == row.code_digest
            &&& record.digest_key_version == row.digest_key_version
            &&& record.client_id.text == row.client_id
            &&& record.user_id.text == row.user_id
            &&& record.vault_id.text == row.vault_id
            &&& record.resource == row.resource
            &&& record.redirect_uri == row.redirect_uri
            &&& record.scopes_json == row.scopes_json
            &&& record.code_challenge == row.code_challenge
            &&& record.created_at == row.created_at
            &&& record.expires_at == row.expires_at
            &&& record.consumed_at == row.consumed_at
        },
{
}

/// A stored OAuth access token is read column by column; a row is refused exactly where a
/// column cannot hold such a value.
pub proof fn law_stored_oauth_access_token_is_read_by_column(row: crate::local_oauth::OAuthAccessTokenRow, r: Result<crate::local_oauth::OAuthAccessTokenRecord, StateError>)
    requires
        call_ensures(crate::local_oauth::row_to_access_token, (row,), r),
    ensures
        r is Ok <==> {
            &&& 0 <= row.digest_key_version <= u32::MAX
        },
        r matches Ok(record) ==> {
            &&& record.id.text == row.id
            &&& record.family_id.text == row.family_id
            &&& record.token_prefix == row.token_prefix
            &&& record.token_digest == row.token_digest
            &&& record.digest_key_version == row.digest_key_version
            &&& record.client_id.text == row.client_id
            &&& record.user_id.text == row.user_id
            &&& record.vault_id.text == row.vault_id
            &&& record.resource == row.resource
            &&& record.scopes_json == row.scopes_json
            &&& record.created_at == row.created_at
            &&& record.expires_at == row.expires_at
            &&& record.last_used_at == row.last_used_at
            &&& record.revoked_at == row.revoked_at
        },
{
}

/// A stored OAuth refresh token is read column by column; a row is refused exactly where a
/// column cannot hold such a value.
pub proof fn law_stored_oauth_refresh_token_is_read_by_column(row: crate::local_oauth::OAuthRefreshTokenRow, r: Result<crate::local_oauth::OAuthRefreshTokenRecord, StateError>)
    requires
        call_ensures(crate::local_oauth::row_to_refresh_token, (row,), r),
    ensures
        r is Ok <==> {
            &&& 0 <= row.digest_key_version <= u32::MAX
        },
        r matches Ok(record) ==> {
            &&& record.id.text == row.id
            &&& record.family_id.text == row.family_id
            &&& record.token_prefix == row.token_prefix
            &&& record.token_digest == row.token_digest
            &&& record.digest_key_version == row.digest_key_version
            &&& record.client_id.text == row.client_id
            &&& record.user_id.text == row.user_id
            &&& record.vault_id.text == row.vault_id
            &&& record.resource == row.resource
            &&& record.scopes_json == row.scopes_json
            &&& record.created_at == row.created_at
            &&& record.expires_at == row.expires_at
            &&& record.rotated_at == row.rotated_at
            &&& record.revoked_at == row.revoked_at
        },
{
}

/// A stored memory is read column by column; a row is refused exactly where a
/// column cannot hold such a value.
pub proof fn law_stored_memory_is_read_by_column(row: crate::memory::MemoryRow, r: Result<crate::memory::MemoryRecord, StateError>)
    requires
        call_ensures(crate::memory::row_to_memory, (row,), r),
    ensures
        r is Ok <==> {
            &&& row.revision >= 0
            &&& row.canonical_revision is Some ==> row.canonical_revision->0 >= 0
            &&& crate::json::compact_json(row.extraction_json@) is Some
            &&& row.recall_count >= 0
        },
        r matches Ok(record) ==> {
            &&& record.id.text == row.id
            &&& record.vault_id.text == row.vault_id
            &&& record.memory_type == row.memory_type
            &&& record.status == row.status
            &&& record.content == row.content
            &&& record.normalized_content == row.normalized_content
            &&& record.content_hash == row.content_hash
            &&& record.importance == row.importance
            &&& record.confidence == row.confidence
            &&& record.origin == row.origin
            &&& record.revision.value == row.revision
            &&& record.canonical_file_id is Some <==> row.canonical_file_id is Some
            &&& row.canonical_file_id is Some ==> record.canonical_file_id->0.text == row.canonical_file_id->0
            &&& record.canonical_path is Some <==> row.canonical_path is Some
            &&& row.canonical_path is Some ==> record.canonical_path->0.text == row.canonical_path->0
            &&& record.canonical_revision is Some <==> row.canonical_revision is Some
            &&& row.canonical_revision is Some ==> record.canonical_revision->0.value == row.canonical_revision->0
            &&& record.valid_from == row.valid_from
            &&& record.valid_to == row.valid_to
            &&& crate::json::compact_json(row.extraction_json@) == Some(record.extraction@)
            &&& record.created_at == row.created_at
            &&& record.updated_at == row.updated_at
            &&& record.last_recalled_at == row.last_recalled_at
            &&& record.recall_count == row.recall_count
        },
{
}

/// A stored memory source is read column by column; a row is refused exactly where a
/// column cannot hold such a value.
pub proof fn law_stored_memory_source_is_read_by_column(row: crate::memory::SourceRow, r: Result<crate::memory::MemorySourceRecord, StateError>)
    requires
        call_ensures(crate::memory::row_to_source, (row,), r),
    ensures
        r is Ok <==> {
            &&& row.note_revision is Some ==> row.note_revision->0 >= 0
            &&& crate::json::json_strings(row.heading_path_json@) is Some
            &&& row.start_line is Some ==> 0 <= row.start_line->0 <= u32::MAX
            &&& row.end_line is Some ==> 0 <= row.end_line->0 <= u32::MAX
        },
        r matches Ok(record) ==> {
            &&& record.id.text == row.id
            &&& record.vault_id.text == row.vault_id
            &&& record.memory_id.text == row.memory_id
            &&& record.source_type == row.source_type
            &&& record.note_file_id is Some <==> row.note_file_id is Some
            &&& row.note_file_id is Some ==> record.note_file_id->0.text == row.note_file_id->0
            &&& record.note_path is Some <==> row.note_path is Some
            &&& row.note_path is Some ==> record.note_path->0.text == row.note_path->0
            &&& record.note_revision is Some <==> row.note_revision is Some
            &&& row.note_revision is Some ==> record.note_revision->0.value == row.note_revision->0
            &&& crate::json::json_strings(row.heading_path_json@) == Some(record.heading_path@.map_values(|text: String| text@))
            &&& record.start_line is Some <==> row.start_line is Some
            &&& row.start_line is Some ==> record.start_line->0 == row.start_line->0
            &&& record.end_line is Some <==> row.end_line is Some
            &&& row.end_line is Some ==> record.end_line->0 == row.end_line->0
            &&& record.excerpt_hash == row.excerpt_hash
            &&& record.actor_id == row.actor_id
            &&& record.created_at == row.created_at
        },
{
}

/// A stored candidate is read column by column; a row is refused exactly where a
/// column cannot hold such a value.
pub proof fn law_stored_candidate_is_read_by_column(row: crate::memory::CandidateRow, r: Result<crate::memory::MemoryCandidateRecord, StateError>)
    requires
        call_ensures(crate::memory::row_to_candidate, (row,), r),
    ensures
        r is Ok <==> {
            &&& row.source_revision >= 0
            &&& crate::json::compact_json(row.candidate_json@) is Some
        },
        r matches Ok(record) ==> {
            &&& record.id.text == row.id
            &&& record.vault_id.text == row.vault_id
            &&& record.source_file_id.text == row.source_file_id
            &&& record.source_path.text == row.source_path
            &&& record.source_revision.value == row.source_revision
            &&& crate::json::compact_json(row.candidate_json@) == Some(record.candidate@)
            &&& record.content_hash == row.content_hash
            &&& record.extraction_fingerprint == row.extraction_fingerprint
            &&& record.confidence == row.confidence
            &&& record.importance == row.importance
            &&& record.decision == row.decision
            &&& record.decision_reason == row.decision_reason
            &&& record.created_at == row.created_at
            &&& record.reviewed_at == row.reviewed_at
        },
{
}

/// A stored event is read column by column; a row is refused exactly where a
/// column cannot hold such a value.
pub proof fn law_stored_event_is_read_by_column(row: crate::outbox::OutboxRow, r: Result<crate::outbox::OutboxEventRecord, StateError>)
    requires
        call_ensures(crate::outbox::row_to_outbox, (row,), r),
    ensures
        r is Ok <==> {
            &&& crate::json::compact_json(row.payload_json@) is Some
            &&& 0 <= row.attempts <= u32::MAX
        },
        r matches Ok(record) ==> {
            &&& record.id.text == row.id
            &&& record.vault_id is Some <==> row.vault_id is Some
            &&& row.vault_id is Some ==> record.vault_id->0.text == row.vault_id->0
            &&& record.event_type == row.event_type
            &&& record.aggregate_type == row.aggregate_type
            &&& record.aggregate_id == row.aggregate_id
            &&& crate::json::compact_json(row.payload_json@) == Some(record.payload@)
            &&& record.created_at == row.created_at
            &&& record.available_at == row.available_at
            &&& record.claimed_by == row.claimed_by
            &&& record.claimed_until == row.claimed_until
            &&& record.delivered_at == row.delivered_at
            &&& record.attempts == row.attempts
            &&& record.last_error == row.last_error
            &&& record.dead_lettered <==> row.dead_lettered != 0
            &&& record.dead_letter_reason == row.dead_letter_reason
        },
{
}

/// A stored provider is read column by column; a row is refused exactly where a
/// column cannot hold such a value.
pub proof fn law_stored_provider_is_read_by_column(row: crate::providers::ProviderRow, r: Result<crate::providers::ProviderRecord, StateError>)
    requires
        call_ensures(crate::providers::row_to_provider, (row,), r),
    ensures
        r is Ok <==> {
            &&& crate::json::compact_json(row.settings_json@) is Some
            &&& row.revision >= 0
        },
        r matches Ok(record) ==> {
            &&& record.id.text == row.id
            &&& record.name == row.name
            &&& record.provider_type == row.provider_type
            &&& record.base_url == row.base_url
            &&& record.secret_id is Some <==> row.secret_id is Some
            &&& row.secret_id is Some ==> record.secret_id->0.text == row.secret_id->0
            &&& crate::json::compact_json(row.settings_json@) == Some(record.settings@)
            &&& record.enabled <==> row.enabled != 0
            &&& record.revision.value == row.revision
            &&& record.created_at == row.created_at
            &&& record.updated_at == row.updated_at
        },
{
}

/// A stored model is read column by column; a row is refused exactly where a
/// column cannot hold such a value.
pub proof fn law_stored_model_is_read_by_column(row: crate::providers::ModelRow, r: Result<crate::providers::ModelRecord, StateError>)
    requires
        call_ensures(crate::providers::row_to_model, (row,), r),
    ensures
        r is Ok <==> {
            &&& crate::json::compact_json(row.capabilities_json@) is Some
            &&& crate::json::compact_json(row.settings_json@) is Some
            &&& row.revision >= 0
        },
        r matches Ok(record) ==> {
            &&& record.id.text == row.id
            &&& record.provider_id.text == row.provider_id
            &&& record.external_model_id == row.external_model_id
            &&& crate::json::compact_json(row.capabilities_json@) == Some(record.capabilities@)
            &&& crate::json::compact_json(row.settings_json@) == Some(record.settings@)
            &&& record.enabled <==> row.enabled != 0
            &&& record.revision.value == row.revision
            &&& record.created_at == row.created_at
            &&& record.updated_at == row.updated_at
        },
{
}

/// A stored model binding is read column by column; a row is refused exactly where a
/// column cannot hold such a value.
pub proof fn law_stored_model_binding_is_read_by_column(row: crate::providers::BindingRow, r: Result<crate::providers::ModelBindingRecord, StateError>)
    requires
        call_ensures(crate::providers::row_to_binding, (row,), r),
    ensures
        r is Ok <==> {
            &&& crate::json::compact_json(row.settings_json@) is Some
            &&& row.revision >= 0
        },
        r matches Ok(record) ==> {
            &&& record.id == row.id
            &&& record.vault_id is Some <==> row.vault_id is Some
            &&& row.vault_id is Some ==> record.vault_id->0.text == row.vault_id->0
            &&& record.role == row.role
            &&& record.model_id.text == row.model_id
            &&& crate::json::compact_json(row.settings_json@) == Some(record.settings@)
            &&& record.revision.value == row.revision
            &&& record.updated_at == row.updated_at
        },
{
}

/// A stored health report is read column by column; a row is refused exactly where a
/// column cannot hold such a value.
pub proof fn law_stored_health_report_is_read_by_column(row: crate::providers::HealthRow, r: Result<crate::providers::ProviderHealthRecord, StateError>)
    requires
        call_ensures(crate::providers::row_to_health, (row,), r),
    ensures
        r is Ok <==> {
            &&& row.latency_ms is Some ==> row.latency_ms->0 >= 0
            &&& row.model_count >= 0
        },
        r matches Ok(record) ==> {
            &&& record.provider_id.text == row.provider_id
            &&& record.status == row.status
            &&& record.checked_at == row.checked_at
            &&& record.latency_ms is Some <==> row.latency_ms is Some
            &&& row.latency_ms is Some ==> record.latency_ms->0 == row.latency_ms->0
            &&& record.model_count == row.model_count
            &&& record.last_success_at == row.last_success_at
            &&& record.last_error == row.last_error
            &&& record.updated_at == row.updated_at
        },
{
}

/// A stored embedding is read column by column; a row is refused exactly where a
/// column cannot hold such a value.
pub proof fn law_stored_embedding_is_read_by_column(row: crate::providers::EmbeddingRow, r: Result<crate::providers::EmbeddingRecord, StateError>)
    requires
        call_ensures(crate::providers::row_to_embedding, (row,), r),
    ensures
        r is Ok <==> {
            &&& 0 <= row.dimension <= u32::MAX
        },
        r matches Ok(record) ==> {
            &&& record.id.text == row.id
            &&& record.vault_id.text == row.vault_id
            &&& record.object_type == row.object_type
            &&& record.object_id == row.object_id
            &&& record.chunk_key == row.chunk_key
            &&& record.provider_id.text == row.provider_id
            &&& record.model_id.text == row.model_id
            &&& record.dimension == row.dimension
            &&& record.content_hash == row.content_hash
            &&& record.vector_backend_key == row.vector_backend_key
            &&& record.created_at == row.created_at
            &&& record.updated_at == row.updated_at
        },
{
}

/// A stored scan checkpoint is read column by column; a row is refused exactly where a
/// column cannot hold such a value.
pub proof fn law_stored_scan_checkpoint_is_read_by_column(row: crate::scans::ScanCheckpointRow, r: Result<crate::scans::ScanCheckpointRecord, StateError>)
    requires
        call_ensures(crate::scans::row_to_checkpoint, (row,), r),
    ensures
        r is Ok <==> {
            &&& (row.status@ == "running"@ || row.status@ == "completed"@ || row.status@ == "failed"@ || row.status@ == "cancelled"@)
            &&& row.entries_seen >= 0
            &&& row.files_seen >= 0
            &&& row.directories_seen >= 0
            &&& row.changes_imported >= 0
            &&& row.unsafe_entries_skipped >= 0
        },
        r matches Ok(record) ==> {
            &&& record.id.text == row.id
            &&& record.vault_id.text == row.vault_id
            &&& record.scan_type == row.scan_type
            &&& record.generation == row.generation
            &&& record.cursor_path is Some <==> row.cursor_path is Some
            &&& row.cursor_path is Some ==> record.cursor_path->0.text == row.cursor_path->0
            &&& match record.status {
                crate::scans::ScanStatus::Running => row.status@ == "running"@,
                crate::scans::ScanStatus::Completed => row.status@ == "completed"@,
                crate::scans::ScanStatus::Failed => row.status@ == "failed"@,
                crate::scans::ScanStatus::Cancelled => row.status@ == "cancelled"@,
            }
            &&& record.entries_seen == row.entries_seen
            &&& record.files_seen == row.files_seen
            &&& record.directories_seen == row.directories_seen
            &&& record.changes_imported == row.changes_imported
            &&& record.unsafe_entries_skipped == row.unsafe_entries_skipped
            &&& record.missing_deletes_skipped <==> row.missing_deletes_skipped != 0
            &&& record.last_error == row.last_error
            &&& record.started_at == row.started_at
            &&& record.updated_at == row.updated_at
            &&& record.completed_at == row.completed_at
        },
{
}

/// Each value is written as its own word, and read back from that word and from
/// no other.
pub proof fn law_backup_status_has_its_words(
    value: crate::backups::BackupStatus,
    word: &'static str,
    text: &str,
    read: Result<crate::backups::BackupStatus, StateError>,
)
    requires
        call_ensures(crate::backups::BackupStatus::as_str, (value,), word),
        call_ensures(crate::backups::BackupStatus::parse, (text,), read),
    ensures
        word@ == (match value {
            crate::backups::BackupStatus::Queued => "queued"@,
            crate::backups::BackupStatus::Running => "running"@,
            crate::backups::BackupStatus::Completed => "completed"@,
            crate::backups::BackupStatus::Failed => "failed"@,
            crate::backups::BackupStatus::Validating => "validating"@,
            crate::backups::BackupStatus::Restoring => "restoring"@,
        }),
        text@ == "queued"@ ==> read == Ok::<crate::backups::BackupStatus, StateError>(crate::backups::BackupStatus::Queued),
        text@ == "running"@ ==> read == Ok::<crate::backups::BackupStatus, StateError>(crate::backups::BackupStatus::Running),
        text@ == "completed"@ ==> read == Ok::<crate::backups::BackupStatus, StateError>(crate::backups::BackupStatus::Completed),
        text@ == "failed"@ ==> read == Ok::<crate::backups::BackupStatus, StateError>(crate::backups::BackupStatus::Failed),
        text@ == "validating"@ ==> read == Ok::<crate::backups::BackupStatus, StateError>(crate::backups::BackupStatus::Validating),
        text@ == "restoring"@ ==> read == Ok::<crate::backups::BackupStatus, StateError>(crate::backups::BackupStatus::Restoring),
        read is Ok ==> (text@ == "queued"@ || text@ == "running"@ || text@ == "completed"@ || text@ == "failed"@ || text@ == "validating"@ || text@ == "restoring"@),
{
    reveal_strlit("queued");
    reveal_strlit("running");
    reveal_strlit("completed");
    reveal_strlit("failed");
    reveal_strlit("validating");
    reveal_strlit("restoring");
    assert("queued"@.len() != "running"@.len());
    assert("queued"@.len() != "completed"@.len());
    assert("running"@.len() != "completed"@.len());
    assert("queued"@[0] != "failed"@[0]);
    assert("running"@.len() != "failed"@.len());
    assert("completed"@.len() != "failed"@.len());
    assert("queued"@.len() != "validating"@.len());
    assert("running"@.len() != "validating"@.len());
    assert("completed"@.len() != "validating"@.len());
    assert("failed"@.len() != "validating"@.len());
    assert("queued"@.len() != "restoring"@.len());
    assert("running"@.len() != "restoring"@.len());
    assert("completed"@[0] != "restoring"@[0]);
    assert("failed"@.len() != "restoring"@.len());
    assert("validating"@.len() != "restoring"@.len());
}

/// Each value is written as its own word, and read back from that word and from
/// no other.
pub proof fn law_current_memory_ownership_has_its_words(
    value: crate::current_memory::CurrentMemoryOwnership,
    word: &'static str,
    text: &str,
    read: Result<crate::current_memory::CurrentMemoryOwnership, StateError>,
)
    requires
        call_ensures(crate::current_memory::CurrentMemoryOwnership::as_str, (value,), word),
        call_ensures(crate::current_memory::CurrentMemoryOwnership::parse, (text,), read),
    ensures
        word@ == (match value {
            crate::current_memory::CurrentMemoryOwnership::Explicit => "explicit"@,
            crate::current_memory::CurrentMemoryOwnership::NoteDerived => "note_derived"@,
        }),
        text@ == "explicit"@ ==> read == Ok::<crate::current_memory::CurrentMemoryOwnership, StateError>(crate::current_memory::CurrentMemoryOwnership::Explicit),
        text@ == "note_derived"@ ==> read == Ok::<crate::current_memory::CurrentMemoryOwnership, StateError>(crate::current_memory::CurrentMemoryOwnership::NoteDerived),
        read is Ok ==> (text@ == "explicit"@ || text@ == "note_derived"@),
{
    reveal_strlit("explicit");
    reveal_strlit("note_derived");
    assert("explicit"@.len() != "note_derived"@.len());
}

/// Each value is written as its own word, and read back from that word and from
/// no other.
pub proof fn law_entry_type_has_its_words(
    value: crate::files::EntryType,
    word: &'static str,
    text: &str,
    read: Result<crate::files::EntryType, StateError>,
)
    requires
        call_ensures(crate::files::EntryType::as_str, (value,), word),
        call_ensures(crate::files::EntryType::parse, (text,), read),
    ensures
        word@ == (match value {
            crate::files::EntryType::File => "file"@,
            crate::files::EntryType::Directory => "directory"@,
        }),
        text@ == "file"@ ==> read == Ok::<crate::files::EntryType, StateError>(crate::files::EntryType::File),
        text@ == "directory"@ ==> read == Ok::<crate::files::EntryType, StateError>(crate::files::EntryType::Directory),
        read is Ok ==> (text@ == "file"@ || text@ == "directory"@),
{
    reveal_strlit("file");
    reveal_strlit("directory");
    assert("file"@.len() != "directory"@.len());
}

/// Each value is written as its own word, and read back from that word and from
/// no other.
pub proof fn law_file_operation_has_its_words(
    value: crate::files::FileOperation,
    word: &'static str,
    text: &str,
    read: Result<crate::files::FileOperation, StateError>,
)
    requires
        call_ensures(crate::files::FileOperation::as_str, (value,), word),
        call_ensures(crate::files::FileOperation::parse, (text,), read),
    ensures
        word@ == (match value {
            crate::files::FileOperation::Create => "create"@,
            crate::files::FileOperation::Replace => "replace"@,
            crate::files::FileOperation::Patch => "patch"@,
            crate::files::FileOperation::Append => "append"@,
            crate::files::FileOperation::Move => "move"@,
            crate::files::FileOperation::Copy => "copy"@,
            crate::files::FileOperation::Delete => "delete"@,
            crate::files::FileOperation::Restore => "restore"@,
            crate::files::FileOperation::ExternalChange => "external_change"@,
        }),
        text@ == "create"@ ==> read == Ok::<crate::files::FileOperation, StateError>(crate::files::FileOperation::Create),
        text@ == "replace"@ ==> read == Ok::<crate::files::FileOperation, StateError>(crate::files::FileOperation::Replace),
        text@ == "patch"@ ==> read == Ok::<crate::files::FileOperation, StateError>(crate::files::FileOperation::Patch),
        text@ == "append"@ ==> read == Ok::<crate::files::FileOperation, StateError>(crate::files::FileOperation::Append),
        text@ == "move"@ ==> read == Ok::<crate::files::FileOperation, StateError>(crate::files::FileOperation::Move),
        text@ == "copy"@ ==> read == Ok::<crate::files::FileOperation, StateError>(crate::files::FileOperation::Copy),
        text@ == "delete"@ ==> read == Ok::<crate::files::FileOperation, StateError>(crate::files::FileOperation::Delete),
        text@ == "restore"@ ==> read == Ok::<crate::files::FileOperation, StateError>(crate::files::FileOperation::Restore),
        text@ == "external_change"@ ==> read == Ok::<crate::files::FileOperation, StateError>(crate::files::FileOperation::ExternalChange),
        read is Ok ==> (text@ == "create"@ || text@ == "replace"@ || text@ == "patch"@ || text@ == "append"@ || text@ == "move"@ || text@ == "copy"@ || text@ == "delete"@ || text@ == "restore"@ || text@ == "external_change"@),
{
    reveal_strlit("create");
    reveal_strlit("replace");
    reveal_strlit("patch");
    reveal_strlit("append");
    reveal_strlit("move");
    reveal_strlit("copy");
    reveal_strlit("delete");
    reveal_strlit("restore");
    reveal_strlit("external_change");
    assert("create"@.len() != "replace"@.len());
    assert("create"@.len() != "patch"@.len());
    assert("replace"@.len() != "patch"@.len());
    assert("create"@[0] != "append"@[0]);
    assert("replace"@.len() != "append"@.len());
    assert("patch"@.len() != "append"@.len());
    assert("create"@.len() != "move"@.len());
    assert("replace"@.len() != "move"@.len());
    assert("patch"@.len() != "move"@.len());
    assert("append"@.len() != "move"@.len());
    assert("create"@.len() != "copy"@.len());
    assert("replace"@.len() != "copy"@.len());
    assert("patch"@.len() != "copy"@.len());
    assert("append"@.len() != "copy"@.len());
    assert("move"@[0] != "copy"@[0]);
    assert("create"@[0] != "delete"@[0]);
    assert("replace"@.len() != "delete"@.len());
    assert("patch"@.len() != "delete"@.len());
    assert("append"@[0] != "delete"@[0]);
    assert("move"@.len() != "delete"@.len());
    assert("copy"@.len() != "delete"@.len());
    assert("create"@.len() != "restore"@.len());
    assert("replace"@[2] != "restore"@[2]);
    assert("patch"@.len() != "restore"@.len());
    assert("append"@.len() != "restore"@.len());
    assert("move"@.len() != "restore"@.len());
    assert("copy"@.len() != "restore"@.len());
    assert("delete"@.len() != "restore"@.len());
    assert("create"@.len() != "external_change"@.len());
    assert("replace"@.len() != "external_change"@.len());
    assert("patch"@.len() != "external_change"@.len());
    assert("append"@.len() != "external_change"@.len());
    assert("move"@.len() != "external_change"@.len());
    assert("copy"@.len() != "external_change"@.len());
    assert("delete"@.len() != "external_change"@.len());
    assert("restore"@.len() != "external_change"@.len());
}

/// Each value is written as its own word, and read back from that word and from
/// no other.
pub proof fn law_job_status_has_its_words(
    value: crate::jobs::JobStatus,
    word: &'static str,
    text: &str,
    read: Result<crate::jobs::JobStatus, StateError>,
)
    requires
        call_ensures(crate::jobs::JobStatus::as_str, (value,), word),
        call_ensures(crate::jobs::JobStatus::parse, (text,), read),
    ensures
        word@ == (match value {
            crate::jobs::JobStatus::Queued => "queued"@,
            crate::jobs::JobStatus::Running => "running"@,
            crate::jobs::JobStatus::RetryWait => "retry_wait"@,
            crate::jobs::JobStatus::Completed => "completed"@,
            crate::jobs::JobStatus::Failed => "failed"@,
            crate::jobs::JobStatus::Cancelled => "cancelled"@,
        }),
        text@ == "queued"@ ==> read == Ok::<crate::jobs::JobStatus, StateError>(crate::jobs::JobStatus::Queued),
        text@ == "running"@ ==> read == Ok::<crate::jobs::JobStatus, StateError>(crate::jobs::JobStatus::Running),
        text@ == "retry_wait"@ ==> read == Ok::<crate::jobs::JobStatus, StateError>(crate::jobs::JobStatus::RetryWait),
        text@ == "completed"@ ==> read == Ok::<crate::jobs::JobStatus, StateError>(crate::jobs::JobStatus::Completed),
        text@ == "failed"@ ==> read == Ok::<crate::jobs::JobStatus, StateError>(crate::jobs::JobStatus::Failed),
        text@ == "cancelled"@ ==> read == Ok::<crate::jobs::JobStatus, StateError>(crate::jobs::JobStatus::Cancelled),
        read is Ok ==> (text@ == "queued"@ || text@ == "running"@ || text@ == "retry_wait"@ || text@ == "completed"@ || text@ == "failed"@ || text@ == "cancelled"@),
{
    reveal_strlit("queued");
    reveal_strlit("running");
    reveal_strlit("retry_wait");
    reveal_strlit("completed");
    reveal_strlit("failed");
    reveal_strlit("cancelled");
    assert("queued"@.len() != "running"@.len());
    assert("queued"@.len() != "retry_wait"@.len());
    assert("running"@.len() != "retry_wait"@.len());
    assert("queued"@.len() != "completed"@.len());
    assert("running"@.len() != "completed"@.len());
    assert("retry_wait"@.len() != "completed"@.len());
    assert("queued"@[0] != "failed"@[0]);
    assert("running"@.len() != "failed"@.len());
    assert("retry_wait"@.len() != "failed"@.len());
    assert("completed"@.len() != "failed"@.len());
    assert("queued"@.len() != "cancelled"@.len());
    assert("running"@.len() != "cancelled"@.len());
    assert("retry_wait"@.len() != "cancelled"@.len());
    assert("completed"@[1] != "cancelled"@[1]);
    assert("failed"@.len() != "cancelled"@.len());
}

/// Each value is written as its own word, and read back from that word and from
/// no other.
pub proof fn law_journal_state_has_its_words(
    value: crate::files::JournalState,
    word: &'static str,
    text: &str,
    read: Result<crate::files::JournalState, StateError>,
)
    requires
        call_ensures(crate::files::JournalState::as_str, (value,), word),
        call_ensures(crate::files::JournalState::parse, (text,), read),
    ensures
        word@ == (match value {
            crate::files::JournalState::Prepared => "prepared"@,
            crate::files::JournalState::FileCommitted => "file_committed"@,
            crate::files::JournalState::MetadataCommitted => "metadata_committed"@,
            crate::files::JournalState::RolledBack => "rolled_back"@,
            crate::files::JournalState::NeedsReview => "needs_review"@,
        }),
        text@ == "prepared"@ ==> read == Ok::<crate::files::JournalState, StateError>(crate::files::JournalState::Prepared),
        text@ == "file_committed"@ ==> read == Ok::<crate::files::JournalState, StateError>(crate::files::JournalState::FileCommitted),
        text@ == "metadata_committed"@ ==> read == Ok::<crate::files::JournalState, StateError>(crate::files::JournalState::MetadataCommitted),
        text@ == "rolled_back"@ ==> read == Ok::<crate::files::JournalState, StateError>(crate::files::JournalState::RolledBack),
        text@ == "needs_review"@ ==> read == Ok::<crate::files::JournalState, StateError>(crate::files::JournalState::NeedsReview),
        read is Ok ==> (text@ == "prepared"@ || text@ == "file_committed"@ || text@ == "metadata_committed"@ || text@ == "rolled_back"@ || text@ == "needs_review"@),
{
    reveal_strlit("prepared");
    reveal_strlit("file_committed");
    reveal_strlit("metadata_committed");
    reveal_strlit("rolled_back");
    reveal_strlit("needs_review");
    assert("prepared"@.len() != "file_committed"@.len());
    assert("prepared"@.len() != "metadata_committed"@.len());
    assert("file_committed"@.len() != "metadata_committed"@.len());
    assert("prepared"@.len() != "rolled_back"@.len());
    assert("file_committed"@.len() != "rolled_back"@.len());
    assert("metadata_committed"@.len() != "rolled_back"@.len());
    assert("prepared"@.len() != "needs_review"@.len());
    assert("file_committed"@.len() != "needs_review"@.len());
    assert("metadata_committed"@.len() != "needs_review"@.len());
    assert("rolled_back"@.len() != "needs_review"@.len());
}

/// Each value is written as its own word, and read back from that word and from
/// no other.
pub proof fn law_scan_status_has_its_words(
    value: crate::scans::ScanStatus,
    word: &'static str,
    text: &str,
    read: Result<crate::scans::ScanStatus, StateError>,
)
    requires
        call_ensures(crate::scans::ScanStatus::as_str, (value,), word),
        call_ensures(crate::scans::ScanStatus::parse, (text,), read),
    ensures
        word@ == (match value {
            crate::scans::ScanStatus::Running => "running"@,
            crate::scans::ScanStatus::Completed => "completed"@,
            crate::scans::ScanStatus::Failed => "failed"@,
            crate::scans::ScanStatus::Cancelled => "cancelled"@,
        }),
        text@ == "running"@ ==> read == Ok::<crate::scans::ScanStatus, StateError>(crate::scans::ScanStatus::Running),
        text@ == "completed"@ ==> read == Ok::<crate::scans::ScanStatus, StateError>(crate::scans::ScanStatus::Completed),
        text@ == "failed"@ ==> read == Ok::<crate::scans::ScanStatus, StateError>(crate::scans::ScanStatus::Failed),
        text@ == "cancelled"@ ==> read == Ok::<crate::scans::ScanStatus, StateError>(crate::scans::ScanStatus::Cancelled),
        read is Ok ==> (text@ == "running"@ || text@ == "completed"@ || text@ == "failed"@ || text@ == "cancelled"@),
{
    reveal_strlit("running");
    reveal_strlit("completed");
    reveal_strlit("failed");
    reveal_strlit("cancelled");
    assert("running"@.len() != "completed"@.len());
    assert("running"@.len() != "failed"@.len());
    assert("completed"@.len() != "failed"@.len());
    assert("running"@.len() != "cancelled"@.len());
    assert("completed"@[1] != "cancelled"@[1]);
    assert("failed"@.len() != "cancelled"@.len());
}

} // verus!
