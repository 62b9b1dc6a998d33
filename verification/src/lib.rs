//! Operational state of a note vault.
//!
//! Every rule that decides what may be stored, claimed, published, revoked or
//! recalled is a verified function from plain rows to plain rows. Reading and
//! writing the database is left to the surrounding program.

pub mod audit;
pub mod auth;
pub mod background;
pub mod backups;
pub mod calibration;
pub mod clock;
pub mod columns;
pub mod current_memory;
pub mod domain;
pub mod error;
pub mod files;
pub mod hash;
pub mod index;
pub mod jobs;
pub mod json;
pub mod local_oauth;
pub mod memory;
pub mod migrations;
pub mod order;
pub mod outbox;
pub mod pool;
pub mod providers;
pub mod rows;
pub mod scans;
pub mod score;
pub mod search;
pub mod settings;
pub mod text;

pub use audit::AuditRecord;
pub use auth::{
    AdminSessionRecord, AdminUserRecord, EncryptedSecretRecord, McpTokenRecord, OAuthGrantRecord,
    OAuthIssuerRecord, WebDavCredentialRecord,
};
pub use backups::{BackupRecord, BackupStatus};
pub use calibration::{CalibrationBudget, CalibrationDocument, CalibrationRun};
pub use current_memory::formal::{
    FormalMemoryDocument, FormalMemoryOperation, FormalMemorySupport, FormalSourceRewrite,
};
pub use current_memory::maintenance::FormalMaintenanceStatus;
pub use current_memory::migration::MemoryV2MigrationPreflight;
pub use current_memory::publish::CurrentExplicitReservation;
pub use current_memory::reads::{CurrentMemoryCounts, CurrentMemoryFilter};
pub use current_memory::{
    CurrentMemoryBundle, CurrentMemoryOwnership, CurrentMemoryRecord, CurrentMemorySourceRecord,
    MemoryNoteSetRecord, MemoryNoteSetSnapshotRecord,
};
pub use domain::{Actor, ActorType, DomainError, Id, Revision, VaultContext, VaultPath};
pub use error::{IntegrityReport, StateError};
pub use files::{
    CommitHook, CommitHookPhase, CommitMutationInput, EntryType, FileOperation, FileRecord,
    FileRevisionRecord, IdempotencyLookup, JournalRecord, JournalState, MutationCommitResult,
    NoopCommitHook, OutboxEventInput, PrepareOperationInput,
};
pub use index::{
    HeadingProjectionInput, IndexMembershipProjectionInput, IndexNodeProjectionInput,
    IndexNodeRecord, IndexStatusRecord, LinkProjectionInput, NoteEmbeddingSourceRecord,
    NoteLinkRecord, NoteProjectionInput, NoteSearchRecord, TagProjectionInput,
};
pub use jobs::{JobRecord, JobStatus, JobStatusCounts};
pub use local_oauth::{
    NewOAuthAccessToken, NewOAuthAuthorizationCode, NewOAuthRefreshToken, OAuthAccessTokenRecord,
    OAuthAuthorizationCodeRecord, OAuthAuthorizationRequestRecord, OAuthClientRecord,
    OAuthLocalUserRecord, OAuthRefreshTokenRecord,
};
pub use memory::{
    MemoryBundle, MemoryCandidateRecord, MemoryCounts, MemoryDiagnosticRecord, MemoryFilter,
    MemoryIdempotencyRecord, MemoryRecord, MemoryRelationRecord, MemorySourceRecord,
};
pub use outbox::OutboxEventRecord;
pub use providers::{
    EmbeddingCoverage, EmbeddingRecord, ModelBindingRecord, ModelRecord, ProviderHealthRecord,
    ProviderRecord, VectorCandidate,
};
pub use scans::{ScanCheckpointRecord, ScanStatus};
pub use score::Score;
pub use search::memory_search_terms;
pub use settings::SettingRecord;
