//! Provider configuration, model bindings, health, and vault-scoped vectors.

use vstd::prelude::*;

use crate::background::{counter_of, stored_counter};
use crate::domain::{id_of, stored_id, DomainError, Id, Revision, VaultContext};
use crate::error::{accepted_if, invalid, StateError};
use crate::json::{compact_json, Json};
use crate::order::{is_page, keys, keys_of, page, Keyed, SortKey};
use crate::rows::{
    any, count, count_rows, find, first_index, keep, lemma_filter_drops, marks, some_row,
};
use crate::text::{byte_len, bytes_of, is_label, label_ok, text_eq};

pub mod laws;

verus! {

/// Most rows that one page of the configuration shows.
pub const MAX_PROVIDER_LIMIT: u32 = 1000;

/// Most vectors that one query loads.
pub const MAX_VECTOR_LIMIT: u32 = 10_000;

/// Global provider configuration without secret plaintext.
#[derive(Clone, Debug, PartialEq, Eq)]
pub struct ProviderRecord {
    /// Stable provider identity.
    pub id: Id,
    /// Admin-visible provider name.
    pub name: String,
    /// Stable adapter kind.
    pub provider_type: String,
    /// Configured endpoint; secrets are never embedded here.
    pub base_url: String,
    /// Installation-encrypted secret metadata reference.
    pub secret_id: Option<Id>,
    /// Typed provider settings.
    pub settings: Json,
    /// Whether this provider may receive requests.
    pub enabled: bool,
    /// Optimistic configuration revision.
    pub revision: Revision,
    /// Creation timestamp.
    pub created_at: i64,
    /// Last configuration update timestamp.
    pub updated_at: i64,
}

/// A provider as stored.
#[derive(Clone, Debug, PartialEq, Eq)]
pub struct ProviderRow {
    pub id: String,
    pub name: String,
    pub provider_type: String,
    pub base_url: String,
    pub secret_id: Option<String>,
    pub settings_json: String,
    pub enabled: i64,
    pub revision: i64,
    pub created_at: i64,
    pub updated_at: i64,
}

impl ProviderRow {
    /// Why the row cannot be read, if it cannot.
    pub open spec fn decode_error(self) -> Option<StateError> {
        if compact_json(self.settings_json@) is None {
            Some(StateError::Json)
        } else if self.revision < 0 {
            Some(StateError::InvalidDomain(DomainError::RevisionOutOfRange))
        } else {
            None
        }
    }

    /// The record that the row holds.
    pub open spec fn record(self, settings: Json) -> ProviderRecord {
        ProviderRecord {
            id: Id { text: self.id },
            name: self.name,
            provider_type: self.provider_type,
            base_url: self.base_url,
            secret_id: id_of(self.secret_id),
            settings,
            enabled: self.enabled != 0,
            revision: Revision { value: self.revision as u64 },
            created_at: self.created_at,
            updated_at: self.updated_at,
        }
    }

    /// Whether the documents of a record are those of the row.
    pub open spec fn holds_documents(self, settings: Json) -> bool {
        &&& Some(settings@) == compact_json(self.settings_json@)
    }
}

/// Reads a stored row.
pub fn row_to_provider(row: ProviderRow) -> (r: Result<ProviderRecord, StateError>)
    ensures
        match row.decode_error() {
            Some(error) => r == Err::<ProviderRecord, StateError>(error),
            None => r matches Ok(record) && record == row.record(record.settings)
                && row.holds_documents(record.settings),
        },
{
    let settings = match Json::parse(row.settings_json.as_str()) {
        Ok(document) => document,
        Err(error) => return Err(error),
    };
    let revision = match Revision::from_stored(row.revision) {
        Ok(revision) => revision,
        Err(error) => return Err(StateError::InvalidDomain(error)),
    };
    Ok(
        ProviderRecord {
            id: Id { text: row.id },
            name: row.name,
            provider_type: row.provider_type,
            base_url: row.base_url,
            secret_id: stored_id(row.secret_id),
            settings,
            enabled: row.enabled != 0,
            revision,
            created_at: row.created_at,
            updated_at: row.updated_at,
        },
    )
}

/// A model advertised or manually registered for one provider.
#[derive(Clone, Debug, PartialEq, Eq)]
pub struct ModelRecord {
    /// Stable model identity.
    pub id: Id,
    /// Owning provider.
    pub provider_id: Id,
    /// Provider-specific model identifier.
    pub external_model_id: String,
    /// Capability metadata such as embedding dimension.
    pub capabilities: Json,
    /// Model-specific validated settings.
    pub settings: Json,
    /// Whether this model can be selected.
    pub enabled: bool,
    /// Optimistic configuration revision.
    pub revision: Revision,
    /// Creation timestamp.
    pub created_at: i64,
    /// Last update timestamp.
    pub updated_at: i64,
}

/// A model as stored.
#[derive(Clone, Debug, PartialEq, Eq)]
pub struct ModelRow {
    pub id: String,
    pub provider_id: String,
    pub external_model_id: String,
    pub capabilities_json: String,
    pub settings_json: String,
    pub enabled: i64,
    pub revision: i64,
    pub created_at: i64,
    pub updated_at: i64,
}

impl ModelRow {
    /// Why the row cannot be read, if it cannot.
    pub open spec fn decode_error(self) -> Option<StateError> {
        if compact_json(self.capabilities_json@) is None {
            Some(StateError::Json)
        } else if compact_json(self.settings_json@) is None {
            Some(StateError::Json)
        } else if self.revision < 0 {
            Some(StateError::InvalidDomain(DomainError::RevisionOutOfRange))
        } else {
            None
        }
    }

    /// The record that the row holds.
    pub open spec fn record(self, capabilities: Json, settings: Json) -> ModelRecord {
        ModelRecord {
            id: Id { text: self.id },
            provider_id: Id { text: self.provider_id },
            external_model_id: self.external_model_id,
            capabilities,
            settings,
            enabled: self.enabled != 0,
            revision: Revision { value: self.revision as u64 },
            created_at: self.created_at,
            updated_at: self.updated_at,
        }
    }

    /// Whether the documents of a record are those of the row.
    pub open spec fn holds_documents(self, capabilities: Json, settings: Json) -> bool {
        &&& Some(capabilities@) == compact_json(self.capabilities_json@)
        &&& Some(settings@) == compact_json(self.settings_json@)
    }
}

/// Reads a stored row.
pub fn row_to_model(row: ModelRow) -> (r: Result<ModelRecord, StateError>)
    ensures
        match row.decode_error() {
            Some(error) => r == Err::<ModelRecord, StateError>(error),
            None => r matches Ok(record) && record == row.record(record.capabilities, record.settings)
                && row.holds_documents(record.capabilities, record.settings),
        },
{
    let capabilities = match Json::parse(row.capabilities_json.as_str()) {
        Ok(document) => document,
        Err(error) => return Err(error),
    };
    let settings = match Json::parse(row.settings_json.as_str()) {
        Ok(document) => document,
        Err(error) => return Err(error),
    };
    let revision = match Revision::from_stored(row.revision) {
        Ok(revision) => revision,
        Err(error) => return Err(StateError::InvalidDomain(error)),
    };
    Ok(
        ModelRecord {
            id: Id { text: row.id },
            provider_id: Id { text: row.provider_id },
            external_model_id: row.external_model_id,
            capabilities,
            settings,
            enabled: row.enabled != 0,
            revision,
            created_at: row.created_at,
            updated_at: row.updated_at,
        },
    )
}

/// Global or vault-specific role binding.
#[derive(Clone, Debug, PartialEq, Eq)]
pub struct ModelBindingRecord {
    /// Binding identity.
    pub id: String,
    /// The vault of an override; a global default has none.
    pub vault_id: Option<Id>,
    /// Stable role such as embedding_note or memory_extraction.
    pub role: String,
    /// Selected model.
    pub model_id: Id,
    /// Role-specific validated settings.
    pub settings: Json,
    /// Optimistic configuration revision.
    pub revision: Revision,
    /// Last update timestamp.
    pub updated_at: i64,
}

/// A role binding as stored.
#[derive(Clone, Debug, PartialEq, Eq)]
pub struct BindingRow {
    pub id: String,
    pub vault_id: Option<String>,
    pub role: String,
    pub model_id: String,
    pub settings_json: String,
    pub revision: i64,
    pub updated_at: i64,
}

impl BindingRow {
    /// Why the row cannot be read, if it cannot.
    pub open spec fn decode_error(self) -> Option<StateError> {
        if compact_json(self.settings_json@) is None {
            Some(StateError::Json)
        } else if self.revision < 0 {
            Some(StateError::InvalidDomain(DomainError::RevisionOutOfRange))
        } else {
            None
        }
    }

    /// The record that the row holds.
    pub open spec fn record(self, settings: Json) -> ModelBindingRecord {
        ModelBindingRecord {
            id: self.id,
            vault_id: id_of(self.vault_id),
            role: self.role,
            model_id: Id { text: self.model_id },
            settings,
            revision: Revision { value: self.revision as u64 },
            updated_at: self.updated_at,
        }
    }

    /// Whether the documents of a record are those of the row.
    pub open spec fn holds_documents(self, settings: Json) -> bool {
        &&& Some(settings@) == compact_json(self.settings_json@)
    }
}

/// Reads a stored row.
pub fn row_to_binding(row: BindingRow) -> (r: Result<ModelBindingRecord, StateError>)
    ensures
        match row.decode_error() {
            Some(error) => r == Err::<ModelBindingRecord, StateError>(error),
            None => r matches Ok(record) && record == row.record(record.settings)
                && row.holds_documents(record.settings),
        },
{
    let settings = match Json::parse(row.settings_json.as_str()) {
        Ok(document) => document,
        Err(error) => return Err(error),
    };
    let revision = match Revision::from_stored(row.revision) {
        Ok(revision) => revision,
        Err(error) => return Err(StateError::InvalidDomain(error)),
    };
    Ok(
        ModelBindingRecord {
            id: row.id,
            vault_id: stored_id(row.vault_id),
            role: row.role,
            model_id: Id { text: row.model_id },
            settings,
            revision,
            updated_at: row.updated_at,
        },
    )
}

/// Redacted provider health snapshot.
#[derive(Clone, Debug, PartialEq, Eq)]
pub struct ProviderHealthRecord {
    /// Provider identity.
    pub provider_id: Id,
    /// unknown, healthy, degraded, or unavailable.
    pub status: String,
    /// Last check timestamp.
    pub checked_at: Option<i64>,
    /// Last observed request latency.
    pub latency_ms: Option<u64>,
    /// Number of models observed during discovery.
    pub model_count: u64,
    /// Last successful check.
    pub last_success_at: Option<i64>,
    /// Redacted stable failure code.
    pub last_error: Option<String>,
    /// Health row update timestamp.
    pub updated_at: i64,
}

/// Provider health as stored.
#[derive(Clone, Debug, PartialEq, Eq)]
pub struct HealthRow {
    pub provider_id: String,
    pub status: String,
    pub checked_at: Option<i64>,
    pub latency_ms: Option<i64>,
    pub model_count: i64,
    pub last_success_at: Option<i64>,
    pub last_error: Option<String>,
    pub updated_at: i64,
}

impl HealthRow {
    /// Why the row cannot be read, if it cannot.
    pub open spec fn decode_error(self) -> Option<StateError> {
        if self.latency_ms is Some && self.latency_ms->0 < 0 {
            Some(StateError::InvalidInput("health latency is invalid"))
        } else if self.model_count < 0 {
            Some(StateError::InvalidInput("health model count is invalid"))
        } else {
            None
        }
    }

    /// The record that the row holds.
    pub open spec fn record(self) -> ProviderHealthRecord {
        ProviderHealthRecord {
            provider_id: Id { text: self.provider_id },
            status: self.status,
            checked_at: self.checked_at,
            latency_ms: counter_of(self.latency_ms),
            model_count: self.model_count as u64,
            last_success_at: self.last_success_at,
            last_error: self.last_error,
            updated_at: self.updated_at,
        }
    }
}

/// Reads a stored row.
pub fn row_to_health(row: HealthRow) -> (r: Result<ProviderHealthRecord, StateError>)
    ensures
        match row.decode_error() {
            Some(error) => r == Err::<ProviderHealthRecord, StateError>(error),
            None => r == Ok::<ProviderHealthRecord, StateError>(row.record()),
        },
{
    let latency_ms = match stored_counter(row.latency_ms, "health latency is invalid") {
        Ok(number) => number,
        Err(error) => return Err(error),
    };
    if row.model_count < 0 {
        return Err(StateError::InvalidInput("health model count is invalid"));
    }
    Ok(
        ProviderHealthRecord {
            provider_id: Id { text: row.provider_id },
            status: row.status,
            checked_at: row.checked_at,
            latency_ms,
            model_count: row.model_count as u64,
            last_success_at: row.last_success_at,
            last_error: row.last_error,
            updated_at: row.updated_at,
        },
    )
}

/// Metadata for one stored embedding.
#[derive(Clone, Debug, PartialEq, Eq)]
pub struct EmbeddingRecord {
    /// Stable embedding row identity.
    pub id: Id,
    /// Isolation boundary.
    pub vault_id: Id,
    /// note, memory, or another derived object category.
    pub object_type: String,
    /// Stable source object identity.
    pub object_id: String,
    /// Section or chunk identity within the source object.
    pub chunk_key: String,
    /// Provider that generated the vector.
    pub provider_id: Id,
    /// Model that generated the vector.
    pub model_id: Id,
    /// Vector dimension.
    pub dimension: u32,
    /// Hash of the exact source chunk.
    pub content_hash: String,
    /// Backend-local stable key.
    pub vector_backend_key: String,
    /// Creation timestamp.
    pub created_at: i64,
    /// Last replacement timestamp.
    pub updated_at: i64,
}

/// Embedding metadata as stored.
#[derive(Clone, Debug, PartialEq, Eq)]
pub struct EmbeddingRow {
    pub id: String,
    pub vault_id: String,
    pub object_type: String,
    pub object_id: String,
    pub chunk_key: String,
    pub provider_id: String,
    pub model_id: String,
    pub dimension: i64,
    pub content_hash: String,
    pub vector_backend_key: String,
    pub created_at: i64,
    pub updated_at: i64,
}

impl EmbeddingRow {
    /// Why the row cannot be read, if it cannot.
    pub open spec fn decode_error(self) -> Option<StateError> {
        if !(0 <= self.dimension <= u32::MAX) {
            Some(StateError::InvalidInput("embedding dimension is invalid"))
        } else {
            None
        }
    }

    /// The record that the row holds.
    pub open spec fn record(self) -> EmbeddingRecord {
        EmbeddingRecord {
            id: Id { text: self.id },
            vault_id: Id { text: self.vault_id },
            object_type: self.object_type,
            object_id: self.object_id,
            chunk_key: self.chunk_key,
            provider_id: Id { text: self.provider_id },
            model_id: Id { text: self.model_id },
            dimension: self.dimension as u32,
            content_hash: self.content_hash,
            vector_backend_key: self.vector_backend_key,
            created_at: self.created_at,
            updated_at: self.updated_at,
        }
    }
}

/// Reads a stored row.
pub fn row_to_embedding(row: EmbeddingRow) -> (r: Result<EmbeddingRecord, StateError>)
    ensures
        match row.decode_error() {
            Some(error) => r == Err::<EmbeddingRecord, StateError>(error),
            None => r == Ok::<EmbeddingRecord, StateError>(row.record()),
        },
{
    if row.dimension < 0 || row.dimension > u32::MAX as i64 {
        return Err(StateError::InvalidInput("embedding dimension is invalid"));
    }
    Ok(
        EmbeddingRecord {
            id: Id { text: row.id },
            vault_id: Id { text: row.vault_id },
            object_type: row.object_type,
            object_id: row.object_id,
            chunk_key: row.chunk_key,
            provider_id: Id { text: row.provider_id },
            model_id: Id { text: row.model_id },
            dimension: row.dimension as u32,
            content_hash: row.content_hash,
            vector_backend_key: row.vector_backend_key,
            created_at: row.created_at,
            updated_at: row.updated_at,
        },
    )
}

/// Checks a label; the error names its kind.
pub fn validate_label(value: &str, kind: &'static str) -> (r: Result<(), StateError>)
    ensures
        r == accepted_if(label_ok(value@, 512), kind),
{
    if !is_label(value, 512) {
        return Err(StateError::InvalidInput(kind));
    }
    Ok(())
}

/// Why a provider configuration is refused, if it is.
pub open spec fn provider_checked(record: ProviderRecord) -> Result<(), StateError> {
    if !label_ok(record.name@, 512) {
        invalid("provider name")
    } else if !label_ok(record.provider_type@, 512) {
        invalid("provider type")
    } else {
        accepted_if(1 <= byte_len(record.base_url@) <= 4096, "provider base URL is invalid")
    }
}

/// Checks a provider configuration.
pub fn validate_provider_record(record: &ProviderRecord) -> (r: Result<(), StateError>)
    ensures
        r == provider_checked(*record),
{
    match validate_label(record.name.as_str(), "provider name") {
        Ok(()) => {},
        Err(error) => return Err(error),
    }
    match validate_label(record.provider_type.as_str(), "provider type") {
        Ok(()) => {},
        Err(error) => return Err(error),
    }
    let n: usize = bytes_of(record.base_url.as_str());
    if n == 0 || n > 4096 {
        return Err(StateError::InvalidInput("provider base URL is invalid"));
    }
    Ok(())
}

/// Checks a model record.
pub fn validate_model_record(record: &ModelRecord) -> (r: Result<(), StateError>)
    ensures
        r == accepted_if(label_ok(record.external_model_id@, 512), "external model ID"),
{
    validate_label(record.external_model_id.as_str(), "external model ID")
}

/// The fault of a revision that does not fit its column.
pub open spec fn out_of_range() -> StateError {
    StateError::InvalidDomain(DomainError::RevisionOutOfRange)
}

/// Checks a provider that is to be stored.
pub fn insert_provider(record: ProviderRecord) -> (r: Result<ProviderRecord, StateError>)
    ensures
        r == (match provider_checked(record) {
            Err(error) => Err::<ProviderRecord, StateError>(error),
            Ok(_) => if record.revision.storable() {
                Ok(record)
            } else {
                Err(out_of_range())
            },
        }),
{
    match validate_provider_record(&record) {
        Ok(()) => {},
        Err(error) => return Err(error),
    }
    match record.revision.as_i64() {
        Ok(_) => Ok(record),
        Err(error) => Err(StateError::InvalidDomain(error)),
    }
}

/// The revision that an update gets, and the error if there is none: the update
/// must come from the stored revision.
pub open spec fn updated_revision(
    stored: Option<Revision>,
    seen: Revision,
    conflict: &'static str,
) -> Result<Revision, StateError> {
    if seen.successor() is None || !seen.successor()->0.storable() {
        Err(out_of_range())
    } else if stored != Some(seen) {
        invalid(conflict)
    } else {
        Ok(seen.successor()->0)
    }
}

/// The revision that an update gets.
fn update_revision(stored: Option<Revision>, seen: Revision, conflict: &'static str) -> (r: Result<
    Revision,
    StateError,
>)
    ensures
        r == updated_revision(stored, seen, conflict),
{
    let next = match seen.next() {
        Ok(next) => next,
        Err(error) => return Err(StateError::InvalidDomain(error)),
    };
    match next.as_i64() {
        Ok(_) => {},
        Err(error) => return Err(StateError::InvalidDomain(error)),
    }
    match stored {
        Some(stored) => {
            if stored.value != seen.value {
                return Err(StateError::InvalidInput(conflict));
            }
        },
        None => return Err(StateError::InvalidInput(conflict)),
    }
    Ok(next)
}

/// Replace a provider configuration under an expected revision. `stored` is the
/// provider with the same identity.
pub fn update_provider(stored: Option<ProviderRecord>, record: ProviderRecord, now: i64) -> (r: Result<
    ProviderRecord,
    StateError,
>)
    ensures
        match provider_checked(record) {
            Err(error) => r == Err::<ProviderRecord, StateError>(error),
            Ok(_) => match updated_revision(
                match stored {
                    Some(stored) if stored.id@ == record.id@ => Some(stored.revision),
                    _ => None,
                },
                record.revision,
                "provider revision conflict",
            ) {
                Err(error) => r == Err::<ProviderRecord, StateError>(error),
                Ok(revision) => r == Ok::<ProviderRecord, StateError>(
                    (ProviderRecord {
                        id: stored->0.id,
                        revision,
                        created_at: stored->0.created_at,
                        updated_at: now,
                        ..record
                    }),
                ),
            },
        },
{
    match validate_provider_record(&record) {
        Ok(()) => {},
        Err(error) => return Err(error),
    }
    let current = match &stored {
        Some(stored) if stored.id.same(&record.id) => Some(stored.revision),
        _ => None,
    };
    let revision = match update_revision(
        current,
        record.revision,
        "provider revision conflict",
    ) {
        Ok(revision) => revision,
        Err(error) => return Err(error),
    };
    match stored {
        Some(stored) => Ok(
            ProviderRecord {
                id: stored.id,
                revision,
                created_at: stored.created_at,
                updated_at: now,
                ..record
            },
        ),
        None => Err(StateError::InvalidInput("provider revision conflict")),
    }
}

/// Providers without one of them. Encrypted secrets stay and are never deleted
/// along.
pub fn delete_provider(providers: Vec<ProviderRecord>, provider_id: &Id) -> (r: Result<
    Vec<ProviderRecord>,
    StateError,
>)
    ensures
        if !some_row(providers@, |provider: ProviderRecord| provider.id@ == provider_id@) {
            r == invalid::<Vec<ProviderRecord>>("provider does not exist")
        } else {
            r matches Ok(after) && after@ == providers@.filter(
                |provider: ProviderRecord| provider.id@ != provider_id@,
            )
        },
{
    let same = |provider: &ProviderRecord| -> (yes: bool)
        ensures
            yes == (provider.id@ == provider_id@),
        { provider.id.same(provider_id) };
    if !any(
        providers.as_slice(),
        same,
        Ghost(|provider: ProviderRecord| provider.id@ == provider_id@),
    ) {
        return Err(StateError::InvalidInput("provider does not exist"));
    }
    let other = |provider: &ProviderRecord| -> (yes: bool)
        ensures
            yes == (provider.id@ != provider_id@),
        { !provider.id.same(provider_id) };
    Ok(
        keep(
            providers,
            other,
            Ghost(|provider: ProviderRecord| provider.id@ != provider_id@),
        ),
    )
}

impl Keyed for ProviderRecord {
    open spec fn key(self) -> SortKey {
        SortKey { first: 0, second: 0, third: 0, id: self.id.text }
    }

    fn sort_key(&self) -> (k: SortKey) {
        SortKey { first: 0, second: 0, third: 0, id: self.id.text.clone() }
    }
}

impl Keyed for ModelRecord {
    open spec fn key(self) -> SortKey {
        SortKey { first: 0, second: 0, third: 0, id: self.id.text }
    }

    fn sort_key(&self) -> (k: SortKey) {
        SortKey { first: 0, second: 0, third: 0, id: self.id.text.clone() }
    }
}

impl Keyed for ProviderHealthRecord {
    open spec fn key(self) -> SortKey {
        SortKey { first: 0, second: 0, third: 0, id: self.provider_id.text }
    }

    fn sort_key(&self) -> (k: SortKey) {
        SortKey { first: 0, second: 0, third: 0, id: self.provider_id.text.clone() }
    }
}

/// The provider with an identity: its position.
pub fn get_provider(providers: &[ProviderRecord], id: &Id) -> (r: Option<usize>)
    ensures
        match r {
            Some(i) => i < providers@.len() && first_index(
                providers@,
                |row: ProviderRecord| row.id@ == id@,
            ) == Some(i as int),
            None => first_index(providers@, |row: ProviderRecord| row.id@ == id@) is None,
        },
{
    let accepts = |row: &ProviderRecord| -> (yes: bool)
        ensures
            yes == (row.id@ == id@),
        { row.id.same(id) };
    find(providers, accepts, Ghost(|row: ProviderRecord| row.id@ == id@))
}

/// Positions of the first providers by identity.
pub fn list_providers(providers: &[ProviderRecord], limit: u32) -> (r: Result<Vec<usize>, StateError>)
    ensures
        if !(1 <= limit <= MAX_PROVIDER_LIMIT) {
            r == invalid::<Vec<usize>>("provider page is invalid")
        } else {
            r matches Ok(picked) && is_page(
                keys(providers@),
                providers@.map_values(|provider: ProviderRecord| true),
                false,
                limit as nat,
                0,
                picked@,
            )
        },
{
    if limit == 0 || limit > MAX_PROVIDER_LIMIT {
        return Err(StateError::InvalidInput("provider page is invalid"));
    }
    let every = |provider: &ProviderRecord| -> (yes: bool)
        ensures
            yes == true,
        { true };
    let eligible = marks(providers, every, Ghost(|provider: ProviderRecord| true));
    let order_keys = keys_of(providers);
    Ok(page(order_keys.as_slice(), eligible.as_slice(), false, limit, 0))
}

/// Checks a model that is to be stored.
pub fn insert_model(record: ModelRecord) -> (r: Result<ModelRecord, StateError>)
    ensures
        r == (if !label_ok(record.external_model_id@, 512) {
            invalid("external model ID")
        } else if record.revision.storable() {
            Ok::<ModelRecord, StateError>(record)
        } else {
            Err(out_of_range())
        }),
{
    match validate_model_record(&record) {
        Ok(()) => {},
        Err(error) => return Err(error),
    }
    match record.revision.as_i64() {
        Ok(_) => Ok(record),
        Err(error) => Err(StateError::InvalidDomain(error)),
    }
}

/// The model with an identity: its position.
pub fn get_model(models: &[ModelRecord], id: &Id) -> (r: Option<usize>)
    ensures
        match r {
            Some(i) => i < models@.len() && first_index(
                models@,
                |row: ModelRecord| row.id@ == id@,
            ) == Some(i as int),
            None => first_index(models@, |row: ModelRecord| row.id@ == id@) is None,
        },
{
    let accepts = |row: &ModelRecord| -> (yes: bool)
        ensures
            yes == (row.id@ == id@),
        { row.id.same(id) };
    find(models, accepts, Ghost(|row: ModelRecord| row.id@ == id@))
}

/// Positions of the first models by identity: of one provider, or of all.
pub fn list_models(models: &[ModelRecord], provider_id: Option<&Id>, limit: u32) -> (r: Result<
    Vec<usize>,
    StateError,
>)
    ensures
        if !(1 <= limit <= MAX_PROVIDER_LIMIT) {
            r == invalid::<Vec<usize>>("model page is invalid")
        } else {
            r matches Ok(picked) && is_page(
                keys(models@),
                models@.map_values(
                    |model: ModelRecord|
                        provider_id is Some ==> model.provider_id@ == provider_id->0@,
                ),
                false,
                limit as nat,
                0,
                picked@,
            )
        },
{
    if limit == 0 || limit > MAX_PROVIDER_LIMIT {
        return Err(StateError::InvalidInput("model page is invalid"));
    }
    let accepts = |model: &ModelRecord| -> (yes: bool)
        ensures
            yes == (provider_id is Some ==> model.provider_id@ == provider_id->0@),
        {
            match provider_id {
                Some(id) => model.provider_id.same(id),
                None => true,
            }
        };
    let eligible = marks(
        models,
        accepts,
        Ghost(
            |model: ModelRecord| provider_id is Some ==> model.provider_id@ == provider_id->0@,
        ),
    );
    let order_keys = keys_of(models);
    Ok(page(order_keys.as_slice(), eligible.as_slice(), false, limit, 0))
}

/// Replace a model record under an expected revision. `stored` is the model
/// with the same identity.
pub fn update_model(stored: Option<ModelRecord>, record: ModelRecord, now: i64) -> (r: Result<
    ModelRecord,
    StateError,
>)
    ensures
        if !label_ok(record.external_model_id@, 512) {
            r == invalid::<ModelRecord>("external model ID")
        } else {
            match updated_revision(
                match stored {
                    Some(stored) if stored.id@ == record.id@ => Some(stored.revision),
                    _ => None,
                },
                record.revision,
                "model revision conflict",
            ) {
                Err(error) => r == Err::<ModelRecord, StateError>(error),
                Ok(revision) => r == Ok::<ModelRecord, StateError>(
                    (ModelRecord {
                        id: stored->0.id,
                        revision,
                        created_at: stored->0.created_at,
                        updated_at: now,
                        ..record
                    }),
                ),
            }
        },
{
    match validate_model_record(&record) {
        Ok(()) => {},
        Err(error) => return Err(error),
    }
    let current = match &stored {
        Some(stored) if stored.id.same(&record.id) => Some(stored.revision),
        _ => None,
    };
    let revision = match update_revision(current, record.revision, "model revision conflict") {
        Ok(revision) => revision,
        Err(error) => return Err(error),
    };
    match stored {
        Some(stored) => Ok(
            ModelRecord {
                id: stored.id,
                revision,
                created_at: stored.created_at,
                updated_at: now,
                ..record
            },
        ),
        None => Err(StateError::InvalidInput("model revision conflict")),
    }
}

/// Whether a binding is the one of a scope and role. Without a vault the scope
/// is global.
pub open spec fn binds(binding: ModelBindingRecord, vault: Option<Seq<char>>, role: Seq<char>) -> bool {
    &&& binding.role@ == role
    &&& match vault {
        Some(vault) => binding.vault_id is Some && binding.vault_id->0@ == vault,
        None => binding.vault_id is None,
    }
}

/// The scope of a call.
pub open spec fn scope(context: Option<&VaultContext>) -> Option<Seq<char>> {
    match context {
        Some(context) => Some(context.id@),
        None => None,
    }
}

/// The position of the binding of one exact scope.
pub fn get_binding(context: Option<&VaultContext>, bindings: &[ModelBindingRecord], role: &str) -> (r: Result<
    Option<usize>,
    StateError,
>)
    ensures
        if !label_ok(role@, 512) {
            r == invalid::<Option<usize>>("model role")
        } else {
            match r {
                Ok(Some(i)) => i < bindings@.len() && first_index(
                    bindings@,
                    |binding: ModelBindingRecord| binds(binding, scope(context), role@),
                ) == Some(i as int),
                Ok(None) => first_index(
                    bindings@,
                    |binding: ModelBindingRecord| binds(binding, scope(context), role@),
                ) is None,
                Err(_) => false,
            }
        },
{
    match validate_label(role, "model role") {
        Ok(()) => {},
        Err(error) => return Err(error),
    }
    let accepts = |binding: &ModelBindingRecord| -> (yes: bool)
        ensures
            yes == binds(*binding, scope(context), role@),
        {
            let in_scope = match (context, &binding.vault_id) {
                (Some(context), Some(id)) => id.same(&context.id),
                (None, None) => true,
                _ => false,
            };
            in_scope && text_eq(binding.role.as_str(), role)
        };
    Ok(
        find(
            bindings,
            accepts,
            Ghost(|binding: ModelBindingRecord| binds(binding, scope(context), role@)),
        ),
    )
}

/// The binding that holds for a role in a vault: the vault's own, else the
/// global one.
pub open spec fn resolved(
    bindings: Seq<ModelBindingRecord>,
    vault: Seq<char>,
    role: Seq<char>,
) -> Option<int> {
    match first_index(
        bindings,
        |binding: ModelBindingRecord| binds(binding, Some(vault), role),
    ) {
        Some(i) => Some(i),
        None => first_index(bindings, |binding: ModelBindingRecord| binds(binding, None, role)),
    }
}

/// The position of a vault's binding of a role, else of the global one.
pub fn resolve_binding(context: &VaultContext, bindings: &[ModelBindingRecord], role: &str) -> (r: Result<
    Option<usize>,
    StateError,
>)
    ensures
        if !label_ok(role@, 512) {
            r == invalid::<Option<usize>>("model role")
        } else {
            match resolved(bindings@, context.id@, role@) {
                Some(at) => r matches Ok(Some(i)) && i == at,
                None => r == Ok::<Option<usize>, StateError>(None),
            }
        },
{
    match get_binding(Some(context), bindings, role) {
        Ok(Some(i)) => Ok(Some(i)),
        Ok(None) => get_binding(None, bindings, role),
        Err(error) => Err(error),
    }
}

/// Identity of a new binding.
pub open spec fn binding_id(vault: Option<Seq<char>>, role: Seq<char>) -> Seq<char> {
    "binding:"@ + match vault {
        Some(vault) => vault,
        None => "global"@,
    } + ":"@ + role
}

/// Why a binding is not saved, if it is not.
pub open spec fn binding_fault(
    current: Option<ModelBindingRecord>,
    role: Seq<char>,
    expected: Option<Revision>,
) -> Option<StateError> {
    let stored = match current {
        Some(current) => Some(current.revision),
        None => None,
    };
    if !label_ok(role, 512) {
        Some(StateError::InvalidInput("model role"))
    } else if expected is Some && stored != expected {
        Some(StateError::InvalidInput("model binding revision conflict"))
    } else if stored is Some && (stored->0.successor() is None
        || !stored->0.successor()->0.storable()) {
        Some(out_of_range())
    } else {
        None
    }
}

/// The binding of an exact scope and role, where the stored one is that.
pub open spec fn own_binding(
    current: Option<ModelBindingRecord>,
    vault: Option<Seq<char>>,
    role: Seq<char>,
) -> Option<ModelBindingRecord> {
    match current {
        Some(binding) if binds(binding, vault, role) => Some(binding),
        _ => None,
    }
}

fn is_bound(binding: &ModelBindingRecord, context: Option<&VaultContext>, role: &str) -> (r: bool)
    ensures
        r == binds(*binding, scope(context), role@),
{
    let in_scope = match (context, &binding.vault_id) {
        (Some(context), Some(id)) => id.same(&context.id),
        (None, None) => true,
        _ => false,
    };
    in_scope && text_eq(binding.role.as_str(), role)
}

/// Save a global or vault-specific role binding. `current` is the binding of
/// that exact scope and role.
pub fn upsert_binding(
    context: Option<&VaultContext>,
    current: Option<ModelBindingRecord>,
    role: String,
    model_id: Id,
    settings: Json,
    expected_revision: Option<Revision>,
    now: i64,
) -> (r: Result<ModelBindingRecord, StateError>)
    ensures
        match binding_fault(
            own_binding(current, scope(context), role@),
            role@,
            expected_revision,
        ) {
            Some(error) => r == Err::<ModelBindingRecord, StateError>(error),
            None => match own_binding(current, scope(context), role@) {
                Some(current) => r == Ok::<ModelBindingRecord, StateError>(
                    (ModelBindingRecord {
                        model_id,
                        settings,
                        revision: current.revision.successor()->0,
                        updated_at: now,
                        ..current
                    }),
                ),
                None => r matches Ok(binding) && binding.id@ == binding_id(scope(context), role@)
                    && binding == (ModelBindingRecord {
                    id: binding.id,
                    vault_id: match context {
                        Some(context) => Some(context.id),
                        None => None,
                    },
                    role,
                    model_id,
                    settings,
                    revision: Revision { value: 1 },
                    updated_at: now,
                }),
            },
        },
{
    match validate_label(role.as_str(), "model role") {
        Ok(()) => {},
        Err(error) => return Err(error),
    }
    let current = match current {
        Some(current) if is_bound(&current, context, role.as_str()) => Some(current),
        _ => None,
    };
    match (expected_revision, &current) {
        (Some(expected), Some(current)) => {
            if current.revision.value != expected.value {
                return Err(StateError::InvalidInput("model binding revision conflict"));
            }
        },
        (Some(_), None) => {
            return Err(StateError::InvalidInput("model binding revision conflict"));
        },
        _ => {},
    }
    match current {
        Some(current) => {
            let revision = match current.revision.next() {
                Ok(revision) => revision,
                Err(error) => return Err(StateError::InvalidDomain(error)),
            };
            match revision.as_i64() {
                Ok(_) => {},
                Err(error) => return Err(StateError::InvalidDomain(error)),
            }
            Ok(ModelBindingRecord { model_id, settings, revision, updated_at: now, ..current })
        },
        None => {
            let mut id = String::new();
            id.push_str("binding:");
            let vault_id = match context {
                Some(context) => {
                    id.push_str(context.id.as_str());
                    Some(context.id.duplicate())
                },
                None => {
                    id.push_str("global");
                    None
                },
            };
            id.push_str(":");
            id.push_str(role.as_str());
            assert(id@ =~= binding_id(scope(context), role@));
            Ok(
                ModelBindingRecord {
                    id,
                    vault_id,
                    role,
                    model_id,
                    settings,
                    revision: Revision { value: 1 },
                    updated_at: now,
                },
            )
        },
    }
}

/// A counter that fits its column: the largest number where it does not.
pub open spec fn capped(value: u64) -> u64 {
    if value > i64::MAX {
        i64::MAX as u64
    } else {
        value
    }
}

/// A counter that fits its column.
fn cap(value: u64) -> (r: u64)
    ensures
        r == capped(value),
{
    if value > i64::MAX as u64 {
        i64::MAX as u64
    } else {
        value
    }
}

/// A redacted provider health result as it is kept.
pub fn upsert_health(health: ProviderHealthRecord) -> (r: Result<ProviderHealthRecord, StateError>)
    ensures
        r == (if !label_ok(health.status@, 512) {
            invalid("provider health status")
        } else {
            Ok::<ProviderHealthRecord, StateError>(
                (ProviderHealthRecord {
                    latency_ms: match health.latency_ms {
                        Some(latency) => Some(capped(latency)),
                        None => None,
                    },
                    model_count: capped(health.model_count),
                    ..health
                }),
            )
        }),
{
    match validate_label(health.status.as_str(), "provider health status") {
        Ok(()) => {},
        Err(error) => return Err(error),
    }
    let latency_ms = match health.latency_ms {
        Some(latency) => Some(cap(latency)),
        None => None,
    };
    let model_count: u64 = cap(health.model_count);
    Ok(ProviderHealthRecord { latency_ms, model_count, ..health })
}

/// The health row of a provider: its position.
pub fn get_health(rows: &[ProviderHealthRecord], provider_id: &Id) -> (r: Option<usize>)
    ensures
        match r {
            Some(i) => i < rows@.len() && first_index(
                rows@,
                |row: ProviderHealthRecord| row.provider_id@ == provider_id@,
            ) == Some(i as int),
            None => first_index(
                rows@,
                |row: ProviderHealthRecord| row.provider_id@ == provider_id@,
            ) is None,
        },
{
    let accepts = |row: &ProviderHealthRecord| -> (yes: bool)
        ensures
            yes == (row.provider_id@ == provider_id@),
        { row.provider_id.same(provider_id) };
    find(rows, accepts, Ghost(|row: ProviderHealthRecord| row.provider_id@ == provider_id@))
}

/// Positions of the first health rows by provider.
pub fn list_health(rows: &[ProviderHealthRecord], limit: u32) -> (r: Result<Vec<usize>, StateError>)
    ensures
        if !(1 <= limit <= MAX_PROVIDER_LIMIT) {
            r == invalid::<Vec<usize>>("provider health page is invalid")
        } else {
            r matches Ok(picked) && is_page(
                keys(rows@),
                rows@.map_values(|row: ProviderHealthRecord| true),
                false,
                limit as nat,
                0,
                picked@,
            )
        },
{
    if limit == 0 || limit > MAX_PROVIDER_LIMIT {
        return Err(StateError::InvalidInput("provider health page is invalid"));
    }
    let every = |row: &ProviderHealthRecord| -> (yes: bool)
        ensures
            yes == true,
        { true };
    let eligible = marks(rows, every, Ghost(|row: ProviderHealthRecord| true));
    let order_keys = keys_of(rows);
    Ok(page(order_keys.as_slice(), eligible.as_slice(), false, limit, 0))
}

/// Bit pattern from which on, sign aside, a 32-bit number is not finite.
pub const INFINITE_BITS: u32 = 0x7f80_0000;

/// The sign bit of a 32-bit number.
pub const SIGN_BITS: u32 = 0x8000_0000;

/// Whether a bit pattern stands for a finite 32-bit number.
pub open spec fn finite_bits(bits: u32) -> bool {
    if bits >= SIGN_BITS {
        bits - SIGN_BITS < INFINITE_BITS
    } else {
        bits < INFINITE_BITS
    }
}

/// Whether a bit pattern stands for a finite 32-bit number.
fn is_finite(bits: u32) -> (r: bool)
    ensures
        r == finite_bits(bits),
{
    if bits >= SIGN_BITS {
        bits - SIGN_BITS < INFINITE_BITS
    } else {
        bits < INFINITE_BITS
    }
}

/// The four bytes of a bit pattern, lowest first.
pub open spec fn le_bytes(bits: u32) -> Seq<u8> {
    seq![
        (bits % 256) as u8,
        ((bits / 256) % 256) as u8,
        ((bits / 65_536) % 256) as u8,
        (bits / 16_777_216) as u8,
    ]
}

/// The bit pattern of four bytes, lowest first.
pub open spec fn le_value(bytes: Seq<u8>) -> int {
    bytes[0] + 256 * bytes[1] + 65_536 * bytes[2] + 16_777_216 * bytes[3]
}

/// Stored form of a vector: the bytes of its numbers one after the other.
pub open spec fn encoded(vector: Seq<u32>) -> Seq<u8>
    decreases vector.len(),
{
    if vector.len() == 0 {
        Seq::empty()
    } else {
        encoded(vector.drop_last()) + le_bytes(vector.last())
    }
}

/// The vector that bytes hold, four for each number.
pub open spec fn decoded_vector(blob: Seq<u8>, dimension: nat) -> Seq<u32> {
    Seq::new(dimension, |i: int| le_value(blob.subrange(4 * i, 4 * i + 4)) as u32)
}

/// Length and parts of an encoded vector.
proof fn lemma_encoded(vector: Seq<u32>)
    ensures
        encoded(vector).len() == 4 * vector.len(),
        forall|i: int|
            0 <= i < vector.len() ==> encoded(vector).subrange(4 * i, 4 * i + 4) == le_bytes(
                #[trigger] vector[i],
            ),
    decreases vector.len(),
{
    if vector.len() > 0 {
        let shorter = vector.drop_last();
        lemma_encoded(shorter);
        assert forall|i: int| 0 <= i < vector.len() implies encoded(vector).subrange(
            4 * i,
            4 * i + 4,
        ) == le_bytes(#[trigger] vector[i]) by {
            if i < shorter.len() {
                assert(shorter[i] == vector[i]);
                assert(encoded(vector).subrange(4 * i, 4 * i + 4) =~= encoded(shorter).subrange(
                    4 * i,
                    4 * i + 4,
                ));
            } else {
                assert(encoded(vector).subrange(4 * i, 4 * i + 4) =~= le_bytes(vector[i]));
            }
        }
    }
}

/// A stored vector reads back as it was written.
pub proof fn law_vector_round_trip(vector: Seq<u32>)
    ensures
        encoded(vector).len() == 4 * vector.len(),
        decoded_vector(encoded(vector), vector.len()) == vector,
{
    lemma_encoded(vector);
    let back = decoded_vector(encoded(vector), vector.len());
    assert forall|i: int| 0 <= i < vector.len() implies back[i] == vector[i] by {
        assert(encoded(vector).subrange(4 * i, 4 * i + 4) == le_bytes(vector[i]));
        assert(le_value(le_bytes(vector[i])) == vector[i]);
    }
    assert(back =~= vector);
}

/// The stored form of a vector, given by the bit patterns of its numbers.
pub fn encode_vector(vector: &[u32]) -> (r: Vec<u8>)
    ensures
        r@ == encoded(vector@),
{
    let mut out: Vec<u8> = Vec::new();
    let mut i: usize = 0;
    assert(vector@.take(0) =~= Seq::empty());
    while i < vector.len()
        invariant
            i <= vector@.len(),
            out@ == encoded(vector@.take(i as int)),
        decreases vector@.len() - i,
    {
        let bits: u32 = vector[i];
        let ghost before = out@;
        out.push((bits % 256) as u8);
        out.push(((bits / 256) % 256) as u8);
        out.push(((bits / 65_536) % 256) as u8);
        out.push((bits / 16_777_216) as u8);
        proof {
            assert(vector@.take(i + 1).drop_last() =~= vector@.take(i as int));
            assert(vector@.take(i + 1).last() == bits);
            assert(out@ =~= before + le_bytes(bits));
        }
        i += 1;
    }
    assert(vector@.take(i as int) =~= vector@);
    out
}

/// The bit patterns of a stored vector's numbers.
pub fn decode_vector(blob: &[u8], dimension: u32) -> (r: Result<Vec<u32>, StateError>)
    ensures
        if blob@.len() != 4 * dimension {
            r == invalid::<Vec<u32>>("stored vector dimension is invalid")
        } else {
            r matches Ok(vector) && vector@ == decoded_vector(blob@, dimension as nat)
        },
{
    if blob.len() as u128 != 4 * (dimension as u128) {
        return Err(StateError::InvalidInput("stored vector dimension is invalid"));
    }
    let len: usize = blob.len();
    let n: usize = len / 4;
    let mut vector: Vec<u32> = Vec::new();
    let mut i: usize = 0;
    while i < n
        invariant
            i <= n,
            n == dimension,
            blob@.len() == len == 4 * n,
            vector@ == decoded_vector(blob@, dimension as nat).take(i as int),
        decreases n - i,
    {
        let at: usize = 4 * i;
        let ghost part = blob@.subrange(4 * i, 4 * i + 4);
        assert(part[0] == blob@[at as int] && part[1] == blob@[at + 1] && part[2] == blob@[at + 2]
            && part[3] == blob@[at + 3]);
        let bits: u32 = blob[at] as u32 + 256 * (blob[at + 1] as u32) + 65_536 * (blob[at
            + 2] as u32) + 16_777_216 * (blob[at + 3] as u32);
        vector.push(bits);
        i += 1;
        assert(vector@ =~= decoded_vector(blob@, dimension as nat).take(i as int));
    }
    assert(vector@ =~= decoded_vector(blob@, dimension as nat));
    Ok(vector)
}

/// One vector candidate, its numbers given by their bit patterns.
#[derive(Clone, Debug, PartialEq, Eq)]
pub struct VectorCandidate {
    /// Embedding metadata.
    pub embedding: EmbeddingRecord,
    /// Decoded vector values.
    pub vector: Vec<u32>,
}

/// Reads a stored vector with its metadata.
pub fn row_to_candidate(row: EmbeddingRow, vector_blob: &[u8]) -> (r: Result<
    VectorCandidate,
    StateError,
>)
    ensures
        match row.decode_error() {
            Some(error) => r == Err::<VectorCandidate, StateError>(error),
            None => if vector_blob@.len() != 4 * row.record().dimension {
                r == invalid::<VectorCandidate>("stored vector dimension is invalid")
            } else {
                r matches Ok(candidate) && candidate.embedding == row.record()
                    && candidate.vector@ == decoded_vector(
                    vector_blob@,
                    row.record().dimension as nat,
                )
            },
        },
{
    let embedding = match row_to_embedding(row) {
        Ok(embedding) => embedding,
        Err(error) => return Err(error),
    };
    match decode_vector(vector_blob, embedding.dimension) {
        Ok(vector) => Ok(VectorCandidate { embedding, vector }),
        Err(error) => Err(error),
    }
}

/// An embedding with its stored vector.
#[derive(Clone, Debug, PartialEq, Eq)]
pub struct StoredEmbedding {
    pub embedding: EmbeddingRecord,
    pub vector_blob: Vec<u8>,
}

/// Whether a vector may be stored with its metadata.
pub open spec fn vector_ok(embedding: EmbeddingRecord, vector: Seq<u32>, vault: Seq<char>) -> bool {
    &&& embedding.vault_id@ == vault
    &&& embedding.dimension != 0
    &&& embedding.dimension == vector.len()
    &&& !some_row(vector, |bits: u32| !finite_bits(bits))
}

/// Whether two embeddings stand for the same chunk and model.
pub open spec fn same_chunk(a: EmbeddingRecord, b: EmbeddingRecord) -> bool {
    &&& a.vault_id@ == b.vault_id@
    &&& a.object_type@ == b.object_type@
    &&& a.object_id@ == b.object_id@
    &&& a.chunk_key@ == b.chunk_key@
    &&& a.model_id@ == b.model_id@
}

/// Whether two embeddings stand for the same chunk and model.
fn is_same_chunk(a: &EmbeddingRecord, b: &EmbeddingRecord) -> (r: bool)
    ensures
        r == same_chunk(*a, *b),
{
    a.vault_id.same(&b.vault_id) && text_eq(a.object_type.as_str(), b.object_type.as_str())
        && text_eq(a.object_id.as_str(), b.object_id.as_str()) && text_eq(
        a.chunk_key.as_str(),
        b.chunk_key.as_str(),
    ) && a.model_id.same(&b.model_id)
}

/// Whether a vector was stored in the place of the one for its chunk and model.
pub open spec fn embedding_put(
    before: Seq<StoredEmbedding>,
    after: Seq<StoredEmbedding>,
    embedding: EmbeddingRecord,
    vector: Seq<u32>,
) -> bool {
    &&& after.len() > 0
    &&& after.drop_last() == before.filter(
        |stored: StoredEmbedding| !same_chunk(stored.embedding, embedding),
    )
    &&& after.last().embedding == embedding
    &&& after.last().vector_blob@ == encoded(vector)
}

/// A chunk has one vector for each model, the one that was stored last, and it
/// reads back as it was written.
pub proof fn law_one_vector_per_chunk(
    before: Seq<StoredEmbedding>,
    after: Seq<StoredEmbedding>,
    embedding: EmbeddingRecord,
    vector: Seq<u32>,
)
    requires
        embedding_put(before, after, embedding, vector),
    ensures
        forall|i: int|
            0 <= i < after.len() && same_chunk((#[trigger] after[i]).embedding, embedding) ==> i
                == after.len() - 1,
        decoded_vector(after.last().vector_blob@, vector.len()) == vector,
{
    let rule = |stored: StoredEmbedding| same_chunk(stored.embedding, embedding);
    let other = |stored: StoredEmbedding| !same_chunk(stored.embedding, embedding);
    assert(other =~= |stored: StoredEmbedding| !rule(stored));
    lemma_filter_drops(before, rule);
    assert forall|i: int|
        0 <= i < after.len() && same_chunk((#[trigger] after[i]).embedding, embedding) implies i
        == after.len() - 1 by {
        if i < after.len() - 1 {
            assert(after.drop_last()[i] == after[i]);
            assert(rule(after.drop_last()[i]));
        }
    }
    law_vector_round_trip(vector);
}

/// Replace one vault-scoped vector and its metadata in one step. `vector` holds
/// the bit patterns of its numbers.
pub fn upsert_embedding(
    context: &VaultContext,
    embeddings: Vec<StoredEmbedding>,
    embedding: EmbeddingRecord,
    vector: &[u32],
) -> (r: Result<Vec<StoredEmbedding>, StateError>)
    ensures
        if !vector_ok(embedding, vector@, context.id@) {
            r == invalid::<Vec<StoredEmbedding>>("embedding vector is invalid")
        } else {
            r matches Ok(after) && embedding_put(embeddings@, after@, embedding, vector@)
        },
{
    let infinite = |bits: &u32| -> (yes: bool)
        ensures
            yes == !finite_bits(*bits),
        { !is_finite(*bits) };
    let unbounded = any(vector, infinite, Ghost(|bits: u32| !finite_bits(bits)));
    if !embedding.vault_id.same(&context.id) || embedding.dimension == 0
        || embedding.dimension as u128 != vector.len() as u128 || unbounded {
        return Err(StateError::InvalidInput("embedding vector is invalid"));
    }
    let vector_blob = encode_vector(vector);
    let mut kept = {
        let new = &embedding;
        let other = |stored: &StoredEmbedding| -> (yes: bool)
            ensures
                yes == !same_chunk(stored.embedding, *new),
            { !is_same_chunk(&stored.embedding, new) };
        keep(
            embeddings,
            other,
            Ghost(|stored: StoredEmbedding| !same_chunk(stored.embedding, embedding)),
        )
    };
    let ghost before = kept@;
    kept.push(StoredEmbedding { embedding, vector_blob });
    assert(kept@.drop_last() =~= before);
    Ok(kept)
}

/// The position of an embedding of a vault.
pub fn get_embedding(context: &VaultContext, embeddings: &[StoredEmbedding], embedding_id: &Id) -> (r: Option<
    usize,
>)
    ensures
        match r {
            Some(i) => i < embeddings@.len() && first_index(
                embeddings@,
                |stored: StoredEmbedding|
                    stored.embedding.vault_id@ == context.id@ && stored.embedding.id@
                        == embedding_id@,
            ) == Some(i as int),
            None => first_index(
                embeddings@,
                |stored: StoredEmbedding|
                    stored.embedding.vault_id@ == context.id@ && stored.embedding.id@
                        == embedding_id@,
            ) is None,
        },
{
    let accepts = |stored: &StoredEmbedding| -> (yes: bool)
        ensures
            yes == (stored.embedding.vault_id@ == context.id@ && stored.embedding.id@
                == embedding_id@),
        { stored.embedding.vault_id.same(&context.id) && stored.embedding.id.same(embedding_id) };
    find(
        embeddings,
        accepts,
        Ghost(
            |stored: StoredEmbedding|
                stored.embedding.vault_id@ == context.id@ && stored.embedding.id@ == embedding_id@,
        ),
    )
}

impl Keyed for StoredEmbedding {
    open spec fn key(self) -> SortKey {
        SortKey { first: 0, second: 0, third: 0, id: self.embedding.id.text }
    }

    fn sort_key(&self) -> (k: SortKey) {
        SortKey { first: 0, second: 0, third: 0, id: self.embedding.id.text.clone() }
    }
}

/// Whether an embedding is one of a vault and model.
pub open spec fn of_model(stored: StoredEmbedding, vault: Seq<char>, model: Seq<char>) -> bool {
    stored.embedding.vault_id@ == vault && stored.embedding.model_id@ == model
}

/// Positions of bounded vector candidates of one vault, model and dimension,
/// by identity.
pub fn list_vectors(
    context: &VaultContext,
    embeddings: &[StoredEmbedding],
    model_id: &Id,
    dimension: u32,
    limit: u32,
) -> (r: Result<Vec<usize>, StateError>)
    ensures
        if !(1 <= limit <= MAX_VECTOR_LIMIT) || dimension == 0 {
            r == invalid::<Vec<usize>>("vector query page is invalid")
        } else {
            r matches Ok(picked) && is_page(
                keys(embeddings@),
                embeddings@.map_values(
                    |stored: StoredEmbedding|
                        of_model(stored, context.id@, model_id@) && stored.embedding.dimension
                            == dimension,
                ),
                false,
                limit as nat,
                0,
                picked@,
            )
        },
{
    if limit == 0 || limit > MAX_VECTOR_LIMIT || dimension == 0 {
        return Err(StateError::InvalidInput("vector query page is invalid"));
    }
    let accepts = |stored: &StoredEmbedding| -> (yes: bool)
        ensures
            yes == (of_model(*stored, context.id@, model_id@) && stored.embedding.dimension
                == dimension),
        {
            stored.embedding.vault_id.same(&context.id) && stored.embedding.model_id.same(model_id)
                && stored.embedding.dimension == dimension
        };
    let eligible = marks(
        embeddings,
        accepts,
        Ghost(
            |stored: StoredEmbedding|
                of_model(stored, context.id@, model_id@) && stored.embedding.dimension
                    == dimension,
        ),
    );
    let order_keys = keys_of(embeddings);
    Ok(page(order_keys.as_slice(), eligible.as_slice(), false, limit, 0))
}

/// Embeddings without those of one vault and model, and how many went.
pub fn delete_embeddings_for_model(
    context: &VaultContext,
    embeddings: Vec<StoredEmbedding>,
    model_id: &Id,
) -> (r: (Vec<StoredEmbedding>, u64))
    ensures
        r.0@ == embeddings@.filter(
            |stored: StoredEmbedding| !of_model(stored, context.id@, model_id@),
        ),
        r.1 == count(
            embeddings@,
            |stored: StoredEmbedding| of_model(stored, context.id@, model_id@),
        ),
{
    let own = |stored: &StoredEmbedding| -> (yes: bool)
        ensures
            yes == of_model(*stored, context.id@, model_id@),
        { stored.embedding.vault_id.same(&context.id) && stored.embedding.model_id.same(model_id) };
    let gone: usize = count_rows(
        embeddings.as_slice(),
        own,
        Ghost(|stored: StoredEmbedding| of_model(stored, context.id@, model_id@)),
    );
    let other = |stored: &StoredEmbedding| -> (yes: bool)
        ensures
            yes == !of_model(*stored, context.id@, model_id@),
        {
            !(stored.embedding.vault_id.same(&context.id) && stored.embedding.model_id.same(
                model_id,
            ))
        };
    let kept = keep(
        embeddings,
        other,
        Ghost(|stored: StoredEmbedding| !of_model(stored, context.id@, model_id@)),
    );
    (kept, gone as u64)
}

/// Coarse embedding coverage for one vault and model.
#[derive(Clone, Debug, PartialEq, Eq)]
pub struct EmbeddingCoverage {
    /// Number of stored vectors.
    pub total: u64,
    /// Distinct object count.
    pub objects: u64,
    /// Distinct dimensions represented.
    pub dimensions: Vec<u32>,
}

/// The object that an embedding belongs to: its type and its identity.
pub open spec fn object_of(embedding: EmbeddingRecord) -> (Seq<char>, Seq<char>) {
    (embedding.object_type@, embedding.object_id@)
}

/// The distinct objects of a vault and model.
pub open spec fn objects_of(embeddings: Seq<StoredEmbedding>, vault: Seq<char>, model: Seq<char>) -> Set<
    (Seq<char>, Seq<char>),
>
    decreases embeddings.len(),
{
    if embeddings.len() == 0 {
        Set::empty()
    } else {
        let before = objects_of(embeddings.drop_last(), vault, model);
        if of_model(embeddings.last(), vault, model) {
            before.insert(object_of(embeddings.last().embedding))
        } else {
            before
        }
    }
}

/// An object is among the distinct ones exactly when a row belongs to it.
proof fn lemma_objects_of(
    embeddings: Seq<StoredEmbedding>,
    vault: Seq<char>,
    model: Seq<char>,
    object: (Seq<char>, Seq<char>),
)
    ensures
        objects_of(embeddings, vault, model).finite(),
        objects_of(embeddings, vault, model).len() <= embeddings.len(),
        objects_of(embeddings, vault, model).contains(object) <==> some_row(
            embeddings,
            |stored: StoredEmbedding|
                of_model(stored, vault, model) && object_of(stored.embedding) == object,
        ),
    decreases embeddings.len(),
{
    if embeddings.len() > 0 {
        let n = embeddings.len() - 1;
        let rule = |stored: StoredEmbedding|
            of_model(stored, vault, model) && object_of(stored.embedding) == object;
        lemma_objects_of(embeddings.drop_last(), vault, model, object);
        lemma_some_row_step(embeddings, n, rule);
        assert(embeddings.take(n) =~= embeddings.drop_last());
        assert(embeddings.take(n + 1) =~= embeddings);
    }
}

/// Whether `dimensions` lists exactly the dimensions of a vault and model, each
/// once and in ascending order.
pub open spec fn lists_dimensions(
    embeddings: Seq<StoredEmbedding>,
    vault: Seq<char>,
    model: Seq<char>,
    dimensions: Seq<u32>,
) -> bool {
    &&& forall|i: int, j: int|
        0 <= i < j < dimensions.len() ==> (#[trigger] dimensions[i]) < (#[trigger] dimensions[j])
    &&& forall|dimension: u32| #[trigger]
        dimensions.contains(dimension) <==> some_row(
            embeddings,
            |stored: StoredEmbedding|
                of_model(stored, vault, model) && stored.embedding.dimension == dimension,
        )
}

/// Adds a number to an ascending list, unless it is there.
fn insert_number(values: &mut Vec<u32>, number: u32)
    requires
        forall|i: int, j: int|
            0 <= i < j < old(values)@.len() ==> (#[trigger] old(values)@[i]) < (
            #[trigger] old(values)@[j]),
    ensures
        forall|i: int, j: int|
            0 <= i < j < final(values)@.len() ==> (#[trigger] final(values)@[i]) < (
            #[trigger] final(values)@[j]),
        forall|n: u32| #[trigger]
            final(values)@.contains(n) <==> old(values)@.contains(n) || n == number,
{
    let ghost before = values@;
    let mut at: usize = 0;
    while at < values.len() && values[at] < number
        invariant
            values@ == before,
            at <= values@.len(),
            forall|k: int| 0 <= k < at ==> (#[trigger] before[k]) < number,
        decreases values@.len() - at,
    {
        at += 1;
    }
    if at < values.len() && values[at] == number {
        assert(before[at as int] == number);
        return;
    }
    values.insert(at, number);
    proof {
        let after = values@;
        assert(after[at as int] == number);
        assert forall|n: u32| #[trigger] after.contains(n) <==> before.contains(n) || n == number by {
            if before.contains(n) {
                let k = choose|k: int| 0 <= k < before.len() && before[k] == n;
                if k < at {
                    assert(after[k] == n);
                } else {
                    assert(after[k + 1] == n);
                }
            }
            if after.contains(n) {
                let k = choose|k: int| 0 <= k < after.len() && after[k] == n;
                if k < at {
                    assert(before[k] == n);
                } else if k > at {
                    assert(before[k - 1] == n);
                }
            }
        }
    }
}

/// What one more row adds to the rows that meet a rule.
proof fn lemma_some_row_step(
    rows: Seq<StoredEmbedding>,
    n: int,
    rule: spec_fn(StoredEmbedding) -> bool,
)
    requires
        0 <= n < rows.len(),
    ensures
        some_row(rows.take(n + 1), rule) == (some_row(rows.take(n), rule) || rule(rows[n])),
{
    let shorter = rows.take(n);
    let longer = rows.take(n + 1);
    if some_row(shorter, rule) {
        let k = choose|k: int| 0 <= k < shorter.len() && rule(#[trigger] shorter[k]);
        assert(rule(longer[k]));
    }
    if rule(rows[n]) {
        assert(rule(longer[n]));
    }
    if some_row(longer, rule) {
        let k = choose|k: int| 0 <= k < longer.len() && rule(#[trigger] longer[k]);
        if k < n {
            assert(rule(shorter[k]));
        }
    }
}

/// Whether an earlier row of a vault and model belongs to the same object.
fn is_known_object(embeddings: &[StoredEmbedding], n: usize, vault: &Id, model: &Id) -> (r: bool)
    requires
        n < embeddings@.len(),
    ensures
        r == some_row(
            embeddings@.take(n as int),
            |stored: StoredEmbedding|
                of_model(stored, vault@, model@) && object_of(stored.embedding) == object_of(
                    embeddings@[n as int].embedding,
                ),
        ),
{
    let own = &embeddings[n].embedding;
    let ghost rule = |stored: StoredEmbedding|
        of_model(stored, vault@, model@) && object_of(stored.embedding) == object_of(*own);
    let mut k: usize = 0;
    while k < n
        invariant
            k <= n < embeddings@.len(),
            *own == embeddings@[n as int].embedding,
            rule == (|stored: StoredEmbedding|
                of_model(stored, vault@, model@) && object_of(stored.embedding) == object_of(
                    *own,
                )),
            forall|m: int| 0 <= m < k ==> !rule(#[trigger] embeddings@[m]),
        decreases n - k,
    {
        let other = &embeddings[k].embedding;
        if other.vault_id.same(vault) && other.model_id.same(model) && text_eq(
            other.object_type.as_str(),
            own.object_type.as_str(),
        ) && text_eq(other.object_id.as_str(), own.object_id.as_str()) {
            assert(rule(embeddings@.take(n as int)[k as int]));
            return true;
        }
        k += 1;
    }
    false
}

/// Vector coverage for one vault and model.
pub fn embedding_coverage(context: &VaultContext, embeddings: &[StoredEmbedding], model_id: &Id) -> (r: EmbeddingCoverage)
    ensures
        r.total == count(
            embeddings@,
            |stored: StoredEmbedding| of_model(stored, context.id@, model_id@),
        ),
        r.objects == objects_of(embeddings@, context.id@, model_id@).len(),
        lists_dimensions(embeddings@, context.id@, model_id@, r.dimensions@),
{
    let own = |stored: &StoredEmbedding| -> (yes: bool)
        ensures
            yes == of_model(*stored, context.id@, model_id@),
        { stored.embedding.vault_id.same(&context.id) && stored.embedding.model_id.same(model_id) };
    let total: usize = count_rows(
        embeddings,
        own,
        Ghost(|stored: StoredEmbedding| of_model(stored, context.id@, model_id@)),
    );
    let mut objects: usize = 0;
    let mut dimensions: Vec<u32> = Vec::new();
    let mut i: usize = 0;
    while i < embeddings.len()
        invariant
            i <= embeddings@.len(),
            objects <= i,
            objects == objects_of(embeddings@.take(i as int), context.id@, model_id@).len(),
            lists_dimensions(embeddings@.take(i as int), context.id@, model_id@, dimensions@),
        decreases embeddings@.len() - i,
    {
        let stored = &embeddings[i];
        let ghost dimensions_before = dimensions@;
        let chosen = stored.embedding.vault_id.same(&context.id)
            && stored.embedding.model_id.same(model_id);
        if chosen {
            if !is_known_object(embeddings, i, &context.id, model_id) {
                objects += 1;
            }
            insert_number(&mut dimensions, stored.embedding.dimension);
        }
        proof {
            let longer = embeddings@.take(i + 1);
            lemma_objects_of(
                embeddings@.take(i as int),
                context.id@,
                model_id@,
                object_of(stored.embedding),
            );
            assert(longer.drop_last() =~= embeddings@.take(i as int));
            assert(longer.last() == *stored);
            assert forall|dimension: u32| #[trigger] dimensions@.contains(dimension) <==> some_row(
                longer,
                |stored: StoredEmbedding|
                    of_model(stored, context.id@, model_id@) && stored.embedding.dimension
                        == dimension,
            ) by {
                let rule = |stored: StoredEmbedding|
                    of_model(stored, context.id@, model_id@) && stored.embedding.dimension
                        == dimension;
                lemma_some_row_step(embeddings@, i as int, rule);
                assert(dimensions_before.contains(dimension) <==> some_row(
                    embeddings@.take(i as int),
                    rule,
                ));
            }
        }
        i += 1;
    }
    assert(embeddings@.take(i as int) =~= embeddings@);
    EmbeddingCoverage { total: total as u64, objects: objects as u64, dimensions }
}

/// Where a vault has a binding of its own, that one is resolved, whatever global
/// one exists; a vault without one gets the global binding.
pub proof fn law_vault_binding_wins(
    bindings: Seq<ModelBindingRecord>,
    vault: Seq<char>,
    role: Seq<char>,
    own: int,
    general: int,
)
    requires
        0 <= general < bindings.len(),
        binds(bindings[general], None, role),
    ensures
        resolved(bindings, vault, role) is Some,
        0 <= resolved(bindings, vault, role)->0 < bindings.len(),
        0 <= own < bindings.len() && binds(bindings[own], Some(vault), role) ==> binds(
            bindings[resolved(bindings, vault, role)->0],
            Some(vault),
            role,
        ),
        (forall|i: int| 0 <= i < bindings.len() ==> !binds(#[trigger] bindings[i], Some(vault), role))
            ==> binds(bindings[resolved(bindings, vault, role)->0], None, role),
{
    crate::rows::lemma_first_index(
        bindings,
        |binding: ModelBindingRecord| binds(binding, Some(vault), role),
    );
    crate::rows::lemma_first_index(
        bindings,
        |binding: ModelBindingRecord| binds(binding, None, role),
    );
}

} // verus!
