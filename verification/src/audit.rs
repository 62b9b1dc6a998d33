//! Vault-scoped, redacted audit facts for control-plane diagnostics.

use vstd::prelude::*;

use crate::domain::{
    actor_type_label, duplicate_optional, id_of, optional_id, stored_id, Actor, Id, VaultContext,
};
use crate::error::{invalid, StateError};
use crate::json::{compact_json, Json};
use crate::order::{is_page, page, SortKey};
use crate::text::{bounded, byte_len, bytes_of, is_bounded, str_text, text_eq};

pub mod laws;

verus! {

/// One append-only audit fact with redacted metadata.
#[derive(Clone, Debug, PartialEq, Eq)]
pub struct AuditRecord {
    /// Stable audit identity.
    pub id: Id,
    /// UTC Unix millisecond timestamp.
    pub occurred_at: i64,
    /// Request correlation identifier, when supplied.
    pub request_id: Option<String>,
    /// Owning vault; global configuration actions have none.
    pub vault_id: Option<Id>,
    /// Security plane label.
    pub plane: String,
    /// Non-secret actor category.
    pub actor_type: String,
    /// Non-secret actor identity.
    pub actor_id: Option<Id>,
    /// Stable action label.
    pub action: String,
    /// Target category.
    pub target_type: Option<String>,
    /// Target identity.
    pub target_id: Option<String>,
    /// Path hash only; never a raw path.
    pub target_path_hash: Option<String>,
    /// Success or failure result.
    pub result: String,
    /// Redacted structured metadata.
    pub metadata: Json,
}

/// An audit fact as stored.
#[derive(Clone, Debug, PartialEq, Eq)]
pub struct AuditRow {
    pub id: String,
    pub occurred_at: i64,
    pub request_id: Option<String>,
    pub vault_id: Option<String>,
    pub plane: String,
    pub actor_type: String,
    pub actor_id: Option<String>,
    pub action: String,
    pub target_type: Option<String>,
    pub target_id: Option<String>,
    pub target_path_hash: Option<String>,
    pub result: String,
    pub metadata_json: String,
}

impl AuditRow {
    /// The record that the row holds.
    pub open spec fn record(self, metadata: Json) -> AuditRecord {
        AuditRecord {
            id: Id { text: self.id },
            occurred_at: self.occurred_at,
            request_id: self.request_id,
            vault_id: id_of(self.vault_id),
            plane: self.plane,
            actor_type: self.actor_type,
            actor_id: id_of(self.actor_id),
            action: self.action,
            target_type: self.target_type,
            target_id: self.target_id,
            target_path_hash: self.target_path_hash,
            result: self.result,
            metadata,
        }
    }
}

/// Reads a stored audit fact.
pub fn row_to_audit(row: AuditRow) -> (r: Result<AuditRecord, StateError>)
    ensures
        match compact_json(row.metadata_json@) {
            None => r == Err::<AuditRecord, StateError>(StateError::Json),
            Some(metadata) => r matches Ok(record) && record == row.record(record.metadata)
                && record.metadata@ == metadata,
        },
{
    let metadata = match Json::parse(row.metadata_json.as_str()) {
        Ok(metadata) => metadata,
        Err(error) => return Err(error),
    };
    Ok(
        AuditRecord {
            id: Id { text: row.id },
            occurred_at: row.occurred_at,
            request_id: row.request_id,
            vault_id: stored_id(row.vault_id),
            plane: row.plane,
            actor_type: row.actor_type,
            actor_id: stored_id(row.actor_id),
            action: row.action,
            target_type: row.target_type,
            target_id: row.target_id,
            target_path_hash: row.target_path_hash,
            result: row.result,
            metadata,
        },
    )
}

/// A fact to append, already redacted.
#[derive(Clone, Debug, PartialEq, Eq)]
pub struct AuditFact {
    pub request_id: Option<String>,
    pub source_plane: String,
    pub actor: Actor,
    pub action: String,
    pub target_type: Option<String>,
    pub target_id: Option<String>,
    pub result: String,
    pub metadata: Json,
}

impl AuditFact {
    /// Whether the fact keeps within its bounds.
    pub open spec fn within_bounds(self) -> bool {
        &&& bounded(self.action@, 128)
        &&& bounded(self.result@, 64)
        &&& byte_len(self.metadata@) <= 16384
    }
}

/// Append one bounded, already-redacted audit fact: the row to insert. `id` is
/// a fresh identity.
pub fn append(context: Option<&VaultContext>, fact: AuditFact, id: Id, now: i64) -> (r: Result<
    AuditRecord,
    StateError,
>)
    ensures
        if !fact.within_bounds() {
            r == invalid::<AuditRecord>("audit fact is invalid")
        } else {
            &&& r is Ok
            &&& r->Ok_0.actor_type@ == fact.actor.actor_type.label()
            &&& r->Ok_0 == (AuditRecord {
                id,
                occurred_at: now,
                request_id: fact.request_id,
                vault_id: match context {
                    Some(context) => Some(context.id),
                    None => None,
                },
                plane: fact.source_plane,
                actor_type: r->Ok_0.actor_type,
                actor_id: fact.actor.actor_id,
                action: fact.action,
                target_type: fact.target_type,
                target_id: fact.target_id,
                target_path_hash: None,
                result: fact.result,
                metadata: fact.metadata,
            })
        },
{
    if !is_bounded(fact.action.as_str(), 128) || !is_bounded(fact.result.as_str(), 64) || bytes_of(
        fact.metadata.as_str(),
    ) > 16384 {
        return Err(StateError::InvalidInput("audit fact is invalid"));
    }
    let vault_id = match context {
        Some(context) => Some(context.id.duplicate()),
        None => None,
    };
    Ok(
        AuditRecord {
            id,
            occurred_at: now,
            request_id: fact.request_id,
            vault_id,
            plane: fact.source_plane,
            actor_type: actor_type_label(fact.actor.actor_type).to_owned(),
            actor_id: duplicate_optional(&fact.actor.actor_id),
            action: fact.action,
            target_type: fact.target_type,
            target_id: fact.target_id,
            target_path_hash: None,
            result: fact.result,
            metadata: fact.metadata,
        },
    )
}

impl AuditRecord {
    /// Whether the fact belongs to the vault or to the installation and passes
    /// the filters.
    pub open spec fn listed(
        self,
        vault: Seq<char>,
        action: Option<Seq<char>>,
        result: Option<Seq<char>>,
    ) -> bool {
        &&& self.vault_id is None || optional_id(self.vault_id) == Some(vault)
        &&& action matches Some(action) ==> self.action@ == action
        &&& result matches Some(result) ==> self.result@ == result
    }

    /// What facts are listed in the order of.
    pub open spec fn key(self) -> SortKey {
        SortKey { first: self.occurred_at as i128, second: 0, third: 0, id: self.id.text }
    }

    fn is_listed(&self, vault: &Id, action: Option<&str>, result: Option<&str>) -> (r: bool)
        ensures
            r == self.listed(vault@, str_text(action), str_text(result)),
    {
        let in_scope = match &self.vault_id {
            Some(owner) => owner.same(vault),
            None => true,
        };
        let of_action = match action {
            Some(action) => text_eq(self.action.as_str(), action),
            None => true,
        };
        let of_result = match result {
            Some(result) => text_eq(self.result.as_str(), result),
            None => true,
        };
        in_scope && of_action && of_result
    }
}

/// Keys of facts, in order.
pub open spec fn audit_keys(records: Seq<AuditRecord>) -> Seq<SortKey> {
    records.map_values(|record: AuditRecord| record.key())
}

/// Which facts a listing shows.
pub open spec fn listed_facts(
    records: Seq<AuditRecord>,
    vault: Seq<char>,
    action: Option<Seq<char>>,
    result: Option<Seq<char>>,
) -> Seq<bool> {
    records.map_values(|record: AuditRecord| record.listed(vault, action, result))
}

/// List current-vault and global audit facts with bounded filters, newest
/// first: the positions of one page.
pub fn list_for_vault(
    context: &VaultContext,
    records: &[AuditRecord],
    action: Option<&str>,
    result: Option<&str>,
    limit: u32,
    offset: u32,
) -> (r: Result<Vec<usize>, StateError>)
    ensures
        if !(1 <= limit <= 200 && offset <= 1_000_000) {
            r == invalid::<Vec<usize>>("audit page is invalid")
        } else {
            r matches Ok(picked) && is_page(
                audit_keys(records@),
                listed_facts(records@, context.id@, str_text(action), str_text(result)),
                true,
                limit as nat,
                offset as nat,
                picked@,
            )
        },
{
    if limit == 0 || limit > 200 || offset > 1_000_000 {
        return Err(StateError::InvalidInput("audit page is invalid"));
    }
    let mut keys: Vec<SortKey> = Vec::new();
    let mut eligible: Vec<bool> = Vec::new();
    let ghost flags = listed_facts(records@, context.id@, str_text(action), str_text(result));
    let mut i: usize = 0;
    while i < records.len()
        invariant
            i <= records@.len(),
            flags == listed_facts(records@, context.id@, str_text(action), str_text(result)),
            keys@ == audit_keys(records@).take(i as int),
            eligible@ == flags.take(i as int),
        decreases records@.len() - i,
    {
        let record = &records[i];
        keys.push(
            SortKey {
                first: record.occurred_at as i128,
                second: 0,
                third: 0,
                id: record.id.text.clone(),
            },
        );
        eligible.push(record.is_listed(&context.id, action, result));
        i += 1;
        assert(keys@ =~= audit_keys(records@).take(i as int));
        assert(eligible@ =~= flags.take(i as int));
    }
    assert(keys@ =~= audit_keys(records@));
    assert(eligible@ =~= flags);
    Ok(page(keys.as_slice(), eligible.as_slice(), true, limit, offset))
}

/// A vault's listing never shows another vault's facts.
pub proof fn law_listing_is_isolated(
    records: Seq<AuditRecord>,
    vault: Seq<char>,
    action: Option<Seq<char>>,
    result: Option<Seq<char>>,
    limit: nat,
    offset: nat,
    picked: Seq<usize>,
)
    requires
        is_page(
            audit_keys(records),
            listed_facts(records, vault, action, result),
            true,
            limit,
            offset,
            picked,
        ),
    ensures
        forall|i: int|
            0 <= i < picked.len() ==> (#[trigger] picked[i]) < records.len() && (records[picked[i] as int].vault_id
                is None || optional_id(records[picked[i] as int].vault_id) == Some(vault)),
{
    crate::order::law_page_is_bounded(
        audit_keys(records),
        listed_facts(records, vault, action, result),
        true,
        limit,
        offset,
        picked,
    );
}

} // verus!
