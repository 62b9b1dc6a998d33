//! What appending and listing audit facts does, in terms of the stored rows.

use vstd::prelude::*;

use crate::audit::{append, audit_keys, list_for_vault, listed_facts, AuditFact, AuditRecord};
use crate::domain::{Id, VaultContext};
use crate::error::StateError;
use crate::order::laws::{lemma_page_rows, no_later};
use crate::text::str_text;

verus! {

/// A fact within its bounds is recorded as it is told, for the vault given or for
/// none.
pub proof fn law_facts_are_recorded_as_told(
    context: Option<&VaultContext>,
    fact: AuditFact,
    id: Id,
    now: i64,
    r: Result<AuditRecord, StateError>,
)
    requires
        call_ensures(append, (context, fact, id, now), r),
    ensures
        r is Ok <==> {
            &&& fact.action@.len() > 0
            &&& vstd::utf8::encode_utf8(fact.action@).len() <= 128
            &&& fact.result@.len() > 0
            &&& vstd::utf8::encode_utf8(fact.result@).len() <= 64
            &&& vstd::utf8::encode_utf8(fact.metadata@).len() <= 16 * 1024
        },
        r matches Ok(record) ==> {
            &&& record.id == id
            &&& record.occurred_at == now
            &&& record.request_id == fact.request_id
            &&& context is Some ==> record.vault_id == Some(context->0.id)
            &&& context is None ==> record.vault_id is None
            &&& record.plane == fact.source_plane
            &&& record.actor_id == fact.actor.actor_id
            &&& record.action == fact.action
            &&& record.target_type == fact.target_type
            &&& record.target_id == fact.target_id
            &&& record.target_path_hash is None
            &&& record.result == fact.result
            &&& record.metadata == fact.metadata
        },
{
}

/// Whether a fact is shown to a vault: its own or one of none, with the action
/// and result asked for.
pub open spec fn is_shown(
    record: AuditRecord,
    vault: Id,
    action: Option<&str>,
    result: Option<&str>,
) -> bool {
    &&& record.vault_id is None || record.vault_id->0.text@ == vault.text@
    &&& action is Some ==> record.action@ == action->0@
    &&& result is Some ==> record.result@ == result->0@
}

/// A listing shows the vault's facts, the latest first, each once; a first page
/// that is not full shows all of them.
pub proof fn law_facts_are_listed_latest_first(
    context: &VaultContext,
    records: &[AuditRecord],
    action: Option<&str>,
    result: Option<&str>,
    limit: u32,
    offset: u32,
    r: Result<Vec<usize>, StateError>,
)
    requires
        call_ensures(list_for_vault, (context, records, action, result, limit, offset), r),
    ensures
        r is Ok <==> 1 <= limit <= 200 && offset <= 1_000_000,
        r matches Ok(picked) ==> {
            &&& picked@.len() <= limit
            &&& forall|i: int|
                0 <= i < picked@.len() ==> (#[trigger] picked@[i]) < records@.len() && is_shown(
                    records@[picked@[i] as int],
                    context.id,
                    action,
                    result,
                )
            &&& forall|i: int, j: int|
                0 <= i < j < picked@.len() ==> (#[trigger] picked@[i]) != (#[trigger] picked@[j])
                    && records@[picked@[i] as int].occurred_at
                    >= records@[picked@[j] as int].occurred_at
            &&& offset == 0 && picked@.len() < limit ==> forall|k: int|
                0 <= k < records@.len() && is_shown(
                    #[trigger] records@[k],
                    context.id,
                    action,
                    result,
                ) ==> picked@.contains(k as usize)
        },
{
    if let Ok(picked) = r {
        let order_keys = audit_keys(records@);
        let marked = listed_facts(records@, context.id@, str_text(action), str_text(result));
        lemma_page_rows(order_keys, marked, true, limit as nat, offset as nat, picked@);
        assert forall|k: int| 0 <= k < records@.len() implies (#[trigger] marked[k] <==> is_shown(
            records@[k],
            context.id,
            action,
            result,
        )) by {}
        assert forall|i: int, j: int| 0 <= i < j < picked@.len() implies (#[trigger] picked@[i])
            != (#[trigger] picked@[j]) && records@[picked@[i] as int].occurred_at
            >= records@[picked@[j] as int].occurred_at by {
            assert(no_later(order_keys[picked@[j] as int], order_keys[picked@[i] as int]));
        }
        assert forall|k: int|
            offset == 0 && picked@.len() < limit && 0 <= k < records@.len() && is_shown(
                #[trigger] records@[k],
                context.id,
                action,
                result,
            ) implies picked@.contains(k as usize) by {
            assert(marked[k]);
        }
    }
}

} // verus!
