//! What storing providers, models, bindings and vectors does, in terms of the
//! stored rows.

use vstd::prelude::*;

use crate::domain::{Id, Revision, VaultContext};
use crate::error::StateError;
use crate::json::Json;
use crate::order::keys;
use crate::order::laws::{is_listing, lemma_page_listing};
use crate::providers::{
    decode_vector, delete_embeddings_for_model, delete_provider, embedding_coverage, encode_vector,
    get_binding, get_embedding, insert_model, insert_provider, list_health, list_models,
    list_providers, list_vectors, of_model, resolve_binding, update_model, update_provider,
    upsert_binding, upsert_embedding, upsert_health, EmbeddingCoverage, EmbeddingRecord,
    ModelBindingRecord, ModelRecord, ProviderHealthRecord, ProviderRecord, StoredEmbedding,
};
use crate::rows::laws::lemma_kept;
use crate::rows::{first_index, lemma_first_index, some_row};
use crate::text::text_before;

verus! {

/// Whether a text is a label: not empty, at most 512 bytes, and no control
/// character in it.
pub open spec fn is_name(text: Seq<char>) -> bool {
    &&& text.len() > 0
    &&& vstd::utf8::encode_utf8(text).len() <= 512
    &&& forall|i: int|
        0 <= i < text.len() ==> {
            let code = #[trigger] text[i] as u32;
            0x1f < code && !(0x7f <= code <= 0x9f)
        }
}

proof fn lemma_name(text: Seq<char>)
    ensures
        crate::text::label_ok(text, 512) <==> is_name(text),
{
    if forall|i: int|
        0 <= i < text.len() ==> {
            let code = #[trigger] text[i] as u32;
            0x1f < code && !(0x7f <= code <= 0x9f)
        } {
        assert(!crate::text::has_control(text));
    } else {
        let i = choose|i: int|
            0 <= i < text.len() && {
                let code = #[trigger] text[i] as u32;
                !(0x1f < code && !(0x7f <= code <= 0x9f))
            };
        assert(crate::text::control_char(text[i]));
    }
}

/// A provider is taken as it is given where its name, type and address are in
/// order; a model where its external name is.
pub proof fn law_providers_and_models_are_taken_as_given(
    provider: ProviderRecord,
    model: ModelRecord,
    p: Result<ProviderRecord, StateError>,
    m: Result<ModelRecord, StateError>,
)
    requires
        call_ensures(insert_provider, (provider,), p),
        call_ensures(insert_model, (model,), m),
    ensures
        p is Ok <==> is_name(provider.name@) && is_name(provider.provider_type@) && 1
            <= vstd::utf8::encode_utf8(provider.base_url@).len() <= 4096 && provider.revision.value
            <= i64::MAX,
        p is Ok ==> p->Ok_0 == provider,
        m is Ok <==> is_name(model.external_model_id@) && model.revision.value <= i64::MAX,
        m is Ok ==> m->Ok_0 == model,
{
    lemma_name(provider.name@);
    lemma_name(provider.provider_type@);
    lemma_name(model.external_model_id@);
}

/// A provider is updated one revision further than the one that was seen, where
/// that one still stands; its identity and creation stay, all else is as given.
pub proof fn law_providers_are_updated_from_what_was_seen(
    stored: Option<ProviderRecord>,
    record: ProviderRecord,
    now: i64,
    r: Result<ProviderRecord, StateError>,
)
    requires
        call_ensures(update_provider, (stored, record, now), r),
    ensures
        r is Ok <==> {
            &&& is_name(record.name@)
            &&& is_name(record.provider_type@)
            &&& 1 <= vstd::utf8::encode_utf8(record.base_url@).len() <= 4096
            &&& stored is Some
            &&& stored->0.id.text@ == record.id.text@
            &&& stored->0.revision == record.revision
            &&& record.revision.value < i64::MAX
        },
        r matches Ok(after) ==> {
            &&& after.id == stored->0.id
            &&& after.created_at == stored->0.created_at
            &&& after.revision.value == stored->0.revision.value + 1
            &&& after.updated_at == now
            &&& after.name == record.name
            &&& after.provider_type == record.provider_type
            &&& after.base_url == record.base_url
            &&& after.secret_id == record.secret_id
            &&& after.settings == record.settings
            &&& after.enabled == record.enabled
        },
{
    lemma_name(record.name@);
    lemma_name(record.provider_type@);
}

/// A model is updated one revision further than the one that was seen, where that
/// one still stands; its identity and creation stay, all else is as given.
pub proof fn law_models_are_updated_from_what_was_seen(
    stored: Option<ModelRecord>,
    record: ModelRecord,
    now: i64,
    r: Result<ModelRecord, StateError>,
)
    requires
        call_ensures(update_model, (stored, record, now), r),
    ensures
        r is Ok <==> {
            &&& is_name(record.external_model_id@)
            &&& stored is Some
            &&& stored->0.id.text@ == record.id.text@
            &&& stored->0.revision == record.revision
            &&& record.revision.value < i64::MAX
        },
        r matches Ok(after) ==> {
            &&& after.id == stored->0.id
            &&& after.created_at == stored->0.created_at
            &&& after.revision.value == stored->0.revision.value + 1
            &&& after.updated_at == now
            &&& after.provider_id == record.provider_id
            &&& after.external_model_id == record.external_model_id
            &&& after.capabilities == record.capabilities
            &&& after.settings == record.settings
            &&& after.enabled == record.enabled
        },
{
    lemma_name(record.external_model_id@);
}

/// Deleting a provider takes that provider alone.
pub proof fn law_deleting_a_provider_takes_it_alone(
    providers: Vec<ProviderRecord>,
    id: &Id,
    r: Result<Vec<ProviderRecord>, StateError>,
)
    requires
        call_ensures(delete_provider, (providers, id), r),
    ensures
        r is Ok <==> exists|k: int|
            0 <= k < providers@.len() && (#[trigger] providers@[k]).id.text@ == id.text@,
        r matches Ok(after) ==> forall|row: ProviderRecord| #[trigger]
            after@.contains(row) <==> providers@.contains(row) && row.id.text@ != id.text@,
{
    let rule = |provider: ProviderRecord| provider.id@ == id@;
    if some_row(providers@, rule) {
        let k = choose|k: int| 0 <= k < providers@.len() && rule(#[trigger] providers@[k]);
        assert(providers@[k].id.text@ == id.text@);
    }
    assert forall|k: int|
        0 <= k < providers@.len() && (#[trigger] providers@[k]).id.text@ == id.text@ implies rule(
        providers@[k],
    ) by {}
    lemma_kept(providers@, |provider: ProviderRecord| provider.id@ != id@);
}

/// Providers, their health rows and the models of a provider are listed by
/// identity, none left out for a later one.
pub proof fn law_providers_are_listed_by_identity(
    providers: &[ProviderRecord],
    health: &[ProviderHealthRecord],
    models: &[ModelRecord],
    provider_id: Option<&Id>,
    limit: u32,
    p: Result<Vec<usize>, StateError>,
    h: Result<Vec<usize>, StateError>,
    m: Result<Vec<usize>, StateError>,
)
    requires
        call_ensures(list_providers, (providers, limit), p),
        call_ensures(list_health, (health, limit), h),
        call_ensures(list_models, (models, provider_id, limit), m),
    ensures
        p is Ok <==> 1 <= limit <= 1000,
        h is Ok <==> 1 <= limit <= 1000,
        m is Ok <==> 1 <= limit <= 1000,
        p matches Ok(picked) ==> is_listing(
            picked@,
            providers@.len(),
            limit as nat,
            |k: int| true,
            |a: int, b: int| in_order(providers@[a].id, providers@[b].id),
        ),
        h matches Ok(picked) ==> is_listing(
            picked@,
            health@.len(),
            limit as nat,
            |k: int| true,
            |a: int, b: int| in_order(health@[a].provider_id, health@[b].provider_id),
        ),
        m matches Ok(picked) ==> is_listing(
            picked@,
            models@.len(),
            limit as nat,
            |k: int| provider_id is Some ==> models@[k].provider_id.text@ == provider_id->0.text@,
            |a: int, b: int| in_order(models@[a].id, models@[b].id),
        ),
{
    if p is Ok {
        let all = |k: int| true;
        let marked = providers@.map_values(|provider: ProviderRecord| true);
        lemma_page_listing(
            keys(providers@),
            marked,
            limit as nat,
            p->Ok_0@,
            all,
            |a: int, b: int| in_order(providers@[a].id, providers@[b].id),
        );
        let rows = health@.map_values(|row: ProviderHealthRecord| true);
        lemma_page_listing(
            keys(health@),
            rows,
            limit as nat,
            h->Ok_0@,
            all,
            |a: int, b: int| in_order(health@[a].provider_id, health@[b].provider_id),
        );
        let of_provider = models@.map_values(
            |model: ModelRecord| provider_id is Some ==> model.provider_id@ == provider_id->0@,
        );
        lemma_page_listing(
            keys(models@),
            of_provider,
            limit as nat,
            m->Ok_0@,
            |k: int| provider_id is Some ==> models@[k].provider_id.text@ == provider_id->0.text@,
            |a: int, b: int| in_order(models@[a].id, models@[b].id),
        );
    }
}

/// Whether one identity comes no later than another.
pub open spec fn in_order(a: Id, b: Id) -> bool {
    a.text@ == b.text@ || text_before(a.text@, b.text@)
}

/// Whether a binding is a vault's own for a role.
pub open spec fn is_own(binding: ModelBindingRecord, vault: Id, role: Seq<char>) -> bool {
    binding.vault_id is Some && binding.vault_id->0.text@ == vault.text@ && binding.role@ == role
}

/// Whether a binding is the one of all vaults for a role.
pub open spec fn is_shared(binding: ModelBindingRecord, role: Seq<char>) -> bool {
    binding.vault_id is None && binding.role@ == role
}

/// A role resolves to the vault's own binding; where it has none, to that of all
/// vaults; where there is none either, to nothing.
pub proof fn law_roles_resolve_to_the_closest_binding(
    context: &VaultContext,
    bindings: &[ModelBindingRecord],
    role: &str,
    r: Result<Option<usize>, StateError>,
)
    requires
        call_ensures(resolve_binding, (context, bindings, role), r),
    ensures
        r is Ok <==> is_name(role@),
        r matches Ok(Some(i)) ==> i < bindings@.len() && (is_own(
            bindings@[i as int],
            context.id,
            role@,
        ) || (is_shared(bindings@[i as int], role@) && forall|k: int|
            0 <= k < bindings@.len() ==> !is_own(#[trigger] bindings@[k], context.id, role@))),
        r matches Ok(None) ==> forall|k: int|
            0 <= k < bindings@.len() ==> !is_own(#[trigger] bindings@[k], context.id, role@)
                && !is_shared(bindings@[k], role@),
{
    lemma_name(role@);
    let vault = context.id@;
    let own = |binding: ModelBindingRecord|
        crate::providers::binds(binding, Some(vault), role@);
    let shared = |binding: ModelBindingRecord| crate::providers::binds(binding, None, role@);
    lemma_first_index(bindings@, own);
    lemma_first_index(bindings@, shared);
    assert forall|k: int| 0 <= k < bindings@.len() implies own(bindings@[k]) == #[trigger] is_own(
        bindings@[k],
        context.id,
        role@,
    ) && shared(bindings@[k]) == is_shared(bindings@[k], role@) by {}
    let found = match first_index(bindings@, own) {
        Some(i) => Some(i),
        None => first_index(bindings@, shared),
    };
    assert(crate::providers::resolved(bindings@, vault, role@) == found);
}

/// A binding is read in the scope asked for alone: that of a vault, or that of
/// all vaults.
pub proof fn law_bindings_are_read_in_their_scope(
    context: Option<&VaultContext>,
    bindings: &[ModelBindingRecord],
    role: &str,
    r: Result<Option<usize>, StateError>,
)
    requires
        call_ensures(get_binding, (context, bindings, role), r),
    ensures
        r is Ok <==> is_name(role@),
        r matches Ok(Some(i)) ==> i < bindings@.len() && match context {
            Some(context) => is_own(bindings@[i as int], context.id, role@),
            None => is_shared(bindings@[i as int], role@),
        },
        r matches Ok(None) ==> forall|k: int|
            0 <= k < bindings@.len() ==> !(match context {
                Some(context) => is_own(#[trigger] bindings@[k], context.id, role@),
                None => is_shared(bindings@[k], role@),
            }),
{
    lemma_name(role@);
    let rule = |binding: ModelBindingRecord|
        crate::providers::binds(binding, crate::providers::scope(context), role@);
    lemma_first_index(bindings@, rule);
    assert forall|k: int| 0 <= k < bindings@.len() implies rule(#[trigger] bindings@[k]) == (
    match context {
        Some(context) => is_own(bindings@[k], context.id, role@),
        None => is_shared(bindings@[k], role@),
    }) by {}
}

/// A binding names the model and settings given, for the role and scope; it goes
/// one revision further than the one in its place, or starts at one. A caller
/// that saw another revision is refused.
pub proof fn law_bindings_hold_what_is_given(
    context: Option<&VaultContext>,
    current: Option<ModelBindingRecord>,
    role: String,
    model_id: Id,
    settings: Json,
    expected: Option<Revision>,
    now: i64,
    r: Result<ModelBindingRecord, StateError>,
)
    requires
        call_ensures(
            upsert_binding,
            (context, current, role, model_id, settings, expected, now),
            r,
        ),
        current matches Some(row) ==> (match context {
            Some(context) => is_own(row, context.id, role@),
            None => is_shared(row, role@),
        }),
    ensures
        r is Ok <==> {
            &&& is_name(role@)
            &&& expected matches Some(seen) ==> current is Some && current->0.revision == seen
            &&& current matches Some(row) ==> row.revision.value < i64::MAX
        },
        r matches Ok(after) ==> {
            &&& match context {
                Some(context) => is_own(after, context.id, role@),
                None => is_shared(after, role@),
            }
            &&& after.model_id == model_id
            &&& after.settings == settings
            &&& after.updated_at == now
            &&& after.revision.value == match current {
                Some(row) => row.revision.value + 1,
                None => 1,
            }
            &&& current matches Some(row) ==> after.id == row.id
            &&& current is None ==> after.id@ == "binding:"@ + (match context {
                Some(context) => context.id.text@,
                None => "global"@,
            }) + ":"@ + role@
        },
{
    lemma_name(role@);
}

/// Health is kept as it is reported, with counters that fit their column.
pub proof fn law_health_is_kept_as_reported(
    health: ProviderHealthRecord,
    r: Result<ProviderHealthRecord, StateError>,
)
    requires
        call_ensures(upsert_health, (health,), r),
    ensures
        r is Ok <==> is_name(health.status@),
        r matches Ok(after) ==> {
            &&& after.provider_id == health.provider_id
            &&& after.status == health.status
            &&& after.checked_at == health.checked_at
            &&& after.last_success_at == health.last_success_at
            &&& after.last_error == health.last_error
            &&& after.updated_at == health.updated_at
            &&& after.latency_ms is Some <==> health.latency_ms is Some
            &&& health.latency_ms is Some && health.latency_ms->0 <= i64::MAX
                ==> after.latency_ms == health.latency_ms
            &&& health.latency_ms is Some && health.latency_ms->0 > i64::MAX
                ==> after.latency_ms->0 == i64::MAX
            &&& health.model_count <= i64::MAX ==> after.model_count == health.model_count
            &&& health.model_count > i64::MAX ==> after.model_count == i64::MAX
        },
{
    lemma_name(health.status@);
}

/// Four bytes of a blob as a number, the lowest first.
pub open spec fn number_at(blob: Seq<u8>, at: int) -> int {
    blob[at] + blob[at + 1] * 0x100 + blob[at + 2] * 0x1_0000 + blob[at + 3] * 0x100_0000
}

/// A blob holds four bytes for each number of the vector, the lowest first, and
/// is read back number by number.
pub proof fn law_vectors_are_stored_number_by_number(
    vector: &[u32],
    blob: Vec<u8>,
    read: &[u8],
    dimension: u32,
    r: Result<Vec<u32>, StateError>,
)
    requires
        call_ensures(encode_vector, (vector,), blob),
        call_ensures(decode_vector, (read, dimension), r),
    ensures
        blob@.len() == 4 * vector@.len(),
        forall|i: int|
            0 <= i < vector@.len() ==> number_at(blob@, 4 * i) == #[trigger] vector@[i],
        r is Ok <==> read@.len() == 4 * dimension,
        r matches Ok(numbers) ==> numbers@.len() == dimension && forall|i: int|
            0 <= i < dimension ==> (#[trigger] numbers@[i]) == number_at(read@, 4 * i),
{
    lemma_encoded(vector@);
    if let Ok(numbers) = r {
        assert forall|i: int| 0 <= i < dimension implies (#[trigger] numbers@[i]) == number_at(
            read@,
            4 * i,
        ) by {
            let bytes = read@.subrange(4 * i, 4 * i + 4);
            assert(bytes[0] == read@[4 * i]);
            assert(bytes[1] == read@[4 * i + 1]);
            assert(bytes[2] == read@[4 * i + 2]);
            assert(bytes[3] == read@[4 * i + 3]);
            assert(0 <= crate::providers::le_value(bytes) <= u32::MAX);
        }
    }
}

proof fn lemma_encoded(vector: Seq<u32>)
    ensures
        crate::providers::encoded(vector).len() == 4 * vector.len(),
        forall|i: int|
            0 <= i < vector.len() ==> number_at(crate::providers::encoded(vector), 4 * i)
                == #[trigger] vector[i],
    decreases vector.len(),
{
    if vector.len() > 0 {
        let fewer = vector.drop_last();
        lemma_encoded(fewer);
        let head = crate::providers::encoded(fewer);
        let blob = crate::providers::encoded(vector);
        let tail = crate::providers::le_bytes(vector.last());
        assert(blob == head + tail);
        assert forall|i: int| 0 <= i < vector.len() implies number_at(blob, 4 * i)
            == #[trigger] vector[i] by {
            if i < fewer.len() {
                assert(fewer[i] == vector[i]);
                assert(blob[4 * i] == head[4 * i]);
                assert(blob[4 * i + 1] == head[4 * i + 1]);
                assert(blob[4 * i + 2] == head[4 * i + 2]);
                assert(blob[4 * i + 3] == head[4 * i + 3]);
            } else {
                assert(blob[4 * i] == tail[0]);
                assert(blob[4 * i + 1] == tail[1]);
                assert(blob[4 * i + 2] == tail[2]);
                assert(blob[4 * i + 3] == tail[3]);
                lemma_bytes(vector.last());
            }
        }
    }
}

proof fn lemma_bytes(bits: u32)
    ensures
        ({
            let bytes = crate::providers::le_bytes(bits);
            bytes[0] + bytes[1] * 0x100 + bytes[2] * 0x1_0000 + bytes[3] * 0x100_0000 == bits
        }),
{
}

/// Whether two embeddings are of one chunk: the same object of a vault, the same
/// piece of it and the same model.
pub open spec fn is_same_chunk(a: EmbeddingRecord, b: EmbeddingRecord) -> bool {
    &&& a.vault_id.text@ == b.vault_id.text@
    &&& a.object_type@ == b.object_type@
    &&& a.object_id@ == b.object_id@
    &&& a.chunk_key@ == b.chunk_key@
    &&& a.model_id.text@ == b.model_id.text@
}

/// Whether the bits of a single-precision number stand for a finite one: not all
/// of its exponent is set.
pub open spec fn is_finite(bits: u32) -> bool {
    (bits as int / 0x80_0000) % 0x100 != 0xff
}

/// An embedding is stored with its vector in the place of the one of its chunk;
/// those of other chunks stay.
pub proof fn law_embeddings_replace_their_chunk(
    context: &VaultContext,
    embeddings: Vec<StoredEmbedding>,
    embedding: EmbeddingRecord,
    vector: &[u32],
    r: Result<Vec<StoredEmbedding>, StateError>,
)
    requires
        call_ensures(upsert_embedding, (context, embeddings, embedding, vector), r),
    ensures
        r is Ok <==> {
            &&& embedding.vault_id.text@ == context.id.text@
            &&& embedding.dimension > 0
            &&& embedding.dimension == vector@.len()
            &&& forall|i: int| 0 <= i < vector@.len() ==> is_finite(#[trigger] vector@[i])
        },
        r matches Ok(after) ==> {
            &&& after@.len() > 0
            &&& after@.last().embedding == embedding
            &&& after@.last().vector_blob@.len() == 4 * vector@.len()
            &&& forall|i: int|
                0 <= i < vector@.len() ==> number_at(after@.last().vector_blob@, 4 * i)
                    == #[trigger] vector@[i]
            &&& forall|stored: StoredEmbedding| #[trigger]
                after@.drop_last().contains(stored) <==> embeddings@.contains(stored)
                    && !is_same_chunk(stored.embedding, embedding)
        },
{
    let broken = |bits: u32| !crate::providers::finite_bits(bits);
    if some_row(vector@, broken) {
        let i = choose|i: int| 0 <= i < vector@.len() && broken(#[trigger] vector@[i]);
        lemma_finite(vector@[i]);
        assert(!is_finite(vector@[i]));
    } else {
        assert forall|i: int| 0 <= i < vector@.len() implies is_finite(#[trigger] vector@[i]) by {
            assert(!broken(vector@[i]));
            lemma_finite(vector@[i]);
        }
    }
    lemma_encoded(vector@);
    lemma_kept(
        embeddings@,
        |stored: StoredEmbedding| !crate::providers::same_chunk(stored.embedding, embedding),
    );
}

proof fn lemma_finite(bits: u32)
    ensures
        crate::providers::finite_bits(bits) <==> is_finite(bits),
{
}

/// The vectors of a model are those of the vault with its dimension, by identity.
pub proof fn law_vectors_are_listed_by_model(
    context: &VaultContext,
    embeddings: &[StoredEmbedding],
    model_id: &Id,
    dimension: u32,
    limit: u32,
    r: Result<Vec<usize>, StateError>,
)
    requires
        call_ensures(list_vectors, (context, embeddings, model_id, dimension, limit), r),
    ensures
        r is Ok <==> 1 <= limit <= 10_000 && dimension > 0,
        r matches Ok(picked) ==> is_listing(
            picked@,
            embeddings@.len(),
            limit as nat,
            |k: int|
                {
                    &&& embeddings@[k].embedding.vault_id.text@ == context.id.text@
                    &&& embeddings@[k].embedding.model_id.text@ == model_id.text@
                    &&& embeddings@[k].embedding.dimension == dimension
                },
            |a: int, b: int| in_order(embeddings@[a].embedding.id, embeddings@[b].embedding.id),
        ),
{
    if let Ok(picked) = r {
        lemma_page_listing(
            keys(embeddings@),
            embeddings@.map_values(
                |stored: StoredEmbedding|
                    of_model(stored, context.id@, model_id@) && stored.embedding.dimension
                        == dimension,
            ),
            limit as nat,
            picked@,
            |k: int|
                {
                    &&& embeddings@[k].embedding.vault_id.text@ == context.id.text@
                    &&& embeddings@[k].embedding.model_id.text@ == model_id.text@
                    &&& embeddings@[k].embedding.dimension == dimension
                },
            |a: int, b: int| in_order(embeddings@[a].embedding.id, embeddings@[b].embedding.id),
        );
    }
}

/// Deleting the vectors of a model takes those of the vault and the model, and
/// tells how many.
pub proof fn law_deleting_a_models_vectors_takes_them_alone(
    context: &VaultContext,
    embeddings: Vec<StoredEmbedding>,
    model_id: &Id,
    r: (Vec<StoredEmbedding>, u64),
)
    requires
        call_ensures(delete_embeddings_for_model, (context, embeddings, model_id), r),
    ensures
        forall|stored: StoredEmbedding| #[trigger]
            r.0@.contains(stored) <==> embeddings@.contains(stored) && !(
            stored.embedding.vault_id.text@ == context.id.text@ && stored.embedding.model_id.text@
                == model_id.text@),
        r.0@.len() + r.1 == embeddings@.len(),
{
    let kept = |stored: StoredEmbedding| !of_model(stored, context.id@, model_id@);
    let taken = |stored: StoredEmbedding| of_model(stored, context.id@, model_id@);
    lemma_kept(embeddings@, kept);
    lemma_split(embeddings@, kept, taken);
}

proof fn lemma_split(
    rows: Seq<StoredEmbedding>,
    kept: spec_fn(StoredEmbedding) -> bool,
    taken: spec_fn(StoredEmbedding) -> bool,
)
    requires
        forall|row: StoredEmbedding| #[trigger] kept(row) == !taken(row),
    ensures
        rows.filter(kept).len() + rows.filter(taken).len() == rows.len(),
    decreases rows.len(),
{
    reveal(Seq::filter);
    if rows.len() > 0 {
        lemma_split(rows.drop_last(), kept, taken);
        assert(kept(rows.last()) == !taken(rows.last()));
    }
}

/// Coverage counts the vault's vectors of a model, the objects that have one, and
/// lists each of their dimensions once.
pub proof fn law_coverage_counts_objects_once(
    context: &VaultContext,
    embeddings: &[StoredEmbedding],
    model_id: &Id,
    r: EmbeddingCoverage,
)
    requires
        call_ensures(embedding_coverage, (context, embeddings, model_id), r),
    ensures
        r.total == embeddings@.filter(
            |stored: StoredEmbedding|
                stored.embedding.vault_id.text@ == context.id.text@
                    && stored.embedding.model_id.text@ == model_id.text@,
        ).len(),
        exists|objects: Set<(Seq<char>, Seq<char>)>|
            {
                &&& #[trigger] objects.len() == r.objects
                &&& objects.finite()
                &&& forall|kind: Seq<char>, id: Seq<char>| #[trigger]
                    objects.contains((kind, id)) <==> exists|k: int|
                        {
                            &&& 0 <= k < embeddings@.len()
                            &&& (#[trigger] embeddings@[k]).embedding.vault_id.text@
                                == context.id.text@
                            &&& embeddings@[k].embedding.model_id.text@ == model_id.text@
                            &&& embeddings@[k].embedding.object_type@ == kind
                            &&& embeddings@[k].embedding.object_id@ == id
                        }
            },
        forall|i: int, j: int|
            0 <= i < j < r.dimensions@.len() ==> (#[trigger] r.dimensions@[i]) < (
            #[trigger] r.dimensions@[j]),
        forall|dimension: u32| #[trigger]
            r.dimensions@.contains(dimension) <==> exists|k: int|
                {
                    &&& 0 <= k < embeddings@.len()
                    &&& (#[trigger] embeddings@[k]).embedding.vault_id.text@ == context.id.text@
                    &&& embeddings@[k].embedding.model_id.text@ == model_id.text@
                    &&& embeddings@[k].embedding.dimension == dimension
                },
{
    let counted = |stored: StoredEmbedding| of_model(stored, context.id@, model_id@);
    let named = |stored: StoredEmbedding|
        stored.embedding.vault_id.text@ == context.id.text@ && stored.embedding.model_id.text@
            == model_id.text@;
    assert(counted =~= named);
    lemma_objects(embeddings@, context.id@, model_id@);
    let objects = crate::providers::objects_of(embeddings@, context.id@, model_id@);
    assert(objects.len() == r.objects);
    let vault = context.id@;
    let model = model_id@;
    assert forall|dimension: u32| #[trigger] r.dimensions@.contains(dimension) <==> (exists|k: int|
        {
            &&& 0 <= k < embeddings@.len()
            &&& (#[trigger] embeddings@[k]).embedding.vault_id.text@ == context.id.text@
            &&& embeddings@[k].embedding.model_id.text@ == model_id.text@
            &&& embeddings@[k].embedding.dimension == dimension
        }) by {
        let rule = |stored: StoredEmbedding|
            of_model(stored, vault, model) && stored.embedding.dimension == dimension;
        assert(r.dimensions@.contains(dimension) <==> some_row(embeddings@, rule));
        if some_row(embeddings@, rule) {
            let k = choose|k: int| 0 <= k < embeddings@.len() && rule(#[trigger] embeddings@[k]);
            assert(embeddings@[k].embedding.dimension == dimension);
        }
        assert forall|k: int|
            0 <= k < embeddings@.len() && (#[trigger] embeddings@[k]).embedding.vault_id.text@
                == context.id.text@ && embeddings@[k].embedding.model_id.text@ == model_id.text@
                && embeddings@[k].embedding.dimension == dimension implies rule(embeddings@[k]) by {}
    }
}

proof fn lemma_objects(rows: Seq<StoredEmbedding>, vault: Seq<char>, model: Seq<char>)
    ensures
        crate::providers::objects_of(rows, vault, model).finite(),
        forall|kind: Seq<char>, id: Seq<char>| #[trigger]
            crate::providers::objects_of(rows, vault, model).contains((kind, id)) <==> exists|k: int|
                {
                    &&& 0 <= k < rows.len()
                    &&& (#[trigger] rows[k]).embedding.vault_id.text@ == vault
                    &&& rows[k].embedding.model_id.text@ == model
                    &&& rows[k].embedding.object_type@ == kind
                    &&& rows[k].embedding.object_id@ == id
                },
    decreases rows.len(),
{
    if rows.len() > 0 {
        let fewer = rows.drop_last();
        lemma_objects(fewer, vault, model);
        let objects = crate::providers::objects_of(rows, vault, model);
        let before = crate::providers::objects_of(fewer, vault, model);
        assert forall|kind: Seq<char>, id: Seq<char>| #[trigger]
            objects.contains((kind, id)) <==> exists|k: int|
            {
                &&& 0 <= k < rows.len()
                &&& (#[trigger] rows[k]).embedding.vault_id.text@ == vault
                &&& rows[k].embedding.model_id.text@ == model
                &&& rows[k].embedding.object_type@ == kind
                &&& rows[k].embedding.object_id@ == id
            } by {
            if before.contains((kind, id)) {
                let k = choose|k: int|
                    {
                        &&& 0 <= k < fewer.len()
                        &&& (#[trigger] fewer[k]).embedding.vault_id.text@ == vault
                        &&& fewer[k].embedding.model_id.text@ == model
                        &&& fewer[k].embedding.object_type@ == kind
                        &&& fewer[k].embedding.object_id@ == id
                    };
                assert(rows[k] == fewer[k]);
            }
            if objects.contains((kind, id)) && !before.contains((kind, id)) {
                assert(rows[rows.len() - 1].embedding.object_id@ == id);
            }
            if exists|k: int|
                {
                    &&& 0 <= k < rows.len()
                    &&& (#[trigger] rows[k]).embedding.vault_id.text@ == vault
                    &&& rows[k].embedding.model_id.text@ == model
                    &&& rows[k].embedding.object_type@ == kind
                    &&& rows[k].embedding.object_id@ == id
                } {
                let k = choose|k: int|
                    {
                        &&& 0 <= k < rows.len()
                        &&& (#[trigger] rows[k]).embedding.vault_id.text@ == vault
                        &&& rows[k].embedding.model_id.text@ == model
                        &&& rows[k].embedding.object_type@ == kind
                        &&& rows[k].embedding.object_id@ == id
                    };
                if k < fewer.len() {
                    assert(fewer[k] == rows[k]);
                }
            }
        }
    }
}

/// A vector is read by its identity, in its vault alone.
pub proof fn law_vectors_are_read_in_their_vault(
    context: &VaultContext,
    embeddings: &[StoredEmbedding],
    id: &Id,
    r: Option<usize>,
)
    requires
        call_ensures(get_embedding, (context, embeddings, id), r),
    ensures
        match r {
            Some(i) => i < embeddings@.len() && embeddings@[i as int].embedding.vault_id.text@
                == context.id.text@ && embeddings@[i as int].embedding.id.text@ == id.text@,
            None => forall|k: int|
                0 <= k < embeddings@.len() ==> !((
                #[trigger] embeddings@[k]).embedding.vault_id.text@ == context.id.text@
                    && embeddings@[k].embedding.id.text@ == id.text@),
        },
{
    lemma_first_index(
        embeddings@,
        |stored: StoredEmbedding|
            stored.embedding.vault_id@ == context.id@ && stored.embedding.id@ == id@,
    );
}

} // verus!
