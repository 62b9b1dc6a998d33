use mcp_vault_state::json::Json;
use mcp_vault_state::providers::{
    decode_vector, delete_embeddings_for_model, delete_provider, embedding_coverage, encode_vector,
    get_binding, get_embedding, get_health, get_model, get_provider, insert_model, insert_provider, list_health, list_models,
    list_providers, list_vectors, resolve_binding, row_to_provider, update_model, update_provider,
    upsert_binding, upsert_embedding, upsert_health, ProviderRow, StoredEmbedding,
};
use mcp_vault_state::{
    EmbeddingRecord, Id, ModelBindingRecord, ModelRecord, ProviderHealthRecord, ProviderRecord,
    Revision, StateError, VaultContext,
};

fn id(text: &str) -> Id {
    Id::new(text.to_owned())
}

fn vault(name: &str) -> VaultContext {
    VaultContext { id: id(name), slug: name.to_owned(), content_root: Some(format!("/srv/{name}")) }
}

fn json(text: &str) -> Json {
    Json::parse(text).unwrap()
}

fn provider(name: &str) -> ProviderRecord {
    ProviderRecord {
        id: id(name),
        name: name.to_owned(),
        provider_type: "openai".to_owned(),
        base_url: "https://api.example".to_owned(),
        secret_id: None,
        settings: json("{}"),
        enabled: true,
        revision: Revision::new(1),
        created_at: 1,
        updated_at: 1,
    }
}

fn model(name: &str, provider: &str) -> ModelRecord {
    ModelRecord {
        id: id(name),
        provider_id: id(provider),
        external_model_id: format!("external-{name}"),
        capabilities: json("{}"),
        settings: json("{}"),
        enabled: true,
        revision: Revision::new(1),
        created_at: 1,
        updated_at: 1,
    }
}

fn embedding(name: &str, chunk: &str) -> EmbeddingRecord {
    EmbeddingRecord {
        id: id(name),
        vault_id: id("v"),
        object_type: "note".to_owned(),
        object_id: "n".to_owned(),
        chunk_key: chunk.to_owned(),
        provider_id: id("p"),
        model_id: id("m"),
        dimension: 2,
        content_hash: "sha256:00".to_owned(),
        vector_backend_key: "key".to_owned(),
        created_at: 1,
        updated_at: 1,
    }
}

fn bits(values: &[f32]) -> Vec<u32> {
    values.iter().map(|value| value.to_bits()).collect()
}

fn stored() -> Vec<StoredEmbedding> {
    let one = upsert_embedding(&vault("v"), vec![], embedding("b", "1"), &bits(&[1.0, -0.5])).unwrap();
    upsert_embedding(&vault("v"), one, embedding("a", "2"), &bits(&[0.0, 2.0])).unwrap()
}

#[test]
fn vectors_read_back_as_written() {
    let vector = bits(&[1.0, -0.5, 3.25, f32::MIN_POSITIVE]);
    let blob = encode_vector(&vector);
    assert_eq!(blob.len(), 16);
    assert_eq!(&blob[..4], &1.0_f32.to_le_bytes());
    assert_eq!(decode_vector(&blob, 4), Ok(vector));
    assert_eq!(
        decode_vector(&blob, 3),
        Err(StateError::InvalidInput("stored vector dimension is invalid"))
    );
}

#[test]
fn embeddings_are_replaced_by_chunk_and_model() {
    let after =
        upsert_embedding(&vault("v"), stored(), embedding("c", "1"), &bits(&[4.0, 4.0])).unwrap();
    assert_eq!(after.len(), 2);
    assert_eq!(after[1].embedding.id, id("c"));
    assert_eq!(decode_vector(&after[1].vector_blob, 2), Ok(bits(&[4.0, 4.0])));
    assert_eq!(get_embedding(&vault("v"), &after, &id("b")), None);
    assert_eq!(get_embedding(&vault("v"), &after, &id("a")), Some(0));
    assert_eq!(get_embedding(&vault("w"), &after, &id("a")), None);
}

#[test]
fn broken_vectors_are_refused() {
    let refused = Err(StateError::InvalidInput("embedding vector is invalid"));
    let put = |context: &VaultContext, record: EmbeddingRecord, vector: &[u32]| {
        upsert_embedding(context, vec![], record, vector)
    };
    assert_eq!(put(&vault("w"), embedding("a", "1"), &bits(&[1.0, 1.0])), refused);
    assert_eq!(put(&vault("v"), embedding("a", "1"), &bits(&[1.0])), refused);
    assert_eq!(put(&vault("v"), embedding("a", "1"), &bits(&[1.0, f32::NAN])), refused);
    assert_eq!(put(&vault("v"), embedding("a", "1"), &bits(&[f32::NEG_INFINITY, 1.0])), refused);
    let empty = EmbeddingRecord { dimension: 0, ..embedding("a", "1") };
    assert_eq!(put(&vault("v"), empty, &[]), refused);
}

#[test]
fn vectors_are_listed_by_model_and_dimension() {
    let all = stored();
    assert_eq!(list_vectors(&vault("v"), &all, &id("m"), 2, 10), Ok(vec![1, 0]));
    assert_eq!(list_vectors(&vault("v"), &all, &id("m"), 3, 10), Ok(vec![]));
    assert_eq!(list_vectors(&vault("w"), &all, &id("m"), 2, 10), Ok(vec![]));
    assert_eq!(
        list_vectors(&vault("v"), &all, &id("m"), 0, 10),
        Err(StateError::InvalidInput("vector query page is invalid"))
    );
    let coverage = embedding_coverage(&vault("v"), &all, &id("m"));
    assert_eq!((coverage.total, coverage.objects), (2, 1));
    assert_eq!(coverage.dimensions, vec![2]);
    // An object is a kind and an identity, however the two are spelled.
    let mut apart = stored();
    apart[0].embedding.object_type = "a:b".to_owned();
    apart[0].embedding.object_id = "c".to_owned();
    apart[1].embedding.object_type = "a".to_owned();
    apart[1].embedding.object_id = "b:c".to_owned();
    assert_eq!(embedding_coverage(&vault("v"), &apart, &id("m")).objects, 2);
    let (rest, n) = delete_embeddings_for_model(&vault("v"), all, &id("m"));
    assert_eq!((rest.len(), n), (0, 2));
}

#[test]
fn provider_updates_compare_revisions() {
    let first = insert_provider(provider("p")).unwrap();
    let changed = update_provider(
        Some(first.clone()),
        ProviderRecord { base_url: "https://other.example".to_owned(), ..first.clone() },
        9,
    )
    .unwrap();
    assert_eq!(changed.revision, Revision::new(2));
    assert_eq!((changed.created_at, changed.updated_at), (1, 9));
    assert_eq!(
        update_provider(Some(provider("q")), first.clone(), 10),
        Err(StateError::InvalidInput("provider revision conflict"))
    );
    assert_eq!(
        update_provider(Some(changed), first.clone(), 10),
        Err(StateError::InvalidInput("provider revision conflict"))
    );
    assert_eq!(
        insert_provider(ProviderRecord { name: String::new(), ..first.clone() }),
        Err(StateError::InvalidInput("provider name"))
    );
    assert_eq!(
        insert_provider(ProviderRecord { base_url: String::new(), ..first.clone() }),
        Err(StateError::InvalidInput("provider base URL is invalid"))
    );
    assert!(delete_provider(vec![first.clone()], &id("x")).is_err());
    assert_eq!(delete_provider(vec![first], &id("p")), Ok(vec![]));
}

#[test]
fn configurations_are_listed() {
    let providers = vec![provider("b"), provider("a")];
    assert_eq!(list_providers(&providers, 10), Ok(vec![1, 0]));
    assert_eq!(get_provider(&providers, &providers[1].id), Some(1));
    assert_eq!(get_provider(&providers, &id("unknown")), None);
    assert!(list_providers(&providers, 1001).is_err());
    let models = vec![model("m2", "p"), model("m1", "p"), model("m3", "q")];
    assert_eq!(list_models(&models, Some(&id("p")), 10), Ok(vec![1, 0]));
    assert_eq!(list_models(&models, None, 10).unwrap().len(), 3);
    assert_eq!(get_model(&models, &models[2].id), Some(2));
    assert_eq!(get_model(&models, &id("unknown")), None);
    let first = insert_model(model("m", "p")).unwrap();
    let next = update_model(Some(first.clone()), first.clone(), 5).unwrap();
    assert_eq!(next.revision, Revision::new(2));
    assert!(update_model(Some(next), first, 6).is_err());
}

fn bound(context: Option<&VaultContext>, model: &str) -> ModelBindingRecord {
    upsert_binding(context, None, "embedding_note".to_owned(), id(model), json("{}"), None, 1).unwrap()
}

#[test]
fn a_vault_binding_wins_over_the_global_one() {
    let v = vault("v");
    let bindings = vec![bound(None, "global"), bound(Some(&v), "own")];
    assert_eq!(bindings[0].id, "binding:global:embedding_note");
    assert_eq!(resolve_binding(&v, &bindings, "embedding_note"), Ok(Some(1)));
    assert_eq!(resolve_binding(&vault("w"), &bindings, "embedding_note"), Ok(Some(0)));
    assert_eq!(resolve_binding(&v, &bindings, "other"), Ok(None));
    assert_eq!(get_binding(None, &bindings, "embedding_note"), Ok(Some(0)));
    assert_eq!(get_binding(Some(&vault("w")), &bindings, "embedding_note"), Ok(None));
    assert!(resolve_binding(&v, &bindings, "").is_err());
    let next = upsert_binding(
        Some(&v),
        Some(bindings[1].clone()),
        "embedding_note".to_owned(),
        id("new"),
        json("{}"),
        Some(Revision::new(1)),
        2,
    )
    .unwrap();
    assert_eq!(next.revision, Revision::new(2));
    assert_eq!(next.model_id, id("new"));
    let fresh = upsert_binding(
        Some(&vault("w")),
        Some(bindings[1].clone()),
        "embedding_note".to_owned(),
        id("new"),
        json("{}"),
        None,
        2,
    )
    .unwrap();
    assert_eq!((fresh.vault_id, fresh.revision), (Some(id("w")), Revision::new(1)));
    assert_eq!(
        upsert_binding(
            Some(&v),
            Some(next),
            "embedding_note".to_owned(),
            id("new"),
            json("{}"),
            Some(Revision::new(1)),
            3
        ),
        Err(StateError::InvalidInput("model binding revision conflict"))
    );
}

#[test]
fn health_is_capped_and_listed() {
    let health = ProviderHealthRecord {
        provider_id: id("p"),
        status: "healthy".to_owned(),
        checked_at: Some(1),
        latency_ms: Some(u64::MAX),
        model_count: 3,
        last_success_at: None,
        last_error: None,
        updated_at: 1,
    };
    let stored = upsert_health(health.clone()).unwrap();
    assert_eq!(stored.latency_ms, Some(i64::MAX as u64));
    assert_eq!(stored.model_count, 3);
    assert!(upsert_health(ProviderHealthRecord { status: String::new(), ..health }).is_err());
    assert_eq!(list_health(&[stored.clone()], 10), Ok(vec![0]));
    assert_eq!(get_health(&[stored.clone()], &stored.provider_id), Some(0));
    assert_eq!(get_health(&[stored], &id("unknown")), None);
}

#[test]
fn stored_providers_are_read_back() {
    let row = ProviderRow {
        id: "p".to_owned(),
        name: "p".to_owned(),
        provider_type: "openai".to_owned(),
        base_url: "https://api.example".to_owned(),
        secret_id: None,
        settings_json: "{ }".to_owned(),
        enabled: 1,
        revision: 1,
        created_at: 1,
        updated_at: 1,
    };
    assert_eq!(row_to_provider(row.clone()), Ok(provider("p")));
    assert!(row_to_provider(ProviderRow { revision: -1, ..row.clone() }).is_err());
    assert_eq!(
        row_to_provider(ProviderRow { settings_json: "{".to_owned(), ..row }),
        Err(StateError::Json)
    );
}
