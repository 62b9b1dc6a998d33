use mcp_vault_state::calibration::{
    active_setting_key, cancel, checkpoint, document_terms, document_text, ensure_with_budget,
    finish, get, prune, publish, reserve_request, retry, validate_corpus, validate_query, StoredRun,
};
use mcp_vault_state::domain::{Id, VaultContext};
use mcp_vault_state::json::Json;
use mcp_vault_state::{CalibrationBudget, CalibrationDocument, CalibrationRun, StateError};
use serde_json::Value;

const NOW: i64 = 1_700_000_000_000;

fn admitted(channel: &str, signature: &str) -> CalibrationRun {
    ensure_with_budget(
        None,
        channel,
        signature,
        &CalibrationBudget::default(),
        "{}".to_owned(),
        "{}".to_owned(),
        NOW,
    )
    .unwrap()
}

fn vault(name: &str) -> VaultContext {
    VaultContext {
        id: Id::new(name.to_owned()),
        slug: name.to_owned(),
        content_root: Some(format!("/srv/{name}")),
    }
}

fn stored(name: &str, run: CalibrationRun) -> StoredRun {
    StoredRun { vault_id: vault(name).id, run }
}

fn reserve(run: CalibrationRun, bytes: usize) -> Result<CalibrationRun, StateError> {
    reserve_request(Some(run), bytes, 900000, NOW)
}

#[test]
fn budget_checkpoint_stop_retry_and_vault_isolation() {
    let (one, two) = (vault("calibration-one"), vault("calibration-two"));
    let runs = vec![stored("calibration-one", admitted("memory", "signature"))];
    let at = get(&one, &runs, "memory", "signature").unwrap();
    let run = runs[at].run.clone();
    // A real 3072-dimensional corpus exceeds the former 4 MiB bound.
    let row = Value::Array(vec![Value::from(0.12345679_f32); 3072]);
    let mut cache = serde_json::Map::new();
    cache.insert("cache".to_owned(), Value::Array(vec![row; 160]));
    let large = Value::Object(cache);
    let text = large.to_string();
    assert!(text.len() > 4 * 1024 * 1024);
    let run = checkpoint(Some(run), Json::parse(&text).unwrap(), NOW).unwrap();
    let read: Value = serde_json::from_str(&run.checkpoint_json).unwrap();
    assert_eq!(read, large);
    let mut run =
        checkpoint(Some(run), Json::parse("{\"cache\":[1.0,0.0]}").unwrap(), NOW).unwrap();
    for _ in 0..32 {
        run = reserve(run, 100).unwrap();
    }
    assert!(reserve(run.clone(), 100).is_err());
    let recovered = ensure_with_budget(
        Some(run.clone()),
        "memory",
        "signature",
        &CalibrationBudget::default(),
        "{}".to_owned(),
        "{}".to_owned(),
        NOW,
    )
    .unwrap();
    assert!(
        reserve(recovered.clone(), 100).is_err(),
        "reopening the database must not refill the spent budget"
    );
    let other = ensure_with_budget(
        Some(run.clone()),
        "note",
        "signature",
        &CalibrationBudget::default(),
        "{}".to_owned(),
        "{}".to_owned(),
        NOW,
    )
    .unwrap();
    assert_eq!((other.channel.as_str(), other.requests), ("note", 0));
    assert_eq!(recovered.requests, 32);
    assert_eq!(recovered.request_bytes, 3200);
    assert!(recovered.checkpoint_json.contains("cache"));
    let runs = vec![stored("calibration-one", recovered.clone())];
    let read = get(&one, &runs, "memory", "signature").unwrap();
    assert_eq!(runs[read].run.requests, 32);
    assert_eq!(get(&two, &runs, "memory", "signature"), None);
    assert_eq!(get(&one, &runs, "note", "signature"), None);
    let stopped = finish(
        Some(run),
        "cancelled",
        Json::parse("{\"error_code\":\"cancelled\"}").unwrap(),
        NOW,
    )
    .unwrap()
    .unwrap();
    assert!(reserve(stopped.clone(), 1).is_err());
    let retried = retry(Some(stopped), &CalibrationBudget::default(), NOW).unwrap();
    assert_eq!(
        retried.previous_report_json.as_deref(),
        Some("{\"error_code\":\"cancelled\"}")
    );
    assert_eq!(retried.run.requests, 32);
    assert_eq!(retried.run.request_limit, 64);
    assert_eq!(retried.run.checkpoint_json, recovered.checkpoint_json);
    reserve(retried.run, 100).unwrap();
}

#[test]
fn budgets_outside_their_limits_are_refused() {
    let standard = CalibrationBudget::default();
    assert_eq!(standard.validate(), Ok(()));
    for budget in [
        CalibrationBudget { max_requests: 0, ..standard },
        CalibrationBudget { max_requests: 129, ..standard },
        CalibrationBudget { max_bytes: 1023, ..standard },
        CalibrationBudget { max_inputs: 513, ..standard },
        CalibrationBudget { batch_size: 65, ..standard },
        CalibrationBudget { timeout_seconds: 3601, ..standard },
    ] {
        assert_eq!(
            budget.validate(),
            Err(StateError::InvalidInput("calibration budget is invalid"))
        );
    }
}

#[test]
fn bytes_and_deadline_bound_a_round() {
    let run = admitted("memory", "signature");
    let run = reserve(run, 2097152).unwrap();
    assert_eq!(run.status, "running");
    assert_eq!(
        reserve(run, 1),
        Err(StateError::InvalidInput("calibration budget exhausted or stopped"))
    );
    let run = admitted("memory", "signature");
    assert!(reserve_request(Some(run.clone()), 1, 10, NOW + 10).is_ok());
    assert!(reserve_request(Some(run), 1, 10, NOW + 11).is_err());
    assert!(reserve_request(None, 1, 10, NOW).is_err());
}

#[test]
fn a_round_that_is_over_takes_no_checkpoint() {
    let run = admitted("memory", "signature");
    let stopped = cancel(Some(run), NOW).unwrap();
    assert_eq!(stopped.status, "cancelled");
    assert_eq!(cancel(Some(stopped.clone()), NOW), None);
    assert_eq!(
        checkpoint(Some(stopped.clone()), Json::parse("{}").unwrap(), NOW),
        Err(StateError::Conflict)
    );
    assert_eq!(finish(Some(stopped), "passed", Json::parse("{}").unwrap(), NOW), Ok(None));
}

#[test]
fn only_the_passed_report_is_published() {
    let report = Json::parse("{\"ok\":true}").unwrap();
    let run = admitted("memory", "signature");
    assert_eq!(
        publish(Some(run.clone()), report.clone(), None, None, NOW),
        Err(StateError::Conflict)
    );
    let passed = finish(Some(run), "passed", report.clone(), NOW).unwrap().unwrap();
    let published = publish(Some(passed.clone()), report.clone(), None, Some(4), NOW).unwrap();
    assert_eq!(published.key, "retrieval.calibration.active.memory.signature");
    assert_eq!(published.value_json, "{\"ok\":true}");
    assert_eq!(published.revision, 5);
    assert!(publish(Some(passed.clone()), report, Some("false"), None, NOW).is_err());
    assert!(publish(Some(passed), Json::parse("{}").unwrap(), None, None, NOW).is_err());
}

#[test]
fn signatures_are_published_apart() {
    assert_ne!(active_setting_key("memory", "a"), active_setting_key("memory", "b"));
    assert_eq!(active_setting_key("note", "a"), "retrieval.calibration.active.note.a");
}

#[test]
fn old_rounds_are_pruned_but_live_ones_stay() {
    let mut runs = Vec::new();
    for n in 0..12 {
        let mut run = admitted("memory", &format!("s{n}"));
        run.status = "passed".to_owned();
        run.updated_at = n;
        runs.push(run);
    }
    runs[0].status = "running".to_owned();
    assert_eq!(prune(&runs, "s1"), vec![3, 2]);
    assert_eq!(prune(&runs[..9], "s1"), Vec::<usize>::new());
}

#[test]
fn corpora_and_queries_are_bounded() {
    let document = CalibrationDocument {
        id: "one".to_owned(),
        path: "notes/a.md".to_owned(),
        title: "Rust".to_owned(),
        content: "Vault plan".to_owned(),
        normalized_content: "vault plan".to_owned(),
    };
    assert!(validate_corpus("memory", std::slice::from_ref(&document)).is_ok());
    assert!(validate_corpus("other", std::slice::from_ref(&document)).is_err());
    assert!(document_terms(&document).contains("vault"));
    assert!(document_text(&document).contains("Vault plan"));
    assert_eq!(validate_query(&"x".repeat(16384)), Ok(()));
    assert_eq!(
        validate_query(&"x".repeat(16385)),
        Err(StateError::InvalidInput("calibration query exceeds bound"))
    );
}

#[test]
fn rounds_of_other_vaults_change_no_read() {
    let runs = vec![
        stored("w", admitted("memory", "a")),
        stored("v", admitted("memory", "b")),
        stored("v", admitted("note", "a")),
        stored("v", admitted("memory", "a")),
    ];
    assert_eq!(get(&vault("v"), &runs, "memory", "a"), Some(3));
    assert_eq!(get(&vault("v"), &runs[3..], "memory", "a"), Some(0));
    assert_eq!(get(&vault("v"), &runs[..3], "memory", "a"), None);
    assert_eq!(get(&vault("w"), &runs, "note", "a"), None);
}
