use mcp_vault_state::error::{
    database_fault, keep_fault, parse_u32, DatabaseFault, DatabaseFaultKind, MigrationFault,
};
use mcp_vault_state::{DomainError, StateError};

fn run<F: std::future::Future<Output = ()>>(work: F) {
    tokio::runtime::Builder::new_current_thread()
        .enable_all()
        .build()
        .unwrap()
        .block_on(work);
}

fn refused(code: Option<&str>) -> DatabaseFault {
    DatabaseFault {
        kind: DatabaseFaultKind::Database,
        code: code.map(|code| code.to_owned()),
        unique_violation: false,
        foreign_key_violation: false,
        check_violation: false,
    }
}

#[test]
fn database_diagnostics_never_return_driver_or_stored_text() {
    run(async {
        let pool = sqlx::SqlitePool::connect("sqlite::memory:").await.unwrap();
        sqlx::query("CREATE TABLE private_diagnostic_fixture(value TEXT UNIQUE)")
            .execute(&pool)
            .await
            .unwrap();
        sqlx::query("INSERT INTO private_diagnostic_fixture VALUES('private-example')")
            .execute(&pool)
            .await
            .unwrap();
        let error = sqlx::query("INSERT INTO private_diagnostic_fixture VALUES('private-example')")
            .execute(&pool)
            .await
            .unwrap_err();
        assert_eq!(
            StateError::Database(database_fault(&error)).diagnostic_code(),
            "state_database_unique_violation"
        );
        assert_eq!(
            StateError::Database(database_fault(&sqlx::Error::PoolTimedOut)).diagnostic_code(),
            "state_pool_timeout"
        );
        assert_eq!(StateError::Conflict.diagnostic_code(), "state_revision_conflict");
        assert_eq!(
            StateError::Filesystem("/private/secret-path".into()).diagnostic_code(),
            "state_filesystem_error"
        );
    });
}

#[test]
fn violated_constraints_are_told_apart() {
    run(async {
        let pool = sqlx::sqlite::SqlitePoolOptions::new()
            .max_connections(1)
            .connect("sqlite::memory:")
            .await
            .unwrap();
        sqlx::query("PRAGMA foreign_keys = ON").execute(&pool).await.unwrap();
        sqlx::query("CREATE TABLE owners(id INTEGER PRIMARY KEY)").execute(&pool).await.unwrap();
        sqlx::query(
            "CREATE TABLE items(owner INTEGER REFERENCES owners(id), size INTEGER CHECK(size >= 0))",
        )
        .execute(&pool)
        .await
        .unwrap();
        let orphan = sqlx::query("INSERT INTO items VALUES(7, 1)").execute(&pool).await.unwrap_err();
        let fault = database_fault(&orphan);
        assert!(fault.foreign_key_violation);
        assert_eq!(fault.diagnostic_code(), "state_database_foreign_key_violation");
        let negative =
            sqlx::query("INSERT INTO items VALUES(NULL, -1)").execute(&pool).await.unwrap_err();
        let fault = database_fault(&negative);
        assert!(fault.check_violation);
        assert_eq!(fault.diagnostic_code(), "state_database_check_violation");
        let unknown = sqlx::query("SELECT * FROM nowhere").execute(&pool).await.unwrap_err();
        let fault = database_fault(&unknown);
        assert_eq!(fault.kind, DatabaseFaultKind::Database);
        assert_eq!(fault.code.as_deref(), Some("1"));
        assert_eq!(fault.diagnostic_code(), "state_database_error");
    });
}

#[test]
fn driver_errors_without_a_database_error_keep_only_their_variant() {
    for (error, kind, code) in [
        (sqlx::Error::PoolClosed, DatabaseFaultKind::PoolClosed, "state_pool_closed"),
        (sqlx::Error::RowNotFound, DatabaseFaultKind::RowNotFound, "state_row_missing"),
        (sqlx::Error::Decode("text".into()), DatabaseFaultKind::Decode, "state_value_decode_error"),
        (sqlx::Error::WorkerCrashed, DatabaseFaultKind::Other, "state_database_error"),
    ] {
        let fault = database_fault(&error);
        assert_eq!(fault.kind, kind);
        assert_eq!(fault.code, None);
        assert_eq!(fault.diagnostic_code(), code);
    }
}

#[test]
fn only_a_failure_of_the_database_keeps_its_details() {
    let code = Some("2067".to_owned());
    let kept = keep_fault(DatabaseFaultKind::Database, code.clone(), true, false, true);
    assert_eq!(kept.code, code);
    assert_eq!(
        (kept.unique_violation, kept.foreign_key_violation, kept.check_violation),
        (true, false, true)
    );
    let dropped = keep_fault(DatabaseFaultKind::PoolTimedOut, code, true, true, true);
    assert_eq!((dropped.kind, dropped.code), (DatabaseFaultKind::PoolTimedOut, None));
    assert!(!dropped.unique_violation);
    assert!(!dropped.foreign_key_violation);
    assert!(!dropped.check_violation);
}

#[test]
fn result_codes_are_read_by_their_low_byte() {
    assert_eq!(refused(Some("5")).diagnostic_code(), "state_database_busy");
    assert_eq!(refused(Some("261")).diagnostic_code(), "state_database_busy");
    assert_eq!(refused(Some("6")).diagnostic_code(), "state_database_busy");
    assert_eq!(refused(Some("13")).diagnostic_code(), "state_database_full");
    assert_eq!(refused(Some("8")).diagnostic_code(), "state_database_read_only");
    assert_eq!(refused(Some("1")).diagnostic_code(), "state_database_error");
    assert_eq!(refused(Some("busy")).diagnostic_code(), "state_database_error");
    assert_eq!(refused(None).diagnostic_code(), "state_database_error");
}

#[test]
fn contention_is_reported_before_a_violated_constraint() {
    let fault = DatabaseFault { unique_violation: true, ..refused(Some("5")) };
    assert_eq!(fault.diagnostic_code(), "state_database_busy");
    let fault = DatabaseFault { unique_violation: true, check_violation: true, ..refused(Some("13")) };
    assert_eq!(fault.diagnostic_code(), "state_database_unique_violation");
}

#[test]
fn other_errors_have_fixed_codes() {
    assert_eq!(StateError::InvalidInput("x").diagnostic_code(), "state_invalid_input");
    assert_eq!(
        StateError::InvalidDomain(DomainError::RevisionOutOfRange).diagnostic_code(),
        "state_invalid_domain"
    );
    assert_eq!(StateError::Json.diagnostic_code(), "state_json_invalid");
    assert_eq!(
        StateError::Migration(MigrationFault::VersionMismatch(16)).diagnostic_code(),
        "state_migration_error"
    );
    assert_eq!(StateError::Connection("x".into()).diagnostic_code(), "state_connection_error");
    assert_eq!(StateError::IntegrityFailure.diagnostic_code(), "state_integrity_error");
    assert_eq!(StateError::CommitHook("x").diagnostic_code(), "state_commit_interrupted");
}

#[test]
fn numbers_are_read_within_thirty_two_bits() {
    assert_eq!(parse_u32("4294967295"), Some(u32::MAX));
    assert_eq!(parse_u32("4294967296"), None);
    assert_eq!(parse_u32("+7"), Some(7));
    assert_eq!(parse_u32(""), None);
    assert_eq!(parse_u32("+"), None);
    assert_eq!(parse_u32("-1"), None);
    assert_eq!(parse_u32("1a"), None);
}
