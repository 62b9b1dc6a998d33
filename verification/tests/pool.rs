use mcp_vault_state::clock::now_millis;
use mcp_vault_state::pool::{
    integrity_check, is_memory_database, migration_version, pool_limits, quote_identifier,
    restore_from_snapshot, restore_source, snapshot_destination, sqlite_file_path, MigrationEntry,
    SchemaObject,
};
use mcp_vault_state::StateError;
use sqlx::sqlite::{SqlitePool, SqlitePoolOptions};

fn run<F: std::future::Future<Output = ()>>(work: F) {
    tokio::runtime::Builder::new_current_thread()
        .enable_all()
        .build()
        .unwrap()
        .block_on(work);
}

async fn execute(pool: &SqlitePool, statements: &[&str]) {
    for statement in statements {
        sqlx::query(statement).execute(pool).await.unwrap();
    }
}

async fn schema(pool: &SqlitePool, name: &str) -> Vec<SchemaObject> {
    let rows: Vec<(String, String, String)> = sqlx::query_as(&format!(
        "SELECT type, name, sql FROM {name}.sqlite_master
         WHERE name NOT LIKE 'sqlite_%' AND sql IS NOT NULL
         ORDER BY CASE type WHEN 'table' THEN 0 ELSE 1 END, name",
    ))
    .fetch_all(pool)
    .await
    .unwrap();
    rows.into_iter()
        .map(|(object_type, name, sql)| SchemaObject { object_type, name, sql })
        .collect()
}

/// A live database with a snapshot attached to it.
async fn attached() -> SqlitePool {
    let pool = SqlitePoolOptions::new()
        .max_connections(1)
        .connect("sqlite::memory:")
        .await
        .unwrap();
    execute(
        &pool,
        &[
            "ATTACH DATABASE ':memory:' AS restored",
            "CREATE TABLE restored.system_settings (key TEXT PRIMARY KEY, value_json TEXT)",
            "CREATE INDEX restored.settings_value ON system_settings(value_json)",
            "CREATE VIRTUAL TABLE restored.notes_fts USING fts5(content)",
            "INSERT INTO restored.system_settings VALUES ('snapshot.test', '{\"value\":1}')",
            "CREATE TABLE main.system_settings (key TEXT PRIMARY KEY, value_json TEXT, extra TEXT)",
            "INSERT INTO main.system_settings VALUES ('snapshot.test', '{\"value\":2}', 'x')",
        ],
    )
    .await;
    pool
}

async fn restore(pool: &SqlitePool) {
    let snapshot = schema(pool, "restored").await;
    let live = schema(pool, "main").await;
    for statement in restore_from_snapshot(&snapshot, &live) {
        sqlx::query(&statement).execute(pool).await.unwrap();
    }
}

#[test]
fn sqlite_snapshot_can_restore_without_replacing_the_pool() {
    run(async {
        let pool = attached().await;
        restore(&pool).await;
        let value: String = sqlx::query_scalar(
            "SELECT value_json FROM main.system_settings WHERE key = 'snapshot.test'",
        )
        .fetch_one(&pool)
        .await
        .unwrap();
        assert_eq!(value, "{\"value\":1}");
        let integrity: String =
            sqlx::query_scalar("PRAGMA main.integrity_check").fetch_one(&pool).await.unwrap();
        assert!(integrity_check(&integrity, 0, 0).integrity_ok);
    });
}

#[test]
fn sqlite_snapshot_restore_removes_live_only_schema_objects() {
    run(async {
        let pool = attached().await;
        execute(
            &pool,
            &[
                "CREATE TABLE live_only (id INTEGER PRIMARY KEY, value TEXT NOT NULL)",
                "CREATE INDEX live_only_value_idx ON live_only(value)",
                "CREATE VIEW live_only_view AS SELECT id, value FROM live_only",
                "CREATE TRIGGER live_only_trigger AFTER INSERT ON live_only
                 BEGIN UPDATE live_only SET value = NEW.value WHERE id = NEW.id; END",
                "CREATE VIRTUAL TABLE live_only_fts USING fts5(content)",
            ],
        )
        .await;
        restore(&pool).await;
        for object in [
            "live_only",
            "live_only_value_idx",
            "live_only_view",
            "live_only_trigger",
            "live_only_fts",
            "live_only_fts_data",
        ] {
            let count: i64 =
                sqlx::query_scalar("SELECT COUNT(*) FROM main.sqlite_master WHERE name = ?")
                    .bind(object)
                    .fetch_one(&pool)
                    .await
                    .unwrap();
            assert_eq!(count, 0, "live-only schema object survived: {object}");
        }
        for object in ["system_settings", "settings_value", "notes_fts", "notes_fts_data"] {
            let count: i64 =
                sqlx::query_scalar("SELECT COUNT(*) FROM main.sqlite_master WHERE name = ?")
                    .bind(object)
                    .fetch_one(&pool)
                    .await
                    .unwrap();
            assert_eq!(count, 1, "snapshot object is missing: {object}");
        }
        let integrity: String =
            sqlx::query_scalar("PRAGMA main.integrity_check").fetch_one(&pool).await.unwrap();
        assert!(integrity_check(&integrity, 0, 0).integrity_ok);
    });
}

#[test]
fn in_memory_databases_keep_one_connection() {
    assert!(is_memory_database("sqlite::memory:"));
    assert_eq!(pool_limits("sqlite::memory:").max_connections, 1);
    assert_eq!(pool_limits("sqlite:///data/state.sqlite3").max_connections, 8);
    assert_eq!(pool_limits("sqlite:///data/state.sqlite3").min_connections, 0);
}

#[test]
fn addresses_name_their_file() {
    assert_eq!(
        sqlite_file_path("sqlite:///data/state.sqlite3?mode=rwc").as_deref(),
        Some("/data/state.sqlite3")
    );
    assert_eq!(sqlite_file_path("sqlite://state.sqlite3").as_deref(), Some("state.sqlite3"));
    assert_eq!(sqlite_file_path("postgres://x"), None);
}

#[test]
fn identifiers_are_quoted() {
    assert_eq!(quote_identifier("plain"), "\"plain\"");
    assert_eq!(quote_identifier("od\"d"), "\"od\"\"d\"");
}

#[test]
fn snapshot_paths_are_checked() {
    let path = || Some("/backups/a.sqlite3".to_owned());
    assert_eq!(
        snapshot_destination(false, false, path()),
        Err(StateError::InvalidInput("SQLite snapshot destination must be absolute"))
    );
    assert_eq!(
        snapshot_destination(true, true, path()),
        Err(StateError::InvalidInput("SQLite snapshot destination already exists"))
    );
    assert_eq!(
        snapshot_destination(true, false, None),
        Err(StateError::InvalidInput("SQLite snapshot path is not UTF-8"))
    );
    assert_eq!(snapshot_destination(true, false, path()), Ok("/backups/a.sqlite3".to_owned()));
    assert_eq!(
        restore_source(false, true, path()),
        Err(StateError::InvalidInput("SQLite restore snapshot must be absolute"))
    );
    assert_eq!(
        restore_source(true, false, path()),
        Err(StateError::InvalidInput("SQLite restore snapshot is not a file"))
    );
    assert_eq!(
        restore_source(true, true, None),
        Err(StateError::InvalidInput("SQLite restore path is not UTF-8"))
    );
    assert_eq!(restore_source(true, true, path()), Ok("/backups/a.sqlite3".to_owned()));
}

#[test]
fn the_latest_successful_migration_counts() {
    let entry = |version: i64, success: bool| MigrationEntry { version, success };
    assert_eq!(migration_version(None), 0);
    assert_eq!(migration_version(Some(&[])), 0);
    assert_eq!(migration_version(Some(&[entry(3, true), entry(9, false), entry(7, true)])), 7);
    let report = integrity_check("row 3 missing", 2, 7);
    assert!(!report.integrity_ok);
    assert_eq!((report.foreign_key_violations, report.migration_version), (2, 7));
}

#[test]
fn clocks_outside_the_range_are_refused() {
    assert_eq!(now_millis(Some(1_700_000_000_000)), Ok(1_700_000_000_000));
    assert_eq!(
        now_millis(None),
        Err(StateError::InvalidInput("system clock is before Unix epoch"))
    );
    assert_eq!(
        now_millis(Some(u128::MAX)),
        Err(StateError::InvalidInput("system clock exceeds SQLite timestamp range"))
    );
}
