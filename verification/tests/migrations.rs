use mcp_vault_state::error::MigrationFault;
use mcp_vault_state::migrations::{
    check_applied, format_upper_hex, is_legacy, normalize_ddl, reconcile, schema_matches,
    schema_subject, AppliedMigration, EmbeddedMigration, SchemaRow,
};
use mcp_vault_state::StateError;

const LEGACY: [(i64, &str); 2] = [
    (16, "B9509BECDBCD2576D4C712D8CE4D90BCE6B55FD552098EF898CF7B8DB4B31779B8AD7ACFF750FA63572D11EE491953F5"),
    (17, "C22C8F033CBC4E918CA20C6B90EDBCA4C0352124562135D717D141B669C40BD612FD65F72B92BDC2D847CFD445BE4CCA"),
];

fn bytes(hex: &str) -> Vec<u8> {
    (0..hex.len()).step_by(2).map(|n| u8::from_str_radix(&hex[n..n + 2], 16).unwrap()).collect()
}

fn embedded() -> Vec<EmbeddedMigration> {
    (15..20).map(|version| EmbeddedMigration { version, checksum: vec![version as u8] }).collect()
}

fn legacy_ledger() -> Vec<AppliedMigration> {
    let mut ledger = vec![AppliedMigration { version: 15, checksum: vec![15] }];
    for (version, hex) in LEGACY {
        ledger.push(AppliedMigration { version, checksum: bytes(hex) });
    }
    ledger
}

#[test]
fn deployed_checksums_upgrade_and_restart_without_rewriting_history() {
    let first = reconcile(embedded(), &legacy_ledger(), &[true, true, true]).unwrap();
    for (version, expected) in LEGACY {
        let migration = first.iter().find(|migration| migration.version == version).unwrap();
        assert_eq!(format_upper_hex(&migration.checksum), expected);
    }
    assert_eq!(first.iter().map(|migration| migration.version).max(), Some(19));
    assert_eq!(first[4].checksum, vec![19]);
    let again = reconcile(first.clone(), &legacy_ledger(), &[true, true, true]);
    assert_eq!(again, Ok(first));
}

#[test]
fn unknown_checksum_and_known_checksum_with_schema_drift_fail_closed() {
    let mut unknown = legacy_ledger();
    unknown[1].checksum = vec![0];
    assert_eq!(
        reconcile(embedded(), &unknown, &[true, true, true]),
        Err(StateError::Migration(MigrationFault::VersionMismatch(16)))
    );
    assert_eq!(
        reconcile(embedded(), &legacy_ledger(), &[true, true, false]),
        Err(StateError::Migration(MigrationFault::VersionMismatch(17)))
    );
}

#[test]
fn equal_checksums_need_no_schema() {
    let applied = AppliedMigration { version: 16, checksum: vec![1] };
    assert_eq!(check_applied(&[1], &applied, false), Ok(()));
    assert!(check_applied(&[2], &applied, true).is_err());
    assert!(is_legacy(16, &bytes(LEGACY[0].1)));
    assert!(!is_legacy(17, &bytes(LEGACY[0].1)));
}

#[test]
fn only_trailing_white_space_of_lines_is_ignored() {
    assert_eq!(normalize_ddl("CREATE TABLE a( \n  b TEXT\t\r\n)\n"), "CREATE TABLE a(\n  b TEXT\n)");
    let row = |sql: &str| SchemaRow {
        kind: "table".to_owned(),
        name: "a".to_owned(),
        sql: Some(sql.to_owned()),
    };
    assert!(schema_matches(&[row("CREATE TABLE a(b)  ")], &[row("CREATE TABLE a(b)")]));
    assert!(!schema_matches(&[row("CREATE TABLE a( b)")], &[row("CREATE TABLE a(b)")]));
    assert!(!schema_matches(&[row("x"), row("x")], &[row("x")]));
    let none = SchemaRow { sql: None, ..row("") };
    assert!(schema_matches(&[none], &[row("")]));
}

#[test]
fn compared_schema_objects_depend_on_the_version() {
    assert_eq!(schema_subject(16), ("memory_note_set_snapshots", ""));
    assert_eq!(
        schema_subject(17),
        ("retrieval_calibration_runs", "retrieval_calibration_one_active_job")
    );
}
