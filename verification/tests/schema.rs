use cli_agent::schema::{
    READER_PRAGMAS, SCHEMA_SQL, SCHEMA_VERSION, SEED_GENERATION_SQL, SEED_VERSION_SQL,
    TIMEOUT_PRAGMA, WRITER_PRAGMAS,
};
use cli_agent::storage::{check_settings, StorageError, SQLITE_BUSY_TIMEOUT_MS};
use rusqlite::{Connection, Error};

fn initialize(conn: &Connection) {
    conn.execute_batch(TIMEOUT_PRAGMA).expect("a timeout");
    conn.execute_batch(WRITER_PRAGMAS).expect("settings");
    conn.execute_batch(SCHEMA_SQL).expect("tables");
    conn.execute(SEED_VERSION_SQL, (SCHEMA_VERSION,)).expect("a version");
    conn.execute(SEED_GENERATION_SQL, ()).expect("a generation");
}

fn open_empty_db() -> Connection {
    let conn = Connection::open_in_memory().expect("a database");
    initialize(&conn);
    conn
}

fn open_test_db() -> Connection {
    let conn = open_empty_db();
    conn.execute(
        r#"
        INSERT INTO policy_rules (
            rule_id, binary_name, subcommand_path, fast_path_allowed, required_confirmation_count,
            executable_path_policy_json, env_variable_inheritance_json,
            positional_argument_rules_json, path_slot_policies_json,
            package_manager_risk_level, privilege_risk_level, destructive_recursive_level
        )
        VALUES (
            ?1, 'git', 'restore', 1, 1,
            '{"allowed_binaries":["git"]}', '{"allow":[],"block":["LD_PRELOAD"]}',
            '{"allowed_flags":["--","--source"],"blocked_flags":["--exec-path"]}',
            '{"allow_network_args":false}', 'BLOCK', 'BLOCK', 'BLOCK'
        )
        "#,
        ("policy_git_restore",),
    )
    .expect("a policy");
    conn
}

fn insert_static_doc(conn: &Connection, doc_id: &str, description: &str) -> i64 {
    conn.execute(
        r#"
        INSERT INTO unified_documents (
            doc_id, source_type, binary_name, subcommand_path, intent_description,
            template_argv_json, slot_schema_json, policy_rule_id, trust_state
        )
        VALUES (
            ?1, 'STATIC_DOCS', 'git', 'restore', ?2, '["git","restore","$target_file"]',
            '[{"name":"target_file","kind":"string","required":true,"max_bytes":64,"allowed_formats":["relative_path"]}]',
            'policy_git_restore', 'STATIC_VERIFIED'
        )
        "#,
        (doc_id, description),
    )
    .expect("a document");
    conn.last_insert_rowid()
}

fn describe(conn: &Connection, rowid: i64, description: &str) {
    conn.execute(
        "UPDATE unified_documents SET intent_description = ?2 WHERE doc_rowid = ?1",
        (rowid, description),
    )
    .expect("an update");
}

fn delete(conn: &Connection, rowid: i64) {
    conn.execute("DELETE FROM unified_documents WHERE doc_rowid = ?1", (rowid,)).expect("a deletion");
}

fn number(conn: &Connection, sql: &str) -> i64 {
    conn.query_row(sql, (), |row| row.get(0)).expect("a number")
}

fn fts_count(conn: &Connection, query: &str) -> i64 {
    conn.query_row(
        "SELECT count(*) FROM docs_external_fts WHERE docs_external_fts MATCH ?1",
        (query,),
        |row| row.get(0),
    )
    .expect("a count")
}

fn read_generation(conn: &Connection) -> i64 {
    number(
        conn,
        "SELECT CAST(value AS INTEGER) FROM schema_metadata WHERE key = 'unified_documents_generation'",
    )
}

#[test]
fn database_bootstrap_applies_required_pragmas() {
    let path = format!("/tmp/semantic-cli-agent-pragmas-{}.db", uuid::Uuid::new_v4());
    let conn = Connection::open(path).expect("a database file");
    initialize(&conn);

    let foreign_keys = number(&conn, "PRAGMA foreign_keys;");
    let journal_mode: String =
        conn.query_row("PRAGMA journal_mode;", (), |row| row.get(0)).expect("a mode");
    let synchronous = number(&conn, "PRAGMA synchronous;");
    let busy_timeout = number(&conn, "PRAGMA busy_timeout;");

    assert_eq!(foreign_keys, 1);
    assert_eq!(journal_mode.to_lowercase(), "wal");
    assert_eq!(synchronous, 1);
    assert_eq!(busy_timeout, SQLITE_BUSY_TIMEOUT_MS as i64);
    assert_eq!(check_settings(foreign_keys, busy_timeout), Ok(()));
}

#[test]
fn settings_of_readers_pass_the_check() {
    let conn = Connection::open_in_memory().expect("a database");
    conn.execute_batch("PRAGMA foreign_keys = OFF;").expect("a setting");
    assert_eq!(
        check_settings(number(&conn, "PRAGMA foreign_keys;"), SQLITE_BUSY_TIMEOUT_MS as i64),
        Err(StorageError::ForeignKeysInactive)
    );
    conn.execute_batch(TIMEOUT_PRAGMA).expect("a timeout");
    conn.execute_batch(READER_PRAGMAS).expect("settings");
    assert_eq!(
        check_settings(
            number(&conn, "PRAGMA foreign_keys;"),
            number(&conn, "PRAGMA busy_timeout;"),
        ),
        Ok(())
    );
}

#[test]
fn the_schema_is_made_once() {
    let conn = open_test_db();
    insert_static_doc(&conn, "doc_once", "restore a tracked file");
    initialize(&conn);
    assert_eq!(read_generation(&conn), 1);
    let version: String = conn
        .query_row("SELECT value FROM schema_metadata WHERE key = 'schema_version'", (), |row| {
            row.get(0)
        })
        .expect("a version");
    assert_eq!(version, "phase1.2");
}

#[test]
fn fts_insert_update_delete_triggers_track_unified_documents() {
    let conn = open_test_db();

    let rowid = insert_static_doc(&conn, "doc_git_restore", "restore a tracked file from git index");
    assert_eq!(fts_count(&conn, "restore"), 1);

    describe(&conn, rowid, "commit staged work");
    assert_eq!(fts_count(&conn, "tracked"), 0);
    assert_eq!(fts_count(&conn, "commit"), 1);

    delete(&conn, rowid);
    assert_eq!(fts_count(&conn, "commit"), 0);
}

#[test]
fn unified_documents_generation_counter_increments_on_mutation() {
    let conn = open_test_db();

    assert_eq!(read_generation(&conn), 0);

    let rowid = insert_static_doc(&conn, "doc_generation_insert", "restore a tracked file");
    assert_eq!(read_generation(&conn), 1);

    describe(&conn, rowid, "updated description");
    assert_eq!(read_generation(&conn), 2);

    delete(&conn, rowid);
    assert_eq!(read_generation(&conn), 3);
}

#[test]
fn foreign_keys_reject_documents_without_policy_rule() {
    let conn = open_empty_db();

    let result = conn.execute(
        r#"
        INSERT INTO unified_documents (
            doc_id, source_type, binary_name, subcommand_path, intent_description,
            template_argv_json, slot_schema_json, policy_rule_id, trust_state
        )
        VALUES ('doc_missing_policy', 'STATIC_DOCS', 'git', 'restore', 'restore file', '[]', '{}', 'missing_policy', 'STATIC_VERIFIED')
        "#,
        (),
    );

    assert!(matches!(result, Err(Error::SqliteFailure(_, _))));
}

#[test]
fn foreign_keys_reject_requests_for_missing_session() {
    let conn = open_empty_db();

    let result = conn.execute(
        r#"
        INSERT INTO request_records (
            request_id, session_id, raw_user_prompt, execution_status, expires_at
        )
        VALUES ('req_missing_session', 'session_does_not_exist', 'undo last commit', 'PENDING', datetime('now', '+1 hour'))
        "#,
        (),
    );

    assert!(matches!(result, Err(Error::SqliteFailure(_, _))));
}
