//! The tables of the database, and the settings of a connection to it.
use vstd::prelude::*;

verus! {

/// The version of the schema.
pub const SCHEMA_VERSION: &'static str = "phase1.2";

/// The settings that every connection begins with. What a connection reports of them is
/// held to [`check_settings`](crate::storage::check_settings).
pub const TIMEOUT_PRAGMA: &'static str = "PRAGMA busy_timeout = 5000;";

/// The settings of a connection that writes.
pub const WRITER_PRAGMAS: &'static str = "
    PRAGMA foreign_keys = ON;
    PRAGMA journal_mode = WAL;
    PRAGMA synchronous = NORMAL;
";

/// The settings of a connection that only reads.
pub const READER_PRAGMAS: &'static str = "
    PRAGMA foreign_keys = ON;
    PRAGMA synchronous = NORMAL;
";

/// The tables, their indexes, and the triggers that keep the text index and the
/// generation of the templates up to date.
pub const SCHEMA_SQL: &'static str = "
CREATE TABLE IF NOT EXISTS schema_metadata (
    key TEXT PRIMARY KEY NOT NULL,
    value TEXT NOT NULL,
    updated_at TIMESTAMP DEFAULT CURRENT_TIMESTAMP NOT NULL
);

CREATE TABLE IF NOT EXISTS policy_rules (
    rule_id TEXT PRIMARY KEY NOT NULL,
    binary_name TEXT NOT NULL,
    subcommand_path TEXT DEFAULT '' NOT NULL,
    fast_path_allowed INTEGER NOT NULL CHECK (fast_path_allowed IN (0, 1)),
    required_confirmation_count INTEGER NOT NULL DEFAULT 1 CHECK (required_confirmation_count >= 1),
    executable_path_policy_json TEXT NOT NULL,
    env_variable_inheritance_json TEXT NOT NULL,
    positional_argument_rules_json TEXT NOT NULL,
    path_slot_policies_json TEXT NOT NULL,
    package_manager_risk_level TEXT NOT NULL CHECK (package_manager_risk_level IN ('ALLOW', 'BLOCK')),
    privilege_risk_level TEXT NOT NULL CHECK (privilege_risk_level IN ('ALLOW', 'BLOCK')),
    destructive_recursive_level TEXT NOT NULL CHECK (destructive_recursive_level IN ('ALLOW', 'BLOCK')),
    created_at TIMESTAMP DEFAULT CURRENT_TIMESTAMP NOT NULL
);

CREATE UNIQUE INDEX IF NOT EXISTS idx_policy_rules_match_key ON policy_rules(binary_name, subcommand_path);

CREATE TABLE IF NOT EXISTS session_records (
    session_id TEXT PRIMARY KEY NOT NULL,
    user_id TEXT NOT NULL,
    hostname TEXT NOT NULL,
    tty_device TEXT NOT NULL,
    shell_pid INTEGER NOT NULL,
    parent_pid INTEGER NOT NULL,
    canonical_cwd TEXT NOT NULL,
    canonical_git_root TEXT,
    created_at TIMESTAMP DEFAULT CURRENT_TIMESTAMP NOT NULL,
    expires_at TIMESTAMP NOT NULL
);

CREATE TABLE IF NOT EXISTS request_records (
    request_id TEXT PRIMARY KEY NOT NULL,
    session_id TEXT NOT NULL,
    raw_user_prompt TEXT NOT NULL,
    execution_status TEXT NOT NULL CHECK (execution_status IN ('PENDING', 'APPROVED', 'REJECTED', 'SECURITY_BLOCKED', 'OBSERVING')),
    observed_correction_argv_json TEXT,
    created_at TIMESTAMP DEFAULT CURRENT_TIMESTAMP NOT NULL,
    expires_at TIMESTAMP NOT NULL,
    FOREIGN KEY(session_id) REFERENCES session_records(session_id) ON DELETE CASCADE
);

CREATE INDEX IF NOT EXISTS idx_request_session_fk ON request_records(session_id);
CREATE INDEX IF NOT EXISTS idx_request_observing_lookup ON request_records(session_id, execution_status, created_at);

CREATE TABLE IF NOT EXISTS unified_documents (
    doc_rowid INTEGER PRIMARY KEY AUTOINCREMENT,
    doc_id TEXT UNIQUE NOT NULL,
    source_type TEXT NOT NULL CHECK (source_type IN ('STATIC_DOCS', 'USER_TEMPLATE')),
    binary_name TEXT NOT NULL,
    subcommand_path TEXT DEFAULT '' NOT NULL,
    intent_description TEXT NOT NULL,
    template_argv_json TEXT NOT NULL,
    slot_schema_json TEXT NOT NULL,
    policy_rule_id TEXT NOT NULL,
    project_root_hash TEXT,
    scope_mode TEXT CHECK (scope_mode IN ('GLOBAL', 'PROJECT', 'GIT_ROOT')),
    trust_state TEXT NOT NULL CHECK (trust_state IN ('STATIC_VERIFIED','UNVERIFIED','USER_CONFIRMED','PROMOTED_FASTPATH','DISABLED','REVOKED')),
    created_from_request_id TEXT,
    success_count INTEGER DEFAULT 0 NOT NULL CHECK (success_count >= 0),
    failure_count INTEGER DEFAULT 0 NOT NULL CHECK (failure_count >= 0),
    last_used_at TIMESTAMP,
    created_at TIMESTAMP DEFAULT CURRENT_TIMESTAMP NOT NULL,
    FOREIGN KEY(policy_rule_id) REFERENCES policy_rules(rule_id),
    FOREIGN KEY(created_from_request_id) REFERENCES request_records(request_id),
    CHECK (
        (source_type = 'STATIC_DOCS' AND trust_state = 'STATIC_VERIFIED' AND project_root_hash IS NULL AND scope_mode IS NULL AND created_from_request_id IS NULL)
        OR
        (source_type = 'USER_TEMPLATE' AND trust_state IN ('UNVERIFIED','USER_CONFIRMED','PROMOTED_FASTPATH','DISABLED','REVOKED') AND project_root_hash IS NOT NULL AND scope_mode IS NOT NULL)
    )
);

CREATE INDEX IF NOT EXISTS idx_docs_routing ON unified_documents(source_type, trust_state, binary_name);
CREATE INDEX IF NOT EXISTS idx_docs_project_scope ON unified_documents(project_root_hash) WHERE project_root_hash IS NOT NULL;

CREATE VIRTUAL TABLE IF NOT EXISTS docs_external_fts USING fts5(
    binary_name,
    subcommand_path,
    intent_description,
    content='unified_documents',
    content_rowid='doc_rowid'
);

CREATE TRIGGER IF NOT EXISTS trg_docs_fts_insert AFTER INSERT ON unified_documents BEGIN
    INSERT INTO docs_external_fts(rowid, binary_name, subcommand_path, intent_description)
    VALUES (new.doc_rowid, new.binary_name, new.subcommand_path, new.intent_description);
END;

CREATE TRIGGER IF NOT EXISTS trg_docs_fts_delete AFTER DELETE ON unified_documents BEGIN
    INSERT INTO docs_external_fts(docs_external_fts, rowid, binary_name, subcommand_path, intent_description)
    VALUES ('delete', old.doc_rowid, old.binary_name, old.subcommand_path, old.intent_description);
END;

CREATE TRIGGER IF NOT EXISTS trg_docs_fts_update AFTER UPDATE ON unified_documents BEGIN
    INSERT INTO docs_external_fts(docs_external_fts, rowid, binary_name, subcommand_path, intent_description)
    VALUES ('delete', old.doc_rowid, old.binary_name, old.subcommand_path, old.intent_description);
    INSERT INTO docs_external_fts(rowid, binary_name, subcommand_path, intent_description)
    VALUES (new.doc_rowid, new.binary_name, new.subcommand_path, new.intent_description);
END;

CREATE TRIGGER IF NOT EXISTS trg_docs_generation_insert AFTER INSERT ON unified_documents BEGIN
    UPDATE schema_metadata
    SET value = CAST(CAST(value AS INTEGER) + 1 AS TEXT), updated_at = CURRENT_TIMESTAMP
    WHERE key = 'unified_documents_generation';
END;

CREATE TRIGGER IF NOT EXISTS trg_docs_generation_update AFTER UPDATE ON unified_documents BEGIN
    UPDATE schema_metadata
    SET value = CAST(CAST(value AS INTEGER) + 1 AS TEXT), updated_at = CURRENT_TIMESTAMP
    WHERE key = 'unified_documents_generation';
END;

CREATE TRIGGER IF NOT EXISTS trg_docs_generation_delete AFTER DELETE ON unified_documents BEGIN
    UPDATE schema_metadata
    SET value = CAST(CAST(value AS INTEGER) + 1 AS TEXT), updated_at = CURRENT_TIMESTAMP
    WHERE key = 'unified_documents_generation';
END;
";

/// Records the version of the schema, unless one is recorded.
pub const SEED_VERSION_SQL: &'static str =
    "INSERT OR IGNORE INTO schema_metadata(key, value) VALUES('schema_version', ?1)";

/// Starts to count the generations of the templates, unless they are counted.
pub const SEED_GENERATION_SQL: &'static str =
    "INSERT OR IGNORE INTO schema_metadata(key, value) VALUES('unified_documents_generation', '0')";

}
