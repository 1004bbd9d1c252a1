use cli_agent::learn::{
    correct_request, learn_from_request, LearnError, LearnStep, LearnedRow, RequestLearningContext,
};
use cli_agent::policy::{PolicyError, PolicyRow};
use cli_agent::schema::{SCHEMA_SQL, SEED_GENERATION_SQL, WRITER_PRAGMAS};
use cli_agent::shell::command_line;
use cli_agent::storage::{LearnedTemplate, RequestStatus};
use rusqlite::Connection;

fn words(list: &[&str]) -> Vec<String> {
    list.iter().map(|word| (*word).to_owned()).collect()
}

fn rule(rule_id: &str, binary: &str, subcommand: &str, flags: &str, network: bool) -> PolicyRow {
    PolicyRow {
        rule_id: rule_id.to_owned(),
        binary_name: binary.to_owned(),
        subcommand_path: subcommand.to_owned(),
        executable_path_policy_json: format!(r#"{{"allowed_binaries":["{}"]}}"#, binary),
        env_variable_inheritance_json: r#"{"allow":[],"block":["LD_PRELOAD"]}"#.to_owned(),
        positional_argument_rules_json: flags.to_owned(),
        path_slot_policies_json: format!(r#"{{"allow_network_args":{}}}"#, network),
        package_manager_risk_level: "BLOCK".to_owned(),
        privilege_risk_level: "BLOCK".to_owned(),
        destructive_recursive_level: "BLOCK".to_owned(),
    }
}

/// One pending request and some policies.
struct Store {
    rules: Vec<PolicyRow>,
    status: RequestStatus,
    expired: bool,
    saving: Result<(), String>,
    rows: Vec<LearnedRow>,
    marked: String,
}

impl Store {
    fn new() -> Store {
        let flags = r#"{"allowed_flags":["--","--source"],"blocked_flags":["--exec-path"]}"#;
        Store {
            rules: vec![rule("policy_git_restore", "git", "restore", flags, false)],
            status: RequestStatus::Pending,
            expired: false,
            saving: Ok(()),
            rows: Vec::new(),
            marked: String::new(),
        }
    }

    fn find(&self, binary: &str, subcommand: &str) -> Option<String> {
        self.rules
            .iter()
            .find(|rule| rule.binary_name == binary && rule.subcommand_path == subcommand)
            .map(|rule| rule.rule_id.clone())
    }

    fn learn(&mut self, request_id: &str, command: &str) -> Result<LearnedTemplate, LearnError> {
        let first = learn_from_request(request_id, command);
        self.run(first)
    }

    fn run(&mut self, first: LearnStep) -> Result<LearnedTemplate, LearnError> {
        let mut step = first;
        loop {
            step = match step {
                LearnStep::FindExactRule(correction) => {
                    let found = self.find(correction.binary(), correction.subcommand());
                    correction.exact_rule(Ok(found))
                }
                LearnStep::FindBinaryRule(correction) => {
                    let found = self.find(correction.binary(), "");
                    correction.binary_rule(found.ok_or("no rows".to_owned()))
                }
                LearnStep::LoadRule(governed) => {
                    let row = self.rules.iter().find(|rule| rule.rule_id == governed.rule_id()).cloned();
                    governed.rule_loaded(row)
                }
                LearnStep::MarkBlocked(refused) => {
                    let marking = refused.marking(Some(self.status));
                    let marking = marking.map(|status| self.status = status).map_err(|e| e.message());
                    refused.marked(marking)
                }
                LearnStep::LoadContext(audited) => {
                    let context = RequestLearningContext {
                        request_id: audited.request_id().to_owned(),
                        raw_user_prompt: "git restore ../secret".to_owned(),
                        canonical_cwd: "/tmp".to_owned(),
                        canonical_git_root: None,
                    };
                    let expired = Err("no rows".to_owned());
                    audited.context_found(if self.expired { expired } else { Ok(context) })
                }
                LearnStep::Save(learning) => {
                    let row = learning.learned_row();
                    self.rows.push(LearnedRow {
                        doc_id: row.doc_id.clone(),
                        source_type: row.source_type.clone(),
                        binary_name: row.binary_name.clone(),
                        subcommand_path: row.subcommand_path.clone(),
                        intent_description: row.intent_description.clone(),
                        template_argv_json: row.template_argv_json.clone(),
                        slot_schema_json: row.slot_schema_json.clone(),
                        policy_rule_id: row.policy_rule_id.clone(),
                        project_root_hash: row.project_root_hash.clone(),
                        scope_mode: row.scope_mode.clone(),
                        trust_state: row.trust_state.clone(),
                        created_from_request_id: row.created_from_request_id.clone(),
                    });
                    self.marked = learning.corrected_request().to_owned();
                    self.status = learning.marking(Some(self.status)).expect("a recorded request");
                    learning.saved(self.saving.clone())
                }
                LearnStep::Done(result) => return result,
            };
        }
    }
}

fn storage() -> Connection {
    let conn = Connection::open_in_memory().expect("a database");
    conn.execute_batch(WRITER_PRAGMAS).expect("settings");
    conn.execute_batch(SCHEMA_SQL).expect("tables");
    conn.execute(SEED_GENERATION_SQL, ()).expect("a generation");
    conn.execute_batch(
        "INSERT INTO policy_rules (
            rule_id, binary_name, subcommand_path, fast_path_allowed,
            executable_path_policy_json, env_variable_inheritance_json,
            positional_argument_rules_json, path_slot_policies_json,
            package_manager_risk_level, privilege_risk_level, destructive_recursive_level
        )
        VALUES ('policy_git_restore', 'git', 'restore', 1, '{}', '{}', '{}', '{}', 'BLOCK', 'BLOCK', 'BLOCK');
        INSERT INTO session_records (
            session_id, user_id, hostname, tty_device, shell_pid, parent_pid, canonical_cwd, expires_at
        )
        VALUES ('session_for_request', 'user', 'host', '/dev/pts/1', 10, 9, '/tmp', datetime('now', '+1 hour'));
        INSERT INTO request_records (
            request_id, session_id, raw_user_prompt, execution_status, expires_at
        )
        VALUES ('req_learn_restore', 'session_for_request', 'git restore ../secret', 'PENDING', datetime('now', '+1 hour'));",
    )
    .expect("records");
    conn
}

#[test]
fn ai_learn_inserts_template_and_updates_fts_index() {
    let mut store = Store::new();
    let learned = store
        .learn("req_learn_restore", r#"git restore "file with spaces.rs""#)
        .expect("a template");
    assert_eq!(learned.argv, words(&["git", "restore", "file with spaces.rs"]));

    let row = &store.rows[0];
    assert_eq!(row.doc_id, learned.doc_id);
    assert_eq!(row.source_type, "USER_TEMPLATE");
    assert_eq!(row.trust_state, "UNVERIFIED");
    assert!(row.template_argv_json.contains("file with spaces.rs"));
    assert_eq!(row.template_argv_json, r#"["git","restore","file with spaces.rs"]"#);
    assert!(row.doc_id.starts_with("learned_"));
    assert_eq!(row.doc_id.len(), "learned_".len() + 36);
    assert_eq!(row.binary_name, "git");
    assert_eq!(row.subcommand_path, "restore");
    assert_eq!(row.intent_description, "git restore ../secret");
    assert_eq!(row.slot_schema_json, "[]");
    assert_eq!(row.policy_rule_id, "policy_git_restore");
    assert_eq!(row.project_root_hash, "learned:/tmp");
    assert_eq!(row.scope_mode, "PROJECT");
    assert_eq!(row.created_from_request_id, "req_learn_restore");
    assert_eq!(store.rows.len(), 1);
    assert_eq!(store.status, RequestStatus::Approved);
    assert_eq!(store.marked, "req_learn_restore");

    let conn = storage();
    conn.execute(
        "INSERT INTO unified_documents (
            doc_id, source_type, binary_name, subcommand_path, intent_description,
            template_argv_json, slot_schema_json, policy_rule_id, project_root_hash, scope_mode,
            trust_state, created_from_request_id
        )
        VALUES (?1, ?2, ?3, ?4, ?5, ?6, ?7, ?8, ?9, ?10, ?11, ?12)",
        [
            &row.doc_id,
            &row.source_type,
            &row.binary_name,
            &row.subcommand_path,
            &row.intent_description,
            &row.template_argv_json,
            &row.slot_schema_json,
            &row.policy_rule_id,
            &row.project_root_hash,
            &row.scope_mode,
            &row.trust_state,
            &row.created_from_request_id,
        ],
    )
    .expect("a row that the schema accepts");
    let count: i64 = conn
        .query_row(
            "SELECT count(*) FROM docs_external_fts WHERE docs_external_fts MATCH 'restore'",
            (),
            |row| row.get(0),
        )
        .expect("a count");
    assert_eq!(count, 1);
    let generation: String = conn
        .query_row(
            "SELECT value FROM schema_metadata WHERE key = 'unified_documents_generation'",
            (),
            |row| row.get(0),
        )
        .expect("a generation");
    assert_eq!(generation, "1");
}

#[test]
fn ai_learn_rejects_unparseable_corrected_command_without_mutating_request_status() {
    let mut store = Store::new();
    let result = store.learn("req_learn_unparseable", r#"git restore "unterminated"#);
    assert!(result.is_err());
    assert_eq!(store.status.as_text(), "PENDING");
    assert_eq!(store.rows.len(), 0);
}

#[test]
fn ai_learn_blocks_policy_violating_corrected_command_and_marks_security_blocked() {
    let mut store = Store::new();
    let result = store.learn("req_learn_privilege_risk", "git restore sudo");
    assert!(result.is_err());
    assert_eq!(
        result,
        Err(LearnError::PolicyViolation {
            argv: words(&["git", "restore", "sudo"]),
            rule_id: "policy_git_restore".to_owned(),
            error: PolicyError::PrivilegeRisk("sudo".to_owned()),
        })
    );
    assert_eq!(store.status.as_text(), "SECURITY_BLOCKED");
    assert_eq!(store.rows.len(), 0);
}

#[test]
fn learn_from_request_falls_back_to_binary_wide_policy() {
    let mut store = Store::new();
    let flags = r#"{"allowed_flags":["-s","-X","-H","-d"],"blocked_flags":[]}"#;
    store.rules.push(rule("policy_curl_core", "curl", "", flags, true));
    let learned = store
        .learn("req_curl_learn", r#"curl -s -X POST https://example.com -d "{}""#)
        .expect("a template");
    assert_eq!(learned.argv[0], "curl");
    assert_eq!(store.rows[0].policy_rule_id, "policy_curl_core");
    assert_eq!(store.rows[0].subcommand_path, "-s");
}

#[test]
fn an_exact_policy_comes_before_one_for_the_program() {
    let mut store = Store::new();
    store.rules.insert(0, rule("policy_git", "git", "", "", false));
    store.learn("r", "git restore x").expect("a template");
    assert_eq!(store.rows[0].policy_rule_id, "policy_git_restore");
    store.learn("r", "git").expect("a template");
    assert_eq!(store.rows[1].policy_rule_id, "policy_git");
    assert_eq!(store.rows[1].subcommand_path, "");
}

#[test]
fn argument_lists_are_learned_through_their_command_line() {
    for argv in [
        words(&["git", "restore", "file.rs"]),
        words(&["git", "restore", "", "a b", "it's", "\"q\"", "$x", "new\nline", "\\", "日本"]),
    ] {
        let mut store = Store::new();
        let learned = store.learn("r", &command_line(&argv)).expect("a template");
        assert_eq!(learned.argv, argv);
    }
}

#[test]
fn each_refusal_to_learn_has_its_error() {
    let mut store = Store::new();
    let text = |result: Result<LearnedTemplate, LearnError>| result.expect_err("refused").message();
    assert_eq!(text(store.learn(" ", "git restore x")), "request_id must not be empty");
    assert_eq!(text(store.learn("r", "  ")), "corrected command must not be empty");
    assert_eq!(
        text(store.learn("r", "'")),
        "failed to tokenize corrected command for request_id=r: failed to parse corrected command \
         as POSIX shell words: missing closing quote"
    );
    assert_eq!(
        text(store.learn("r", "rm x")),
        "no policy rule matches learned command [\"rm\", \"x\"]: policy rule not found for \
         binary=rm subcommand=x: no rows"
    );
    assert_eq!(
        text(store.learn("r", "git restore --exec-path")),
        "corrected command argv [\"git\", \"restore\", \"--exec-path\"] violates policy \
         policy_git_restore: flag is explicitly blocked: --exec-path"
    );
    assert_eq!(
        text(store.learn("r", "git restore --exec-path")),
        "corrected command failed policy audit with flag is explicitly blocked: --exec-path; failed \
         to mark request_id=r SECURITY_BLOCKED: request_id=r was not transitioned to \
         SECURITY_BLOCKED; request missing or already terminal"
    );
    store.expired = true;
    assert_eq!(text(store.learn("r", "git restore x")), "request_id=r is missing or expired: no rows");
    store.rules[0].path_slot_policies_json = "{".to_owned();
    assert!(text(store.learn("r", "git restore x"))
        .starts_with("failed to load policy rule policy_git_restore while auditing learned command: "));
    assert_eq!(store.rows.len(), 0);
}

#[test]
fn failures_of_the_storage_are_passed_on() {
    let LearnStep::FindExactRule(correction) = correct_request("r", words(&["git"])) else {
        panic!("a correction")
    };
    let LearnStep::Done(Err(error)) = correction.exact_rule(Err("locked".to_owned())) else {
        panic!("a failed lookup")
    };
    assert_eq!(
        error,
        LearnError::RuleLookup {
            argv: words(&["git"]),
            binary: "git".to_owned(),
            subcommand: String::new(),
            message: "locked".to_owned(),
        }
    );
    assert_eq!(
        error.message(),
        "no policy rule matches learned command [\"git\"]: failed to query policy rule for \
         binary=git subcommand=: locked"
    );
    let mut store = Store::new();
    store.saving = Err("disk full".to_owned());
    assert_eq!(
        store.learn("r", "git restore x"),
        Err(LearnError::Storage("disk full".to_owned()))
    );
    assert_eq!(
        correct_request("r", Vec::new()),
        LearnStep::Done(Err(LearnError::EmptyCommand))
    );
    assert_eq!(
        correct_request("", words(&["git"])),
        LearnStep::Done(Err(LearnError::EmptyRequestId))
    );
}

#[test]
fn refused_corrections_block_observed_requests() {
    for status in [
        RequestStatus::Pending,
        RequestStatus::Approved,
        RequestStatus::Rejected,
        RequestStatus::Observing,
    ] {
        let mut store = Store::new();
        store.status = status;
        assert_eq!(
            store.learn("r", "git restore sudo"),
            Err(LearnError::PolicyViolation {
                argv: words(&["git", "restore", "sudo"]),
                rule_id: "policy_git_restore".to_owned(),
                error: PolicyError::PrivilegeRisk("sudo".to_owned()),
            })
        );
        assert_eq!(store.status, RequestStatus::SecurityBlocked);
        assert_eq!(store.rows.len(), 0);
    }
}

#[test]
fn learned_requests_are_approved_in_every_state() {
    for status in [
        RequestStatus::Pending,
        RequestStatus::Approved,
        RequestStatus::Rejected,
        RequestStatus::SecurityBlocked,
        RequestStatus::Observing,
    ] {
        let mut store = Store::new();
        store.status = status;
        assert!(store.learn("r", "git restore x").is_ok());
        assert_eq!(store.status, RequestStatus::Approved);
        assert_eq!(store.rows.len(), 1);
    }
}
