use cli_agent::environment::{
    capture_session_context, discover_git_root, read_root, GitReport, NameSource, SessionContext,
};
use cli_agent::storage::{
    check_settings, fetch_trusted_template_by_doc_id, find_observed_correction_for_prompt,
    find_or_create_session_record, insert_request_record, insert_session_record, lifetime_of,
    mark_refused_learning, mark_request_approved, mark_request_learned, mark_request_observing,
    mark_request_security_blocked, record_observed_correction, session_lifetime,
    tokenize_command_line, window_modifier, DataHomes, RequestStatus,
    SessionRecord, StorageConfig, StorageError, TrustedTemplate, OBSERVING_LIFETIME,
    REQUEST_LIFETIME, SESSION_LIFETIME, SQLITE_BUSY_TIMEOUT_MS,
};
use cli_agent::validate::bind_and_validate_slots;

const STATES: [RequestStatus; 5] = [
    RequestStatus::Pending,
    RequestStatus::Approved,
    RequestStatus::Rejected,
    RequestStatus::SecurityBlocked,
    RequestStatus::Observing,
];

fn words(list: &[&str]) -> Vec<String> {
    list.iter().map(|word| (*word).to_owned()).collect()
}

fn context() -> SessionContext {
    SessionContext {
        pid: 10,
        ppid: 9,
        tty_device: "/dev/pts/1".to_owned(),
        canonical_cwd: "/tmp".to_owned(),
        canonical_git_root: None,
        user_id: "user".to_owned(),
        hostname: "host".to_owned(),
    }
}

#[test]
fn trusted_template_fetch_returns_command_and_slot_schema() {
    let row = TrustedTemplate {
        doc_id: "doc_git_restore_fetch".to_owned(),
        template_argv_json: r#"["git","restore","$target_file"]"#.to_owned(),
        slot_schema_json: r#"[{"name":"target_file","kind":"string","required":true,"max_bytes":64,"allowed_formats":["relative_path"]}]"#.to_owned(),
        policy_rule_id: "policy_git_restore".to_owned(),
        trust_state: "STATIC_VERIFIED".to_owned(),
    };
    let template = fetch_trusted_template_by_doc_id("doc_git_restore_fetch", Ok(row)).expect("a row");

    assert_eq!(template.doc_id, "doc_git_restore_fetch");
    assert!(template.template_argv_json.contains("$target_file"));
    assert!(template.slot_schema_json.contains("target_file"));
}

#[test]
fn templates_that_are_not_named_or_not_stored_are_reported() {
    assert_eq!(
        fetch_trusted_template_by_doc_id(" ", Err("no rows".to_owned())),
        Err(StorageError::EmptyTemplateId)
    );
    let error = fetch_trusted_template_by_doc_id("doc", Err("no rows".to_owned()))
        .expect_err("no row");
    assert_eq!(
        error.message(),
        "failed to fetch trusted template and slot schema for candidate_template_id=doc: no rows"
    );
}

#[test]
fn validation_failure_can_mark_request_security_blocked() {
    let schema = r#"
    [
      {
        "name": "target_file",
        "kind": "string",
        "required": true,
        "max_bytes": 16,
        "allowed_formats": ["relative_path"]
      }
    ]
    "#;
    let result = bind_and_validate_slots(schema, r#"{"target_file":"../secret"}"#);
    assert!(result.is_err());
    let status = mark_request_security_blocked("req_blocked_by_validator", Some(RequestStatus::Pending))
        .expect("a pending request");
    assert_eq!(status.as_text(), "SECURITY_BLOCKED");
}

#[test]
fn requests_change_their_state_only_as_allowed() {
    for current in STATES {
        let approved = mark_request_approved("r", Some(current)).is_ok();
        assert_eq!(approved, matches!(current, RequestStatus::Pending | RequestStatus::Rejected));
        let observing = mark_request_observing("r", Some(current)).is_ok();
        assert_eq!(observing, current == RequestStatus::Pending);
        let blocked = mark_request_security_blocked("r", Some(current)).is_ok();
        assert_eq!(
            blocked,
            matches!(
                current,
                RequestStatus::Pending | RequestStatus::Approved | RequestStatus::Rejected
            )
        );
    }
}

#[test]
fn requests_that_are_not_named_or_not_recorded_are_not_marked() {
    let error = mark_request_approved(" ", Some(RequestStatus::Pending)).expect_err("no id");
    assert_eq!(error.message(), "request_id must not be empty");
    let error = mark_request_observing("r", None).expect_err("no request");
    assert_eq!(
        error,
        StorageError::NotTransitioned {
            request_id: "r".to_owned(),
            target: RequestStatus::Observing,
        }
    );
    assert_eq!(
        error.message(),
        "request_id=r was not transitioned to OBSERVING; request missing or already terminal"
    );
}

#[test]
fn states_are_read_back_from_their_texts() {
    for status in STATES {
        assert_eq!(RequestStatus::from_text(status.as_text()), Some(status));
    }
    assert_eq!(RequestStatus::from_text("pending"), None);
}

#[test]
fn command_tokenizer_preserves_quoted_structural_arguments() {
    let argv = tokenize_command_line(r#"git restore "file with spaces.rs" '--literal flag'"#)
        .expect("words");
    assert_eq!(
        argv,
        vec![
            "git".to_owned(),
            "restore".to_owned(),
            "file with spaces.rs".to_owned(),
            "--literal flag".to_owned(),
        ]
    );
}

#[test]
fn tokenizer_rejects_mismatched_quotes_via_shell_words() {
    let result = tokenize_command_line(r#"git restore "unterminated"#);
    assert!(result.is_err());
    assert_eq!(
        result,
        Err("failed to parse corrected command as POSIX shell words: missing closing quote".to_owned())
    );
}

#[test]
fn new_requests_are_pending_and_have_an_id_of_their_own() {
    let first = insert_request_record("session", "undo it");
    let second = insert_request_record("session", "undo it");
    assert_ne!(first.request_id, second.request_id);
    assert_eq!(first.request_id.len(), 36);
    assert_eq!(first.request_id.as_bytes()[14], b'4');
    assert_eq!(first.session_id, "session");
    assert_eq!(first.raw_user_prompt, "undo it");
    assert_eq!(first.status, RequestStatus::Pending);
    assert_eq!(first.observed_correction_argv_json, None);
}

#[test]
fn only_the_first_correction_of_an_observed_request_is_recorded() {
    let mut record = insert_request_record("session", "undo it");
    assert!(!record_observed_correction(&mut record, &words(&["ls"])));
    assert_eq!(record.observed_correction_argv_json, None);
    record.status = RequestStatus::Observing;
    assert!(record_observed_correction(&mut record, &words(&["git", "a \"b\""])));
    assert!(!record_observed_correction(&mut record, &words(&["ls"])));
    let json = record.observed_correction_argv_json.clone().expect("a correction");
    assert_eq!(json, r#"["git","a \"b\""]"#);
    let found = find_observed_correction_for_prompt(Some((record.request_id.clone(), json)))
        .expect("valid JSON")
        .expect("a correction");
    assert_eq!(found.request_id, record.request_id);
    assert_eq!(found.argv, words(&["git", "a \"b\""]));
}

#[test]
fn corrections_that_cannot_be_read_are_reported() {
    assert_eq!(find_observed_correction_for_prompt(None), Ok(None));
    let result = find_observed_correction_for_prompt(Some(("r".to_owned(), "[1]".to_owned())));
    let error = result.expect_err("a number");
    assert!(error.message().starts_with("failed to decode observed correction argv JSON: "));
}

#[test]
fn windows_are_written_as_modifiers_of_time() {
    assert_eq!(window_modifier(10), Ok("-10 minutes".to_owned()));
    assert_eq!(window_modifier(0), Err(StorageError::WindowNotPositive));
    let error = window_modifier(-3).expect_err("a negative window");
    assert_eq!(error.message(), "window_minutes must be positive");
    assert_eq!(
        (SESSION_LIFETIME, REQUEST_LIFETIME, OBSERVING_LIFETIME),
        ("+8 hours", "+15 minutes", "+30 days")
    );
}

#[test]
fn settings_of_a_connection_are_checked() {
    assert_eq!(check_settings(1, SQLITE_BUSY_TIMEOUT_MS as i64), Ok(()));
    let error = check_settings(0, 1).expect_err("no foreign keys");
    assert_eq!(error.message(), "SQLite foreign key enforcement did not activate");
    let error = check_settings(1, 0).expect_err("no timeout");
    assert_eq!(error.message(), "SQLite busy_timeout is 0ms; expected 5000ms");
}

#[test]
fn sessions_are_used_again_while_they_are_valid() {
    let record = find_or_create_session_record(Some("s".to_owned()), context());
    assert_eq!(record, SessionRecord::Existing("s".to_owned()));
    let SessionRecord::New(row) = find_or_create_session_record(None, context()) else {
        panic!("a new session")
    };
    assert_eq!(row.context, context());
    assert_ne!(row.session_id, insert_session_record(context()).session_id);
}

#[test]
fn sessions_take_names_from_the_system_before_the_environment() {
    let source = |system: Option<&str>, variable: Option<&str>| NameSource {
        system: system.map(str::to_owned),
        variable: variable.map(str::to_owned),
    };
    let context = capture_session_context(
        1,
        2,
        source(None, None),
        "/tmp".to_owned(),
        Some("/tmp/repo".to_owned()),
        source(Some("me"), Some("you")),
        source(None, Some("here")),
    );
    assert_eq!((context.pid, context.ppid), (1, 2));
    assert_eq!(context.tty_device, "unknown");
    assert_eq!(context.user_id, "me");
    assert_eq!(context.hostname, "here");
    assert_eq!(context.workspace_root(), "/tmp/repo");
    let outside = SessionContext { canonical_git_root: None, ..context };
    assert_eq!(outside.workspace_root(), "/tmp");
}

#[test]
fn repositories_are_read_from_what_git_reports() {
    let report = |success: bool, stdout: &str| {
        discover_git_root(Some(GitReport { success, stdout: stdout.as_bytes().to_vec() }))
    };
    assert_eq!(report(true, "/repo\n"), Some("/repo".to_owned()));
    assert_eq!(report(true, " \n"), None);
    assert_eq!(report(false, "/repo\n"), None);
    assert_eq!(report(true, "/répo\n"), Some("/répo".to_owned()));
    let stdout = b"/r\xffepo\n".to_vec();
    assert_eq!(
        discover_git_root(Some(GitReport { success: true, stdout })),
        Some("/r\u{fffd}epo".to_owned())
    );
    assert_eq!(discover_git_root(None), None);
    assert_eq!(read_root(" /repo "), Some("/repo".to_owned()));
    assert_eq!(read_root("\n"), None);
}

#[test]
fn new_and_observed_requests_have_lifetimes() {
    assert_eq!(lifetime_of(RequestStatus::Pending), Some("+15 minutes"));
    assert_eq!(lifetime_of(RequestStatus::Observing), Some("+30 days"));
    for status in [
        RequestStatus::Approved,
        RequestStatus::Rejected,
        RequestStatus::SecurityBlocked,
    ] {
        assert_eq!(lifetime_of(status), None);
    }
    assert_eq!(session_lifetime(), "+8 hours");
    assert_eq!(lifetime_of(insert_request_record("s", "p").status), Some(REQUEST_LIFETIME));
}

#[test]
fn data_is_kept_where_the_environment_says() {
    let homes = |agent: Option<&str>, xdg: Option<&str>, home: Option<&str>, local: Option<&str>| DataHomes {
        agent_home: agent.map(str::to_owned),
        xdg_data_home: xdg.map(str::to_owned),
        home: home.map(str::to_owned),
        local_app_data: local.map(str::to_owned),
    };
    let base = |homes| StorageConfig::discover(homes).map(|config| config.base_dir);
    assert_eq!(base(homes(Some("/a"), Some("/x"), Some("/h"), None)), Ok("/a".to_owned()));
    assert_eq!(base(homes(None, Some("/x"), Some("/h"), None)), Ok("/x/semantic-cli-agent".to_owned()));
    assert_eq!(
        base(homes(None, None, Some("/h"), Some("/l"))),
        Ok("/h/.local/share/semantic-cli-agent".to_owned())
    );
    assert_eq!(base(homes(None, None, None, Some("/l/"))), Ok("/l/semantic-cli-agent".to_owned()));
    let error = StorageConfig::discover(homes(None, None, None, None)).expect_err("nowhere");
    assert_eq!(error.message(), "could not determine data directory; set SEMANTIC_CLI_AGENT_HOME");
    let config = StorageConfig::from_base_dir("/a".to_owned());
    assert_eq!(config.db_path, "/a/cli-agent.db");
    assert_eq!(config.socket_path(), "/a/sidecar.sock");
}

#[test]
fn corrections_mark_their_request_in_every_state() {
    for status in [
        RequestStatus::Pending,
        RequestStatus::Approved,
        RequestStatus::Rejected,
        RequestStatus::Observing,
    ] {
        assert_eq!(mark_refused_learning("r", Some(status)), Ok(RequestStatus::SecurityBlocked));
        assert_eq!(mark_request_learned(Some(status)), Some(RequestStatus::Approved));
    }
    assert_eq!(
        mark_refused_learning("r", Some(RequestStatus::SecurityBlocked)).map_err(|e| e.message()),
        Err("request_id=r was not transitioned to SECURITY_BLOCKED; request missing or already \
             terminal"
            .to_owned())
    );
    assert!(mark_refused_learning("r", None).is_err());
    assert_eq!(
        mark_refused_learning(" ", Some(RequestStatus::Pending)),
        Err(StorageError::EmptyRequestId)
    );
    assert_eq!(mark_request_learned(None), None);
}
