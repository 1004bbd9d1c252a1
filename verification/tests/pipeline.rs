use cli_agent::environment::SessionContext;
use cli_agent::ipc::{IntentProposal, RetrievalEvidence, RiskHints, UntrustedProposal};
use cli_agent::learn::{learn_from_request, LearnStep, RequestLearningContext};
use cli_agent::path_validate::{
    validate_workspace_path, Inspection, PathStep, PathValidationError,
};
use cli_agent::paths::AbsolutePath;
use cli_agent::pipeline::{
    observe_manual_command, resolve_natural_language_command, NaturalLanguageOutcome,
    PipelineError, PipelineFailure, PipelineStep, Unmarked, OBSERVATION_WINDOW_MINUTES,
};
use cli_agent::policy::{PolicyError, PolicyRow};
use cli_agent::shell::command_line;
use cli_agent::sidecar::{SidecarLine, SidecarReply};
use cli_agent::storage::{
    insert_request_record, mark_request_observing, mark_request_security_blocked, RequestRecord,
    RequestStatus, StorageError, TrustedTemplate,
};
use cli_agent::text_map::TextMap;
use cli_agent::validate::SlotValidationError;
use serde_json::Value;

fn words(list: &[&str]) -> Vec<String> {
    list.iter().map(|word| (*word).to_owned()).collect()
}

fn env(pairs: &[(&str, &str)]) -> TextMap<String> {
    let mut map = TextMap::new();
    for (key, value) in pairs {
        map.insert((*key).to_owned(), (*value).to_owned());
    }
    map
}

/// A line of the sidecar with the proposal that it reads as.
fn reply(text: &str) -> SidecarReply<UntrustedProposal> {
    let value: Value = serde_json::from_str(text).expect("a line of JSON");
    let string = |value: &Value| value.as_str().map(str::to_owned);
    let intent = &value["intent_proposal"];
    let evidence = &intent["retrieval_evidence"];
    let mut slots = TextMap::new();
    for (name, value) in intent["raw_untrusted_slots"].as_object().expect("slots") {
        slots.insert(name.clone(), string(value).expect("a string"));
    }
    let proposal = UntrustedProposal {
        protocol_version: string(&value["protocol_version"]).expect("a version"),
        request_id: string(&value["request_id"]).expect("a request"),
        source_provenance: string(&value["source_provenance"]).expect("a source"),
        intent_proposal: IntentProposal {
            candidate_template_id: string(&intent["candidate_template_id"]),
            typed_intent: string(&intent["typed_intent"]).expect("an intent"),
            retrieval_evidence: RetrievalEvidence {
                fts5_lexical_score: evidence["fts5_lexical_score"].as_f64().map(|n| n.to_string()),
                vector_cosine_distance: evidence["vector_cosine_distance"]
                    .as_f64()
                    .map(|n| n.to_string()),
                vector_rank: evidence["vector_rank"].as_i64(),
                embedding_duration_ms: evidence["embedding_duration_ms"].to_string(),
            },
            risk_hints: RiskHints {
                contains_path_arguments: intent["risk_hints"]["contains_path_arguments"] == true,
            },
            raw_untrusted_slots: slots,
        },
    };
    SidecarReply::Line(SidecarLine { text: text.to_owned(), error: None, answer: Ok(proposal) })
}

/// The answer of the sidecar for a template and one slot.
fn answer(template: &str, slots: &str) -> SidecarReply<UntrustedProposal> {
    reply(&format!(
        r#"{{"protocol_version":"1.0.0","request_id":"placeholder","source_provenance":"LOCAL_FAST_PATH","intent_proposal":{{"candidate_template_id":{},"typed_intent":"git_restore","retrieval_evidence":{{"fts5_lexical_score":0.9,"vector_cosine_distance":0.05,"vector_rank":1,"embedding_duration_ms":1.2}},"risk_hints":{{"contains_path_arguments":true}},"raw_untrusted_slots":{}}}}}
"#,
        template, slots
    ))
}

/// The answer of the sidecar where nothing matches.
fn miss() -> SidecarReply<UntrustedProposal> {
    reply(
        r#"{"protocol_version":"1.0.0","request_id":"placeholder","source_provenance":"LOCAL_HYBRID_RETRIEVAL","intent_proposal":{"candidate_template_id":null,"typed_intent":"unknown_intent","retrieval_evidence":{"fts5_lexical_score":null,"vector_cosine_distance":null,"vector_rank":null,"embedding_duration_ms":0.0},"risk_hints":{"contains_path_arguments":false},"raw_untrusted_slots":{}}}
"#,
    )
}

/// Everything around the pipeline, held in memory.
struct World {
    requests: Vec<RequestRecord>,
    template: TrustedTemplate,
    policy: Option<PolicyRow>,
    reply: Option<SidecarReply<UntrustedProposal>>,
    sent: Vec<String>,
    links: Vec<&'static str>,
    host: TextMap<String>,
    context: SessionContext,
}

impl World {
    fn new() -> World {
        World {
            requests: Vec::new(),
            template: TrustedTemplate {
                doc_id: "doc_git_restore_nl".to_owned(),
                template_argv_json: r#"["git","restore","$target_file"]"#.to_owned(),
                slot_schema_json: r#"[{"name":"target_file","kind":"string","required":true,"max_bytes":64,"allowed_formats":["relative_path"]}]"#.to_owned(),
                policy_rule_id: "policy_git_restore".to_owned(),
                trust_state: "STATIC_VERIFIED".to_owned(),
            },
            policy: Some(PolicyRow {
                rule_id: "policy_git_restore".to_owned(),
                binary_name: "git".to_owned(),
                subcommand_path: "restore".to_owned(),
                executable_path_policy_json: r#"{"allowed_binaries":["git"]}"#.to_owned(),
                env_variable_inheritance_json: r#"{"allow":[],"block":["LD_PRELOAD"]}"#.to_owned(),
                positional_argument_rules_json:
                    r#"{"allowed_flags":["--","--source"],"blocked_flags":["--exec-path"]}"#
                        .to_owned(),
                path_slot_policies_json: r#"{"allow_network_args":false}"#.to_owned(),
                package_manager_risk_level: "BLOCK".to_owned(),
                privilege_risk_level: "BLOCK".to_owned(),
                destructive_recursive_level: "BLOCK".to_owned(),
            }),
            reply: None,
            sent: Vec::new(),
            links: Vec::new(),
            host: env(&[]),
            context: SessionContext {
                pid: 1,
                ppid: 1,
                tty_device: "/dev/pts/0".to_owned(),
                canonical_cwd: "/work".to_owned(),
                canonical_git_root: None,
                user_id: "tester".to_owned(),
                hostname: "test-host".to_owned(),
            },
        }
    }

    fn request(&mut self, id: &str) -> &mut RequestRecord {
        self.requests.iter_mut().find(|record| record.request_id == id).expect("a recorded request")
    }

    fn check_path(&self, raw: &str) -> Result<(), PathValidationError> {
        let root = AbsolutePath::parse(self.context.workspace_root()).ok_or("no root".to_owned());
        let mut step = validate_workspace_path(self.context.workspace_root(), root, raw);
        loop {
            step = match step {
                PathStep::Inspect(walk) => {
                    let path = walk.next_path().to_text();
                    let link = self.links.contains(&path.as_str());
                    walk.inspected(if link { Inspection::Link } else { Inspection::Present })
                }
                PathStep::Canonicalize(walk) => {
                    let path = walk.next_path();
                    walk.canonicalized(Ok(path))
                }
                PathStep::Exists(search) => search.searched(true),
                PathStep::CanonicalizeParent(search) => {
                    let path = search.candidate_path();
                    search.canonicalized(Ok(path))
                }
                PathStep::Done(result) => return result.map(|_| ()),
            };
        }
    }

    fn resolve(&mut self, prompt: &str) -> Result<NaturalLanguageOutcome, PipelineError> {
        let mut step = resolve_natural_language_command(prompt);
        loop {
            step = match step {
                PipelineStep::FindCorrection(prompt) => {
                    let found = self.requests.iter().rev().find_map(|record| {
                        let json = record.observed_correction_argv_json.clone()?;
                        let matches = record.raw_user_prompt == prompt.text()
                            && record.status == RequestStatus::Observing;
                        if matches {
                            Some((record.request_id.clone(), json))
                        } else {
                            None
                        }
                    });
                    prompt.correction_found(Ok(found))
                }
                PipelineStep::OpenSession(prompt) => prompt.session_opened(Ok("session".to_owned())),
                PipelineStep::OpenRequest(prompt) => {
                    let record = insert_request_record(prompt.session_id(), prompt.text());
                    let id = record.request_id.clone();
                    self.requests.push(record);
                    prompt.request_opened(Ok(id))
                }
                PipelineStep::AskSidecar(query) => {
                    self.sent.push(query.request_line());
                    let reply = self.reply.take().unwrap_or(SidecarReply::SocketMissing);
                    query.answered("/run/sidecar.sock", reply)
                }
                PipelineStep::MarkObserving(unmatched) => {
                    let record = self.request(unmatched.request_id());
                    let marking = mark_request_observing(unmatched.request_id(), Some(record.status));
                    let marking = marking.map(|status| record.status = status).map_err(|e| e.message());
                    unmatched.marked(marking)
                }
                PipelineStep::FetchTemplate(candidate) => {
                    let known = candidate.template_id() == self.template.doc_id;
                    let row = if known { Ok(self.template.clone()) } else { Err("no rows".to_owned()) };
                    candidate.template_fetched(row)
                }
                PipelineStep::CheckPath(command) => {
                    let verdict = self.check_path(command.path());
                    command.path_checked(verdict)
                }
                PipelineStep::LoadPolicy(command) => {
                    assert_eq!(command.policy_rule_id(), "policy_git_restore");
                    command.policy_loaded(self.policy.clone())
                }
                PipelineStep::Audit(auditable) => auditable.environments_read(&env(&[]), &self.host),
                PipelineStep::Block(blocked) => {
                    let record = self.request(blocked.request_id());
                    let marking = mark_request_security_blocked(blocked.request_id(), Some(record.status));
                    let marking = marking.map(|status| record.status = status).map_err(|e| e.message());
                    blocked.marked(marking)
                }
                PipelineStep::Done(result) => return result,
            };
        }
    }
}

#[test]
fn natural_language_pipeline_resolves_trusted_argv_over_fake_sidecar() {
    let mut world = World::new();
    world.reply = Some(answer(r#""doc_git_restore_nl""#, r#"{"target_file":"src/main.rs"}"#));

    let outcome = world.resolve("undo my last local commit").expect("an outcome");
    let resolved = match outcome {
        NaturalLanguageOutcome::Resolved(resolved) => resolved,
        other => panic!("expected NaturalLanguageOutcome::Resolved, got {other:?}"),
    };
    assert_eq!(
        resolved.argv,
        vec!["git".to_owned(), "restore".to_owned(), "src/main.rs".to_owned()]
    );

    let received_request = world.sent[0].clone();
    assert!(received_request.contains(r#""query":"undo my last local commit""#));
    assert!(received_request.contains(&resolved.request_id));
    assert!(received_request.ends_with("\"limit\":5}\n"));
    assert_eq!(world.request(&resolved.request_id).status.as_text(), "PENDING");
}

#[test]
fn natural_language_pipeline_blocks_path_that_crosses_symlink_outside_workspace() {
    let mut world = World::new();
    world.links.push("/work/link");
    world.reply = Some(answer(r#""doc_git_restore_nl""#, r#"{"target_file":"link/secret.txt"}"#));

    let result = world.resolve("show me the secret file");
    let error = result.expect_err("a link");
    assert_eq!(
        error,
        PipelineError {
            failure: PipelineFailure::PathSlot {
                slot: "target_file".to_owned(),
                error: PathValidationError::SymbolicLink("/work/link".to_owned()),
            },
            unmarked: None,
        }
    );
    assert_eq!(
        error.message(),
        "a path-like slot escaped the workspace boundary: path slot 'target_file' failed workspace \
         boundary validation: path crosses symbolic link: /work/link"
    );
    assert_eq!(world.requests[0].status.as_text(), "SECURITY_BLOCKED");
}

#[test]
fn passive_observation_learns_template_from_manual_correction_on_repeat() {
    let mut world = World::new();
    world.reply = Some(miss());

    let prompt = "stage and commit my changes";
    let first_outcome = world.resolve(prompt).expect("an outcome");
    let observing_request_id = match first_outcome {
        NaturalLanguageOutcome::Observing { request_id } => request_id,
        other => panic!("expected NaturalLanguageOutcome::Observing, got {other:?}"),
    };
    assert_eq!(world.request(&observing_request_id).status.as_text(), "OBSERVING");

    let manual_argv = words(&["git", "restore", "file.rs"]);
    let noted_prompt = observe_manual_command(world.request(&observing_request_id), &manual_argv);
    assert_eq!(noted_prompt.as_deref(), Some(prompt));

    let second_noted =
        observe_manual_command(world.request(&observing_request_id), &words(&["ls", "-la"]));
    assert_eq!(second_noted, None);

    let stored_correction = world
        .request(&observing_request_id)
        .observed_correction_argv_json
        .clone()
        .expect("a correction");
    assert!(stored_correction.contains("file.rs"));
    assert!(!stored_correction.contains("\"ls\""));

    let repeat_outcome = world.resolve(prompt).expect("an outcome");
    let (relearn_request_id, suggested_argv) = match repeat_outcome {
        NaturalLanguageOutcome::LearnFromObservedCorrection { request_id, suggested_argv } => {
            (request_id, suggested_argv)
        }
        other => panic!("expected NaturalLanguageOutcome::LearnFromObservedCorrection, got {other:?}"),
    };
    assert_eq!(relearn_request_id, observing_request_id);
    assert_eq!(suggested_argv, manual_argv);
    assert_eq!(world.sent.len(), 1, "a recorded correction is answered without the sidecar");
    assert_eq!(world.requests.len(), 1);

    let corrected_command = command_line(&suggested_argv);
    let LearnStep::FindExactRule(correction) =
        learn_from_request(&relearn_request_id, &corrected_command)
    else {
        panic!("a correction")
    };
    let LearnStep::LoadRule(governed) = correction.exact_rule(Ok(Some("policy_git_restore".to_owned())))
    else {
        panic!("a rule")
    };
    let LearnStep::LoadContext(audited) = governed.rule_loaded(world.policy.clone()) else {
        panic!("an audit")
    };
    let LearnStep::Save(learning) = audited.context_found(Ok(RequestLearningContext {
        request_id: relearn_request_id,
        raw_user_prompt: prompt.to_owned(),
        canonical_cwd: "/work".to_owned(),
        canonical_git_root: Some("/repo".to_owned()),
    })) else {
        panic!("a row")
    };
    assert_eq!(learning.learned_row().source_type, "USER_TEMPLATE");
    assert_eq!(learning.learned_row().trust_state, "UNVERIFIED");
    assert_eq!(learning.learned_row().project_root_hash, "learned:/repo");
    let status = learning.marking(Some(RequestStatus::Observing)).expect("a recorded request");
    assert_eq!(status.as_text(), "APPROVED");
    let LearnStep::Done(Ok(learned)) = learning.saved(Ok(())) else { panic!("a template") };
    assert_eq!(learned.argv, manual_argv);
}

#[test]
fn every_failed_check_blocks_its_request() {
    let failure = |world: &mut World| {
        let error = world.resolve("do it").expect_err("a failed check");
        assert_eq!(error.unmarked, None);
        assert_eq!(world.requests[0].status, RequestStatus::SecurityBlocked);
        error.failure
    };

    let mut world = World::new();
    assert!(matches!(failure(&mut world), PipelineFailure::Sidecar(_)));

    let mut world = World::new();
    world.reply = Some(answer(r#"" ""#, "{}"));
    assert_eq!(
        failure(&mut world),
        PipelineFailure::TemplateFetch(StorageError::EmptyTemplateId)
    );

    let mut world = World::new();
    world.reply = Some(answer(r#""other""#, "{}"));
    assert_eq!(
        failure(&mut world),
        PipelineFailure::TemplateFetch(StorageError::TemplateFetch {
            template_id: "other".to_owned(),
            message: "no rows".to_owned(),
        })
    );

    let mut world = World::new();
    world.reply = Some(answer(r#""doc_git_restore_nl""#, r#"{"other":"x"}"#));
    assert_eq!(
        failure(&mut world),
        PipelineFailure::SlotBinding(SlotValidationError::UnknownSlot("other".to_owned()))
    );

    let mut world = World::new();
    world.template.trust_state = "REVOKED".to_owned();
    world.reply = Some(answer(r#""doc_git_restore_nl""#, r#"{"target_file":"x"}"#));
    assert_eq!(
        failure(&mut world),
        PipelineFailure::SlotBinding(SlotValidationError::TemplateRevoked("REVOKED".to_owned()))
    );

    let mut world = World::new();
    world.template.template_argv_json = r#"["git","$nothing"]"#.to_owned();
    world.reply = Some(answer(r#""doc_git_restore_nl""#, r#"{"target_file":"x"}"#));
    assert_eq!(
        failure(&mut world),
        PipelineFailure::TemplateCompilation(SlotValidationError::UnboundPlaceholder(
            "nothing".to_owned()
        ))
    );

    let mut world = World::new();
    world.policy = None;
    world.reply = Some(answer(r#""doc_git_restore_nl""#, r#"{"target_file":"x"}"#));
    assert_eq!(
        failure(&mut world),
        PipelineFailure::PolicyLoad(PolicyError::RuleNotFound("policy_git_restore".to_owned()))
    );

    let mut world = World::new();
    world.template.template_argv_json = r#"["git","restore","sudo"]"#.to_owned();
    world.reply = Some(answer(r#""doc_git_restore_nl""#, r#"{"target_file":"x"}"#));
    assert_eq!(
        failure(&mut world),
        PipelineFailure::PolicyAudit(PolicyError::PrivilegeRisk("sudo".to_owned()))
    );

    let mut world = World::new();
    world.host = env(&[("LD_PRELOAD", "x")]);
    world.reply = Some(answer(r#""doc_git_restore_nl""#, r#"{"target_file":"x"}"#));
    assert_eq!(
        failure(&mut world),
        PipelineFailure::PolicyAudit(PolicyError::EnvNotAllowlisted("LD_PRELOAD".to_owned()))
    );
}

#[test]
fn failures_before_the_request_is_recorded_end_at_once() {
    let PipelineStep::FindCorrection(prompt) = resolve_natural_language_command("x") else {
        panic!("a prompt")
    };
    let PipelineStep::Done(Err(error)) = prompt.correction_found(Err("locked".to_owned())) else {
        panic!("an error")
    };
    assert_eq!(error.message(), "failed to check for a previously observed correction: locked");

    let PipelineStep::FindCorrection(prompt) = resolve_natural_language_command("x") else {
        panic!("a prompt")
    };
    let found = Some(("r".to_owned(), "[".to_owned()));
    let PipelineStep::Done(Err(error)) = prompt.correction_found(Ok(found)) else {
        panic!("an error")
    };
    assert!(matches!(error.failure, PipelineFailure::CorrectionLookup(_)));

    let PipelineStep::FindCorrection(prompt) = resolve_natural_language_command("x") else {
        panic!("a prompt")
    };
    let PipelineStep::OpenSession(prompt) = prompt.correction_found(Ok(None)) else {
        panic!("a session")
    };
    let PipelineStep::OpenRequest(request) = prompt.session_opened(Ok("s".to_owned())) else {
        panic!("a request")
    };
    let PipelineStep::Done(Err(error)) = request.request_opened(Err("full".to_owned())) else {
        panic!("an error")
    };
    assert_eq!(error.message(), "failed to record request before natural-language lookup: full");
}

#[test]
fn requests_that_cannot_be_marked_are_reported() {
    let mut world = World::new();
    world.reply = Some(miss());
    let PipelineStep::FindCorrection(prompt) = resolve_natural_language_command("x") else {
        panic!("a prompt")
    };
    let PipelineStep::OpenSession(prompt) = prompt.correction_found(Ok(None)) else {
        panic!("a session")
    };
    let PipelineStep::OpenRequest(request) = prompt.session_opened(Ok("s".to_owned())) else {
        panic!("a request")
    };
    let PipelineStep::AskSidecar(query) = request.request_opened(Ok("r".to_owned())) else {
        panic!("a query")
    };
    let step = query.answered("/s", world.reply.take().expect("a reply"));
    let PipelineStep::MarkObserving(unmatched) = step else { panic!("unmatched") };
    let PipelineStep::Done(Err(error)) = unmatched.marked(Err("full".to_owned())) else {
        panic!("an error")
    };
    assert_eq!(
        error.message(),
        "sidecar found no matching template; failed to mark request_id=r OBSERVING: full"
    );

    let PipelineStep::FindCorrection(prompt) = resolve_natural_language_command("x") else {
        panic!("a prompt")
    };
    let PipelineStep::OpenSession(prompt) = prompt.correction_found(Ok(None)) else {
        panic!("a session")
    };
    let PipelineStep::OpenRequest(request) = prompt.session_opened(Ok("s".to_owned())) else {
        panic!("a request")
    };
    let PipelineStep::AskSidecar(query) = request.request_opened(Ok("r".to_owned())) else {
        panic!("a query")
    };
    let PipelineStep::Block(blocked) = query.answered("/s", SidecarReply::SocketMissing) else {
        panic!("blocked")
    };
    let PipelineStep::Done(Err(error)) = blocked.marked(Err("full".to_owned())) else {
        panic!("an error")
    };
    assert_eq!(
        error.message(),
        "failed to reach the sidecar for natural-language interpretation: sidecar socket not found \
         at /s; the sidecar daemon may not be running; failed to mark request_id=r SECURITY_BLOCKED: full"
    );
}

#[test]
fn unmarked_requests_are_reported_by_their_check() {
    let text = |failure: PipelineFailure| {
        let unmarked =
            Some(Unmarked { request_id: "r1".to_owned(), message: "disk".to_owned() });
        PipelineError { failure, unmarked }.message()
    };
    let slot = || SlotValidationError::UnknownSlot("x".to_owned());
    assert_eq!(
        text(PipelineFailure::SlotBinding(slot())),
        "slot validation failed with unknown untrusted slot was supplied: x; failed to mark \
         request_id=r1 SECURITY_BLOCKED: disk"
    );
    assert_eq!(
        text(PipelineFailure::TemplateCompilation(slot())),
        "template compilation failed with unknown untrusted slot was supplied: x; failed to mark \
         request_id=r1 SECURITY_BLOCKED: disk"
    );
    assert_eq!(
        text(PipelineFailure::PathSchema(slot())),
        "path validation failed with unknown untrusted slot was supplied: x; failed to mark \
         request_id=r1 SECURITY_BLOCKED: disk"
    );
    assert_eq!(
        text(PipelineFailure::PathSlot {
            slot: "file".to_owned(),
            error: PathValidationError::BoundaryEscape,
        }),
        "path validation failed with path slot 'file' failed workspace boundary validation; failed \
         to mark request_id=r1 SECURITY_BLOCKED: disk"
    );
    let refused = PolicyError::FlagBlocked("-x".to_owned());
    assert_eq!(
        text(PipelineFailure::PolicyAudit(refused.clone())),
        format!(
            "compiled command failed the trusted policy audit: {}",
            PolicyError::RequestStatusUpdate(format!(
                "policy error was {}; status update failed with disk",
                refused.message()
            ))
            .message()
        )
    );
}

#[test]
fn slots_without_a_path_format_are_not_validated_as_paths() {
    let mut world = World::new();
    world.template.slot_schema_json =
        r#"[{"name":"target_file","allowed_formats":["safe_token"]},{"name":"opt","allowed_formats":["path"]}]"#.to_owned();
    world.links.push("/work/link");
    world.reply = Some(answer(r#""doc_git_restore_nl""#, r#"{"target_file":"link"}"#));
    assert!(matches!(world.resolve("x"), Ok(NaturalLanguageOutcome::Resolved(_))));
    assert_eq!(OBSERVATION_WINDOW_MINUTES, 10);
}
