use cli_agent::ipc::{
    query_sidecar, search_request_line, IntentProposal, IpcError, RetrievalEvidence, RiskHints,
    UntrustedProposal,
};
use cli_agent::sidecar::{SidecarErrorBody, SidecarLine, SidecarReply, PROTOCOL_VERSION};
use cli_agent::sidecar_signal::{
    invalidation_request_line, notify_cache_invalidation, CacheInvalidationAck, SidecarSignalError,
};
use cli_agent::text_map::TextMap;
use serde_json::Value;

const ACK: &str = r#"{"protocol_version":"1.0.0","request_id":"req_signal_test","source_provenance":"LOCAL_ML_SIDECAR","status":"CACHE_REBUILT","document_count":3,"rebuild_duration_ms":12.5}
"#;

const PROPOSAL: &str = r#"{"protocol_version":"1.0.0","request_id":"placeholder","source_provenance":"LOCAL_FAST_PATH","intent_proposal":{"candidate_template_id":"doc_git_restore_nl","typed_intent":"git_restore","retrieval_evidence":{"fts5_lexical_score":0.9,"vector_cosine_distance":0.05,"vector_rank":1,"embedding_duration_ms":1.2},"risk_hints":{"contains_path_arguments":true},"raw_untrusted_slots":{"target_file":"src/main.rs"}}}
"#;

const ERROR: &str = r#"{"error":{"code":"BAD_REQUEST","message":"no such query"}}"#;

fn string(value: &Value, key: &str) -> Option<String> {
    value.get(key)?.as_str().map(str::to_owned)
}

fn reported(text: &str) -> Option<SidecarErrorBody> {
    let value: Value = serde_json::from_str(text).ok()?;
    let error = value.get("error")?;
    Some(SidecarErrorBody { code: string(error, "code")?, message: string(error, "message")? })
}

fn acknowledged(text: &str) -> Option<CacheInvalidationAck> {
    let value: Value = serde_json::from_str(text).ok()?;
    Some(CacheInvalidationAck {
        protocol_version: string(&value, "protocol_version")?,
        request_id: string(&value, "request_id")?,
        status: string(&value, "status")?,
        document_count: value.get("document_count")?.as_i64()?,
        rebuild_duration_ms: value.get("rebuild_duration_ms")?.as_f64()?.to_string(),
    })
}

fn proposed(text: &str) -> Option<UntrustedProposal> {
    let value: Value = serde_json::from_str(text).ok()?;
    let intent = value.get("intent_proposal")?;
    let evidence = intent.get("retrieval_evidence")?;
    let number = |key: &str| evidence.get(key).and_then(Value::as_f64).map(|n| n.to_string());
    let mut slots = TextMap::new();
    for (name, value) in intent.get("raw_untrusted_slots")?.as_object()? {
        slots.insert(name.clone(), value.as_str()?.to_owned());
    }
    Some(UntrustedProposal {
        protocol_version: string(&value, "protocol_version")?,
        request_id: string(&value, "request_id")?,
        source_provenance: string(&value, "source_provenance")?,
        intent_proposal: IntentProposal {
            candidate_template_id: string(intent, "candidate_template_id"),
            typed_intent: string(intent, "typed_intent")?,
            retrieval_evidence: RetrievalEvidence {
                fts5_lexical_score: number("fts5_lexical_score"),
                vector_cosine_distance: number("vector_cosine_distance"),
                vector_rank: evidence.get("vector_rank").and_then(Value::as_i64),
                embedding_duration_ms: number("embedding_duration_ms")?,
            },
            risk_hints: RiskHints {
                contains_path_arguments: intent
                    .get("risk_hints")?
                    .get("contains_path_arguments")?
                    .as_bool()?,
            },
            raw_untrusted_slots: slots,
        },
    })
}

fn line<T>(text: &str, read: impl Fn(&str) -> Option<T>) -> SidecarReply<T> {
    SidecarReply::Line(SidecarLine {
        text: text.to_owned(),
        error: reported(text),
        answer: read(text).ok_or("not the answer".to_owned()),
    })
}

fn query(text: &str) -> Result<UntrustedProposal, IpcError> {
    query_sidecar("/s", line(text, proposed))
}

fn notify(text: &str) -> Result<CacheInvalidationAck, SidecarSignalError> {
    notify_cache_invalidation("/run/sidecar.sock", line(text, acknowledged))
}

#[test]
fn cache_invalidation_signal_round_trips_over_unix_socket() {
    let received_request = invalidation_request_line("req_signal_test");
    let ack = notify(ACK).expect("an acknowledgement");
    assert_eq!(ack.status, "CACHE_REBUILT");
    assert_eq!(ack.document_count, 3);
    assert_eq!(ack.request_id, "req_signal_test");
    assert_eq!(ack.rebuild_duration_ms, "12.5");

    assert!(received_request.contains(r#""command":"invalidate_cache""#));
    assert!(received_request.contains(r#""request_id":"req_signal_test""#));
}

#[test]
fn cache_invalidation_signal_reports_missing_socket_without_hanging() {
    let result = notify_cache_invalidation("/run/sidecar.sock", SidecarReply::SocketMissing);
    assert!(matches!(result, Err(SidecarSignalError::SocketMissing(_))));
}

#[test]
fn requests_are_single_lines_of_json() {
    assert_eq!(PROTOCOL_VERSION, "1.0.0");
    assert_eq!(
        search_request_line("req", "a \"b\"\n\\", 5),
        "{\"protocol_version\":\"1.0.0\",\"request_id\":\"req\",\"query\":\"a \\\"b\\\"\\n\\\\\",\"limit\":5}\n"
    );
    assert_eq!(
        invalidation_request_line("r\u{1}"),
        "{\"protocol_version\":\"1.0.0\",\"command\":\"invalidate_cache\",\"request_id\":\"r\\u0001\"}\n"
    );
    for text in ["", "two\nlines", "\r\n", "日本", "\u{2028}"] {
        let request = search_request_line("id", text, 4294967295);
        assert_eq!(request.matches('\n').count(), 1);
        assert!(request.ends_with("}\n"));
        assert!(request.contains("\"limit\":4294967295"));
        assert!(serde_json::from_str::<Value>(&request).is_ok());
    }
}

#[test]
fn proposals_come_through_with_every_member() {
    let proposal = query(PROPOSAL).expect("a proposal");
    assert_eq!(proposal.protocol_version, "1.0.0");
    assert_eq!(proposal.request_id, "placeholder");
    assert_eq!(proposal.source_provenance, "LOCAL_FAST_PATH");
    let intent = proposal.intent_proposal;
    assert_eq!(intent.candidate_template_id.as_deref(), Some("doc_git_restore_nl"));
    assert_eq!(intent.typed_intent, "git_restore");
    assert_eq!(intent.retrieval_evidence.fts5_lexical_score.as_deref(), Some("0.9"));
    assert_eq!(intent.retrieval_evidence.vector_rank, Some(1));
    assert!(intent.risk_hints.contains_path_arguments);
    assert_eq!(intent.raw_untrusted_slots.len(), 1);
    assert_eq!(intent.raw_untrusted_slots.get("target_file"), Some(&"src/main.rs".to_owned()));
}

#[test]
fn lines_that_are_no_answer_are_reported_with_their_message() {
    for text in ["{}", "not json", "[]"] {
        assert_eq!(query(text), Err(IpcError::InvalidResponseJson("not the answer".to_owned())));
        assert_eq!(
            notify(text),
            Err(SidecarSignalError::InvalidAckJson("not the answer".to_owned()))
        );
    }
}

#[test]
fn errors_of_the_sidecar_come_first() {
    let report = || "BAD_REQUEST: no such query".to_owned();
    assert_eq!(query(ERROR), Err(IpcError::Rejected(report())));
    assert_eq!(notify(ERROR), Err(SidecarSignalError::Rejected(report())));
    let both = |answer: &str| format!("{}{}", r#"{"error":{"code":"c","message":"m"},"#, &answer[1..]);
    assert!(acknowledged(&both(ACK)).is_some());
    assert_eq!(notify(&both(ACK)), Err(SidecarSignalError::Rejected("c: m".to_owned())));
    assert!(proposed(&both(PROPOSAL)).is_some());
    assert_eq!(query(&both(PROPOSAL)), Err(IpcError::Rejected("c: m".to_owned())));
}

#[test]
fn each_failure_of_the_socket_has_its_error() {
    let message = || "broken".to_owned();
    let text = |reply| query_sidecar("/s", reply).map(|_| ()).map_err(|e| e.message());
    assert_eq!(
        text(SidecarReply::Unsupported),
        Err("sidecar socket not found at Unix Domain Sockets are not supported on this platform; \
             the sidecar daemon may not be running"
            .to_owned())
    );
    assert_eq!(
        text(SidecarReply::SocketMissing),
        Err("sidecar socket not found at /s; the sidecar daemon may not be running".to_owned())
    );
    assert_eq!(
        text(SidecarReply::ConnectFailed(message())),
        Err("failed to connect to sidecar socket /s: broken".to_owned())
    );
    assert_eq!(
        text(SidecarReply::SendFailed(message())),
        Err("failed to send search request: broken".to_owned())
    );
    assert_eq!(
        text(SidecarReply::ReadFailed(message())),
        Err("failed to read search response: broken".to_owned())
    );
    assert_eq!(
        text(line(" \n", proposed)),
        Err("failed to read search response: empty response from sidecar".to_owned())
    );
    assert_eq!(
        text(line("{}", proposed)),
        Err("sidecar returned malformed response JSON: not the answer".to_owned())
    );
    assert_eq!(
        text(line(ERROR, proposed)),
        Err("sidecar rejected the search request: BAD_REQUEST: no such query".to_owned())
    );
    let text = |reply| notify_cache_invalidation("/s", reply).map(|_| ()).map_err(|e| e.message());
    assert_eq!(
        text(SidecarReply::Unsupported),
        Err("sidecar socket not found at Unix Domain Sockets are not supported on this platform; \
             the sidecar daemon may not be running"
            .to_owned())
    );
    assert_eq!(
        text(SidecarReply::ConnectFailed(message())),
        Err("failed to connect to sidecar socket /s: broken".to_owned())
    );
    assert_eq!(
        text(SidecarReply::SendFailed(message())),
        Err("failed to send cache invalidation request: broken".to_owned())
    );
    assert_eq!(
        text(SidecarReply::ReadFailed(message())),
        Err("failed to read cache invalidation acknowledgement: broken".to_owned())
    );
    assert_eq!(
        text(line("", acknowledged)),
        Err("failed to read cache invalidation acknowledgement: empty response from sidecar".to_owned())
    );
    assert_eq!(
        text(line("{}", acknowledged)),
        Err("sidecar returned malformed acknowledgement JSON: not the answer".to_owned())
    );
    assert_eq!(
        text(line(ERROR, acknowledged)),
        Err("sidecar rejected cache invalidation request: BAD_REQUEST: no such query".to_owned())
    );
}

#[test]
fn texts_are_escaped_as_in_json() {
    let line = |id: &str| {
        format!(
            "{{\"protocol_version\":\"1.0.0\",\"command\":\"invalidate_cache\",\"request_id\":{}}}\n",
            id
        )
    };
    assert_eq!(
        invalidation_request_line("\u{8}\t\n\u{c}\r\u{0}\u{1f} /\u{7f}\u{e9}"),
        line("\"\\b\\t\\n\\f\\r\\u0000\\u001f /\u{7f}\u{e9}\"")
    );
    for code in 0..0x180_u32 {
        let text = char::from_u32(code).expect("a character").to_string();
        let json = serde_json::to_string(&text).expect("a string");
        assert_eq!(invalidation_request_line(&text), line(&json));
    }
}
