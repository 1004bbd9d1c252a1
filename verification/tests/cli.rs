use cli_agent::cli::{
    after_request, after_run, ai_learn, confirm, decode_argv, decode_env, is_executable,
    looks_like_executable_argv, parse_command, preview_argv, prompt_of, render_preview,
    require_words, Action,
    CliCommand, ConfirmStep, FollowUp, LearnArgs, Reading, Verdict,
};
use cli_agent::execute::{
    execute_capture_stdout, execute_interactive, require_success, ChildOutcome, ExecuteError,
    ExecutionResult,
};
use cli_agent::path_validate::sanitize_terminal_preview_token;
use cli_agent::pipeline::ResolvedCommand;
use std::collections::BTreeMap;
use cli_agent::signals::{registration, stop_if, ShutdownSignals, SignalError};

fn words(list: &[&str]) -> Vec<String> {
    list.iter().map(|word| (*word).to_owned()).collect()
}

#[test]
fn commands_are_read_by_their_names() {
    assert_eq!(parse_command(None), Ok(CliCommand::Init));
    for (word, command) in [
        ("init", CliCommand::Init),
        ("capture-session", CliCommand::CaptureSession),
        ("record-session", CliCommand::RecordSession),
        ("ai-run", CliCommand::AiRun),
        ("execute-argv", CliCommand::ExecuteArgv),
        ("ai-learn", CliCommand::AiLearn),
        ("validate-slots", CliCommand::ValidateSlots),
        ("validate-path", CliCommand::ValidatePath),
        ("audit-policy", CliCommand::AuditPolicy),
        ("preview-token", CliCommand::PreviewToken),
        ("preview-argv", CliCommand::PreviewArgv),
        ("help", CliCommand::Help),
        ("--help", CliCommand::Help),
        ("-h", CliCommand::Help),
    ] {
        assert_eq!(parse_command(Some(word)), Ok(command));
    }
    assert_eq!(
        parse_command(Some("ai")),
        Err("unknown command 'ai'; run cli-agent help".to_owned())
    );
}

#[test]
fn words_are_read_as_commands_or_prompts() {
    assert_eq!(looks_like_executable_argv(&Vec::new()), Reading::Prompt);
    assert_eq!(looks_like_executable_argv(&words(&["", "x"])), Reading::Prompt);
    assert_eq!(looks_like_executable_argv(&words(&["-x"])), Reading::Prompt);
    for word in ["cd", "pwd", "exit", "true", "false"] {
        assert_eq!(looks_like_executable_argv(&words(&[word])), Reading::Command);
    }
    assert_eq!(
        looks_like_executable_argv(&words(&["./run", "x"])),
        Reading::CommandIfFile("./run".to_owned())
    );
    assert_eq!(
        looks_like_executable_argv(&words(&["undo", "it"])),
        Reading::CommandIfFound("undo".to_owned())
    );
    assert_eq!(prompt_of(&words(&["undo", "it  all"])), "undo it  all");
    assert!(require_words(&words(&["x"])).is_ok());
    assert_eq!(
        require_words(&Vec::new()),
        Err("ai-run requires a command, or a natural-language description in quotes".to_owned())
    );
}

#[test]
fn corrections_are_read_behind_their_options() {
    let args = |list: &[&str]| ai_learn(&words(list));
    assert_eq!(
        args(&["--request-id", "r", "git", "restore", "--request-id", "x"]),
        Ok(LearnArgs {
            request_id: "r".to_owned(),
            corrected_command: "git restore --request-id x".to_owned(),
        })
    );
    assert_eq!(
        args(&["--request-id", "a", "--request-id", "b", "ls"]).map(|learn| learn.request_id),
        Ok("b".to_owned())
    );
    let missing = Err("ai-learn requires --request-id <id>".to_owned());
    assert_eq!(args(&[]), missing);
    assert_eq!(args(&["git", "--request-id", "r"]), missing);
    assert_eq!(args(&["--request-id"]), missing);
    assert_eq!(args(&["--request-id", "r", "--request-id"]), missing);
    let empty = Err("ai-learn requires a corrected command string".to_owned());
    assert_eq!(args(&["--request-id", "r"]), empty);
    assert_eq!(args(&["--request-id", "r", " ", "\t"]), empty);
}

#[test]
fn arguments_in_json_are_read() {
    assert_eq!(decode_argv(r#"["a","b c"]"#), Ok(words(&["a", "b c"])));
    assert!(decode_argv("[1]").expect_err("a number").starts_with("argv must be a JSON string array: "));
    let env = decode_env(r#"{"PATH":"/bin","A":""}"#).expect("an environment");
    assert_eq!(env.len(), 2);
    assert_eq!(env.get("PATH"), Some(&"/bin".to_owned()));
    assert_eq!(decode_env(r#"{"A":"x","A":"y"}"#).expect("an environment").get("A"), Some(&"y".to_owned()));
    for text in [r#"{"A":"x","B":2}"#, "[]", r#"{"A":1e999}"#, "{"] {
        let error = serde_json::from_str::<BTreeMap<String, String>>(text).expect_err("no environment");
        assert_eq!(decode_env(text), Err(format!("env must be a JSON string object: {}", error)));
    }
}

#[test]
fn previews_in_json_stand_on_lines_of_their_own() {
    assert_eq!(preview_argv("[]"), Ok("[]".to_owned()));
    assert_eq!(preview_argv(r#"["a","b c"]"#), Ok("[\n  \"a\",\n  \"b c\"\n]".to_owned()));
    let shown = words(&[&sanitize_terminal_preview_token("\u{1b}[2J")]);
    assert_eq!(
        preview_argv(r#"["\u001b[2J"]"#),
        Ok(serde_json::to_string_pretty(&shown).expect("strings"))
    );
    assert!(preview_argv("7").expect_err("a number").starts_with("argv must be a JSON string array: "));
}

#[test]
fn files_with_a_permission_to_execute_can_be_run() {
    for mode in [0o100, 0o010, 0o001, 0o755, 0o100711] {
        assert!(is_executable(true, mode));
        assert!(!is_executable(false, mode));
    }
    for mode in [0, 0o644, 0o666, 0o100600] {
        assert!(!is_executable(true, mode));
    }
}

#[test]
fn previews_frame_sanitized_arguments() {
    assert_eq!(
        render_preview(&words(&["git", "a\u{1b}[2Jb"])),
        vec![
            "\x1b[1;36m┌─ semantic-cli-agent preview ─┐\x1b[0m",
            "\x1b[36m│\x1b[0m argv[0] = \x1b[1mgit\x1b[0m",
            "\x1b[36m│\x1b[0m argv[1] = \x1b[1ma\\x1B[2Jb\x1b[0m",
            "\x1b[1;36m└──────────────────────────────┘\x1b[0m",
        ]
    );
    assert_eq!(render_preview(&Vec::new()).len(), 2);
}

/// Asks about an action with signals at the four places, and an answer.
fn ask(action: Action, signals: [bool; 4], answer: &str) -> Verdict {
    let mut step = confirm(action);
    loop {
        step = match step {
            ConfirmStep::CheckBefore(proposed) => proposed.checked(signals[0]),
            ConfirmStep::Ask(asking) => asking.asked(signals[1]),
            ConfirmStep::Read(answering) => answering.answered(answer, signals[2]),
            ConfirmStep::CheckAfter(agreed) => agreed.checked(signals[3]),
            ConfirmStep::Done(verdict) => return verdict,
        };
    }
}

#[test]
fn only_a_yes_without_a_signal_confirms() {
    let run = || Action::Run(words(&["ls"]));
    let quiet = [false; 4];
    for answer in ["y\n", "Y", " yes ", "YES\r\n"] {
        assert_eq!(ask(run(), quiet, answer), Verdict::Confirmed(run()));
    }
    for answer in ["", "\n", "n", "no", "yes please", "Yes", "yy"] {
        assert_eq!(ask(run(), quiet, answer), Verdict::Declined(run()));
    }
    let stopped = |i: usize| {
        let mut signals = quiet;
        signals[i] = true;
        signals
    };
    let interrupted = |text: &str| Verdict::Interrupted(text.to_owned());
    assert_eq!(ask(run(), stopped(0), "y"), interrupted("interrupted before confirmation"));
    assert_eq!(ask(run(), stopped(1), "y"), interrupted("interrupted during confirmation"));
    assert_eq!(ask(run(), stopped(2), "y"), interrupted("interrupted during confirmation"));
    assert_eq!(ask(run(), stopped(3), "y"), interrupted("interrupted before execution"));
    let learn = || Action::Learn { request_id: "r".to_owned(), suggested_argv: words(&["ls"]) };
    assert_eq!(ask(learn(), stopped(0), "y"), interrupted("interrupted before learn confirmation"));
    assert_eq!(ask(learn(), stopped(3), "y"), interrupted("interrupted before learning"));
    assert_eq!(ask(learn(), quiet, "yes"), Verdict::Confirmed(learn()));
}

#[test]
fn questions_show_what_they_are_about() {
    let asking = |action: Action| match confirm(action) {
        ConfirmStep::CheckBefore(proposed) => match proposed.checked(false) {
            ConfirmStep::Ask(asking) => asking,
            other => panic!("{other:?}"),
        },
        other => panic!("{other:?}"),
    };
    let command = ResolvedCommand { request_id: "r".to_owned(), argv: words(&["git", "status"]) };
    let request = asking(Action::RunRequest(command));
    assert_eq!(request.question(), "Execute? [y/N]: ");
    assert_eq!(request.preview(), render_preview(&words(&["git", "status"])));
    let learn = asking(Action::Learn {
        request_id: "r".to_owned(),
        suggested_argv: words(&["git", "a b", "x\ny"]),
    });
    assert_eq!(
        learn.question(),
        "I observed you manually run \"git 'a b' 'x\\ny'\" after this query last time. Learn it as \
         a template? [y/N]: "
    );
    assert_eq!(learn.preview().len(), 5);
    assert_eq!(asking(Action::Run(words(&["ls"]))).question(), "Execute? [y/N]: ");
}

#[test]
fn execute_interactive_maps_child_exit_status() {
    let success = execute_interactive(&words(&["true"]))
        .expect("a program")
        .ended(ChildOutcome::Exited { code: Some(0), success: true })
        .expect("it ran");
    assert!(success.success);
    assert_eq!(success.status_code, Some(0));

    let failure = execute_interactive(&words(&["sh", "-c", "exit 7"]))
        .expect("a program")
        .ended(ChildOutcome::Exited { code: Some(7), success: false })
        .expect("it ran");
    assert!(!failure.success);
    assert_eq!(failure.status_code, Some(7));
    assert_eq!(
        require_success(&failure),
        Err("child exited with status Some(7)".to_owned())
    );
    let killed = ExecutionResult { status_code: None, success: false };
    assert_eq!(require_success(&killed), Err("child exited with status None".to_owned()));
    assert_eq!(require_success(&success), Ok(()));
}

#[test]
fn process_execution_preserves_multi_word_arguments_as_literal_indices() {
    let argv = words(&["print-args.sh", "two words", "--flag=value with space", "\"quoted-token\""]);
    let invocation = execute_capture_stdout(&argv).expect("a program");
    assert_eq!(invocation.program_name(), "print-args.sh");
    assert_eq!(invocation.arguments(), &argv[1..].to_vec());
    let rendered: String =
        invocation.arguments().iter().map(|argument| format!("<{}>\n", argument)).collect();
    assert_eq!(rendered, "<two words>\n<--flag=value with space>\n<\"quoted-token\">\n");
    assert_eq!(invocation.captured(Ok(vec![1, 2])), Ok(vec![1, 2]));
}

#[test]
fn each_failure_of_a_program_has_its_error() {
    let error = execute_interactive(&Vec::new()).expect_err("no program");
    assert_eq!(error, ExecuteError::EmptyArgv);
    assert_eq!(error.message(), "argv must contain at least one program");
    let program = || execute_interactive(&words(&["ls"])).expect("a program");
    let error = program().ended(ChildOutcome::SpawnFailed("gone".to_owned())).expect_err("no spawn");
    assert_eq!(error.message(), "failed to spawn child process ls: gone");
    let error = program().ended(ChildOutcome::WaitFailed("lost".to_owned())).expect_err("no wait");
    assert_eq!(error.message(), "failed while waiting for child process ls: lost");
    let error = program().captured(Err("gone".to_owned())).expect_err("no spawn");
    assert_eq!(error.message(), "failed to spawn child process ls: gone");
}

#[test]
fn only_successful_commands_are_followed_up() {
    let ok = || Ok(ExecutionResult { status_code: Some(0), success: true });
    let bad = || Ok(ExecutionResult { status_code: Some(2), success: false });
    let command = || ResolvedCommand { request_id: "r".to_owned(), argv: words(&["ls"]) };
    assert_eq!(after_run(words(&["ls"]), ok()), FollowUp::Observe(words(&["ls"])));
    assert_eq!(
        after_run(words(&["ls"]), bad()),
        FollowUp::Fail("child exited with status Some(2)".to_owned())
    );
    assert_eq!(after_request(command(), ok()), FollowUp::Approve("r".to_owned()));
    assert_eq!(
        after_request(command(), Err(ExecuteError::EmptyArgv)),
        FollowUp::Fail(
            "child process execution failed: argv must contain at least one program".to_owned()
        )
    );
}

#[test]
fn signals_stop_the_program() {
    let signals = ShutdownSignals::install().expect("handlers");
    assert!(!signals.interrupted());
    assert_eq!(signals.check(), Ok(()));
    assert_eq!(stop_if(false), Ok(()));
    let error = stop_if(true).expect_err("a signal");
    assert_eq!(error, SignalError::Interrupted);
    assert_eq!(error.message(), "operation interrupted by terminal signal");
}

#[test]
fn raised_signals_set_the_flag() {
    let signals = ShutdownSignals::install().expect("handlers");
    signal_hook::low_level::raise(15).expect("a signal can be raised");
    assert!(signals.interrupted());
    assert_eq!(signals.check(), Err(SignalError::Interrupted));
    let second = ShutdownSignals::install().expect("handlers");
    signal_hook::low_level::raise(2).expect("a signal can be raised");
    assert!(second.interrupted());
}

#[test]
fn the_first_handler_that_cannot_be_registered_is_reported() {
    let failed = |text: &str| Err::<(), String>(text.to_owned());
    assert_eq!(registration(Ok(()), Ok(())), Ok(()));
    assert_eq!(
        registration(failed("a"), failed("b")),
        Err(SignalError::Register("a".to_owned()))
    );
    let error = registration(Ok(()), failed("b")).expect_err("no handler");
    assert_eq!(error.message(), "failed to register signal handler: b");
}
