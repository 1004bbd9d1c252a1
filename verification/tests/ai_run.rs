use cli_agent::ai_run::{ai_run, approved, decided, observed, Lesson, Order, RunEnd, RunStep};
use cli_agent::cli::{confirm, render_preview, Action, ConfirmStep, Reading, Verdict};
use cli_agent::execute::{ExecuteError, ExecutionResult};
use cli_agent::learn::LearnError;
use cli_agent::pipeline::{
    NaturalLanguageOutcome, PipelineError, PipelineFailure, ResolvedCommand, Unmarked,
};
use cli_agent::storage::{tokenize_command_line, LearnedTemplate};

fn words(list: &[&str]) -> Vec<String> {
    list.iter().map(|word| (*word).to_owned()).collect()
}

fn ended(success: bool, status_code: Option<i32>) -> Result<ExecutionResult, ExecuteError> {
    Ok(ExecutionResult { status_code, success })
}

fn said(lines: &[&str]) -> RunStep {
    RunStep::Done(RunEnd::Said(words(lines)))
}

fn failed(message: &str) -> RunStep {
    RunStep::Done(RunEnd::Failed(message.to_owned()))
}

fn order(verdict: Verdict) -> Order {
    match decided(verdict) {
        RunStep::Execute(order) => order,
        other => panic!("no order: {other:?}"),
    }
}

fn lesson(suggested_argv: Vec<String>) -> Lesson {
    let action = Action::Learn { request_id: "r1".to_owned(), suggested_argv };
    match decided(Verdict::Confirmed(action)) {
        RunStep::Learn(lesson) => lesson,
        other => panic!("no lesson: {other:?}"),
    }
}

fn resolve(outcome: Result<NaturalLanguageOutcome, PipelineError>) -> RunStep {
    match ai_run(words(&["-", "undo", "it"])) {
        RunStep::CheckPrompt(prompt) => match prompt.checked(false) {
            RunStep::Resolve(prompt) => {
                assert_eq!(prompt.prompt(), "- undo it");
                prompt.resolved(outcome)
            }
            other => panic!("not resolved: {other:?}"),
        },
        other => panic!("no prompt: {other:?}"),
    }
}

#[test]
fn words_become_a_command_or_a_prompt() {
    assert_eq!(
        ai_run(Vec::new()),
        failed("ai-run requires a command, or a natural-language description in quotes")
    );
    assert_eq!(ai_run(words(&["pwd"])), RunStep::Confirm(Action::Run(words(&["pwd"]))));
    for executable in [true, false] {
        match ai_run(words(&["undo", "it"])) {
            RunStep::Classify(found) => {
                assert_eq!(found.place(), &Reading::CommandIfFound("undo".to_owned()));
                match found.classified(executable) {
                    RunStep::Confirm(action) => {
                        assert!(executable);
                        assert_eq!(action, Action::Run(words(&["undo", "it"])));
                    }
                    RunStep::CheckPrompt(prompt) => {
                        assert!(!executable);
                        assert_eq!(prompt.prompt(), "undo it");
                        assert_eq!(
                            prompt.checked(true),
                            failed("interrupted before sidecar lookup")
                        );
                    }
                    other => panic!("unexpected step: {other:?}"),
                }
            }
            other => panic!("unexpected step: {other:?}"),
        }
    }
}

#[test]
fn outcomes_of_a_prompt_are_offered_or_told() {
    let command = || ResolvedCommand { request_id: "r1".to_owned(), argv: words(&["ls"]) };
    assert_eq!(
        resolve(Ok(NaturalLanguageOutcome::Resolved(command()))),
        RunStep::Confirm(Action::RunRequest(command()))
    );
    assert_eq!(
        resolve(Ok(NaturalLanguageOutcome::LearnFromObservedCorrection {
            request_id: "r1".to_owned(),
            suggested_argv: words(&["ls"]),
        })),
        RunStep::Confirm(Action::Learn {
            request_id: "r1".to_owned(),
            suggested_argv: words(&["ls"]),
        })
    );
    assert_eq!(
        resolve(Ok(NaturalLanguageOutcome::Observing { request_id: "r1".to_owned() })),
        said(&[
            "no matching command template yet for this prompt (request_id=r1).",
            "if you run the right command manually with ai-run in the next 10 minutes, \
             I'll remember it and offer to learn it the next time you ask this.",
        ])
    );
    let error = |unmarked| PipelineError {
        failure: PipelineFailure::SessionRecord("no table".to_owned()),
        unmarked,
    };
    let plain = error(None).message();
    assert_eq!(
        resolve(Err(error(None))),
        failed(&format!("natural-language interpretation failed: {plain}"))
    );
    assert_eq!(
        resolve(Err(error(Some(Unmarked {
            request_id: "r1".to_owned(),
            message: "disk".to_owned(),
        })))),
        failed(&format!(
            "natural-language interpretation failed: {plain}; failed to mark request_id=r1 \
             SECURITY_BLOCKED: disk"
        ))
    );
}

#[test]
fn only_confirmed_actions_are_done() {
    let command = || ResolvedCommand { request_id: "r1".to_owned(), argv: words(&["ls", "-l"]) };
    let learn = || Action::Learn {
        request_id: "r1".to_owned(),
        suggested_argv: words(&["echo", "two words", "a'b"]),
    };
    assert_eq!(
        order(Verdict::Confirmed(Action::Run(words(&["pwd"])))).argv(),
        &words(&["pwd"])
    );
    assert_eq!(order(Verdict::Confirmed(Action::RunRequest(command()))).argv(), &command().argv);
    let taught = lesson(words(&["echo", "two words", "a'b"]));
    assert_eq!(taught.request_id(), "r1");
    assert_ne!(taught.command(), "echo two words a'b");
    assert_eq!(
        tokenize_command_line(taught.command()),
        Ok(words(&["echo", "two words", "a'b"]))
    );

    assert_eq!(decided(Verdict::Declined(Action::Run(words(&["pwd"])))), said(&["aborted"]));
    assert_eq!(decided(Verdict::Declined(Action::RunRequest(command()))), said(&["aborted"]));
    assert_eq!(
        decided(Verdict::Declined(learn())),
        said(&["not learned; you can ask again later"])
    );
    assert_eq!(
        decided(Verdict::Interrupted("interrupted before execution".to_owned())),
        failed("interrupted before execution")
    );
}

#[test]
fn only_successful_commands_are_observed_or_approved() {
    let literal = || order(Verdict::Confirmed(Action::Run(words(&["pwd"]))));
    let requested = || {
        order(Verdict::Confirmed(Action::RunRequest(ResolvedCommand {
            request_id: "r1".to_owned(),
            argv: words(&["ls"]),
        })))
    };
    assert_eq!(literal().executed(ended(true, Some(0))), RunStep::Observe(words(&["pwd"])));
    assert_eq!(requested().executed(ended(true, Some(0))), RunStep::Approve("r1".to_owned()));
    for step in [
        literal().executed(ended(false, Some(3))),
        requested().executed(ended(false, Some(3))),
    ] {
        assert_eq!(step, failed("child exited with status Some(3)"));
    }
    assert!(matches!(
        requested().executed(Err(ExecuteError::EmptyArgv)),
        RunStep::Done(RunEnd::Failed(message))
            if message.starts_with("child process execution failed: ")
    ));
    assert_eq!(approved(Ok(())), said(&[]));
    assert_eq!(
        approved(Err("disk".to_owned())),
        failed("failed to mark request approved after execution: disk")
    );
}

#[test]
fn observation_never_fails_a_command() {
    assert_eq!(observed(Ok(None)), said(&[]));
    assert_eq!(
        observed(Ok(Some("undo it".to_owned()))),
        RunStep::Done(RunEnd::Noted(
            "noted: if you ask ai-run \"undo it\" again, I can offer to learn this command"
                .to_owned()
        ))
    );
    assert_eq!(
        observed(Err("disk".to_owned())),
        RunStep::Done(RunEnd::Noted(
            "warning: passive-observation hook failed (command already ran fine): disk".to_owned()
        ))
    );
}

#[test]
fn learned_corrections_are_announced() {
    let template = LearnedTemplate { doc_id: "learned_1".to_owned(), argv: words(&["ls"]) };
    match lesson(words(&["ls"])).learned(Ok(template)) {
        RunStep::Notify(news) => {
            assert_eq!(news.request_id(), "r1");
            assert_eq!(news.told(), said(&["learned learned_1"]));
        }
        other => panic!("unexpected step: {other:?}"),
    }
    let error = || LearnError::RequestMissing {
        request_id: "r1".to_owned(),
        message: "no rows".to_owned(),
    };
    assert_eq!(
        lesson(words(&["ls"])).learned(Err(error())),
        failed(&format!("failed to learn the observed correction: {}", error().message()))
    );
}

#[test]
fn the_words_of_the_user_are_shown_at_once() {
    match confirm(Action::Run(words(&["pwd"]))) {
        ConfirmStep::CheckBefore(proposed) => {
            assert_eq!(proposed.preview(), render_preview(&words(&["pwd"])));
            match proposed.checked(false) {
                ConfirmStep::Ask(asking) => assert!(asking.preview().is_empty()),
                other => panic!("unexpected step: {other:?}"),
            }
        }
        other => panic!("unexpected step: {other:?}"),
    }
    let command = ResolvedCommand { request_id: "r1".to_owned(), argv: words(&["ls"]) };
    match confirm(Action::RunRequest(command)) {
        ConfirmStep::CheckBefore(proposed) => assert!(proposed.preview().is_empty()),
        other => panic!("unexpected step: {other:?}"),
    }
}
