use cli_agent::ai_learn::{begin_learning, Asked, TeachStep};
use cli_agent::ai_run::RunEnd;
use cli_agent::learn::LearnError;
use cli_agent::storage::LearnedTemplate;

fn words(list: &[&str]) -> Vec<String> {
    list.iter().map(|word| (*word).to_owned()).collect()
}

fn failed(message: &str) -> TeachStep {
    TeachStep::Done(RunEnd::Failed(message.to_owned()))
}

fn asked() -> Asked {
    match begin_learning(&words(&["--request-id", "r1", "git", "restore x"])) {
        TeachStep::CheckBefore(asked) => asked,
        other => panic!("unexpected step: {other:?}"),
    }
}

fn template() -> LearnedTemplate {
    LearnedTemplate { doc_id: "learned_1".to_owned(), argv: words(&["git"]) }
}

#[test]
fn words_that_ask_for_nothing_end_at_once() {
    assert_eq!(
        begin_learning(&words(&["git", "restore"])),
        failed("ai-learn requires --request-id <id>")
    );
    assert_eq!(
        begin_learning(&words(&["--request-id", "r1", " "])),
        failed("ai-learn requires a corrected command string")
    );
}

#[test]
fn signals_stop_learning_before_and_after() {
    assert_eq!(asked().checked(true), failed("interrupted before learning"));
    let TeachStep::CheckAfter(taught) = asked().learned(Ok(template())) else { panic!("taught") };
    assert_eq!(taught.checked(true), failed("interrupted after learning transaction"));
}

#[test]
fn learned_templates_are_told_and_printed() {
    let TeachStep::Learn(learning) = asked().checked(false) else { panic!("learning") };
    assert_eq!(learning.request_id(), "r1");
    assert_eq!(learning.command(), "git restore x");
    let TeachStep::CheckAfter(taught) = learning.learned(Ok(template())) else { panic!("taught") };
    let TeachStep::Notify(taught) = taught.checked(false) else { panic!("notice") };
    assert_eq!(taught.request_id(), "r1");
    assert_eq!(taught.told(), TeachStep::Done(RunEnd::Said(words(&["learned_1"]))));
}

#[test]
fn refused_commands_are_reported() {
    assert_eq!(
        asked().learned(Err(LearnError::EmptyCommand)),
        failed("corrected command must not be empty")
    );
}
