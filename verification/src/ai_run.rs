//! The run of the words of a user, from the first look at them to what is said at the
//! end.
use crate::cli::{
    after_request, after_run, looks_like_executable_argv, prompt_of, reading_of, require_words,
    run_failure, Action, ActionModel, FollowUp, Reading, ReadingModel, Verdict, VerdictModel,
};
use crate::execute::{ExecuteError, ExecutionResult};
use crate::learn::{learn_fault_text, LearnError};
use crate::number::{i64_to_text, int_text, nat_text};
use crate::pipeline::{
    error_text, NaturalLanguageOutcome, OutcomeModel, PipelineError, ResolvedCommand,
    OBSERVATION_WINDOW_MINUTES,
};
use crate::shell::{command_line, shell_line_of, shell_words_of};
use crate::storage::LearnedTemplate;
use crate::text::{joined, texts};
use vstd::prelude::*;

verus! {

// ---------------------------------------------------------------------------
// States
// ---------------------------------------------------------------------------

/// Words that are a command if a file can be found.
#[derive(Debug, PartialEq, Eq)]
pub struct Words {
    argv: Vec<String>,
    reading: Reading,
}

impl Words {
    /// The words.
    pub closed spec fn argv(&self) -> Seq<Seq<char>> {
        texts(self.argv@)
    }

    /// How they are read.
    pub closed spec fn reading(&self) -> ReadingModel {
        self.reading@
    }
}

/// A prompt that is about to be resolved.
#[derive(Debug, PartialEq, Eq)]
pub struct PromptRun {
    prompt: String,
}

impl View for PromptRun {
    type V = Seq<char>;

    closed spec fn view(&self) -> Seq<char> {
        self.prompt@
    }
}

/// A command that the user agreed to, with the request that it comes from.
#[derive(Debug, PartialEq, Eq)]
pub struct Order {
    argv: Vec<String>,
    request_id: Option<String>,
}

/// What an [`Order`] says.
pub ghost struct OrderModel {
    pub argv: Seq<Seq<char>>,
    pub request_id: Option<Seq<char>>,
}

impl View for Order {
    type V = OrderModel;

    closed spec fn view(&self) -> OrderModel {
        OrderModel {
            argv: texts(self.argv@),
            request_id: match self.request_id {
                Some(id) => Some(id@),
                None => None,
            },
        }
    }
}

/// A correction that the user agreed to learn.
#[derive(Debug, PartialEq, Eq)]
pub struct Lesson {
    request_id: String,
    command: String,
}

/// What a [`Lesson`] says.
pub ghost struct LessonModel {
    pub request_id: Seq<char>,
    pub command: Seq<char>,
}

impl View for Lesson {
    type V = LessonModel;

    closed spec fn view(&self) -> LessonModel {
        LessonModel { request_id: self.request_id@, command: self.command@ }
    }
}

/// A template that was learned, of which the sidecar does not know yet.
#[derive(Debug, PartialEq, Eq)]
pub struct News {
    request_id: String,
    doc_id: String,
}

/// What [`News`] say.
pub ghost struct NewsModel {
    pub request_id: Seq<char>,
    pub doc_id: Seq<char>,
}

impl View for News {
    type V = NewsModel;

    closed spec fn view(&self) -> NewsModel {
        NewsModel { request_id: self.request_id@, doc_id: self.doc_id@ }
    }
}

/// How a run ends.
#[derive(Debug, PartialEq, Eq)]
pub enum RunEnd {
    /// Well, with these lines for the user.
    Said(Vec<String>),
    /// Well, with a remark for the user.
    Noted(String),
    /// With an error.
    Failed(String),
}

/// What a run asks for next, or how it ends.
#[derive(Debug, PartialEq, Eq)]
pub enum RunStep {
    /// Find out whether the first word names an executable file.
    Classify(Words),
    /// Look for a signal.
    CheckPrompt(PromptRun),
    /// Resolve the prompt.
    Resolve(PromptRun),
    /// Ask the user.
    Confirm(Action),
    /// Run the command.
    Execute(Order),
    /// Note the words as a correction, if one is awaited.
    Observe(Vec<String>),
    /// Approve the request.
    Approve(String),
    /// Learn the correction.
    Learn(Lesson),
    /// Tell the sidecar.
    Notify(News),
    /// The run has ended.
    Done(RunEnd),
}

/// What a [`RunStep`] says.
pub ghost enum RunModel {
    Classify { argv: Seq<Seq<char>>, reading: ReadingModel },
    CheckPrompt(Seq<char>),
    Resolve(Seq<char>),
    Confirm(ActionModel),
    Execute(OrderModel),
    Observe(Seq<Seq<char>>),
    Approve(Seq<char>),
    Learn(LessonModel),
    Notify(NewsModel),
    Said(Seq<Seq<char>>),
    Noted(Seq<char>),
    Failed(Seq<char>),
}

impl View for RunStep {
    type V = RunModel;

    open spec fn view(&self) -> RunModel {
        match self {
            RunStep::Classify(words) => RunModel::Classify {
                argv: words.argv(),
                reading: words.reading(),
            },
            RunStep::CheckPrompt(prompt) => RunModel::CheckPrompt(prompt@),
            RunStep::Resolve(prompt) => RunModel::Resolve(prompt@),
            RunStep::Confirm(action) => RunModel::Confirm(action@),
            RunStep::Execute(order) => RunModel::Execute(order@),
            RunStep::Observe(argv) => RunModel::Observe(texts(argv@)),
            RunStep::Approve(request_id) => RunModel::Approve(request_id@),
            RunStep::Learn(lesson) => RunModel::Learn(lesson@),
            RunStep::Notify(news) => RunModel::Notify(news@),
            RunStep::Done(RunEnd::Said(lines)) => RunModel::Said(texts(lines@)),
            RunStep::Done(RunEnd::Noted(remark)) => RunModel::Noted(remark@),
            RunStep::Done(RunEnd::Failed(message)) => RunModel::Failed(message@),
        }
    }
}

// ---------------------------------------------------------------------------
// Steps
// ---------------------------------------------------------------------------

/// The prompt that words make.
pub open spec fn prompt_text(argv: Seq<Seq<char>>) -> Seq<char> {
    joined(argv, " "@)
}

/// The first step of a run.
pub open spec fn run_step(argv: Seq<Seq<char>>) -> RunModel {
    if argv.len() == 0 {
        RunModel::Failed(
            "ai-run requires a command, or a natural-language description in quotes"@,
        )
    } else {
        match reading_of(argv) {
            ReadingModel::Command => RunModel::Confirm(ActionModel::Run(argv)),
            ReadingModel::Prompt => RunModel::CheckPrompt(prompt_text(argv)),
            reading => RunModel::Classify { argv, reading },
        }
    }
}

/// What is said of a prompt that nothing matched.
pub open spec fn observing_lines(request_id: Seq<char>) -> Seq<Seq<char>> {
    seq![
        "no matching command template yet for this prompt (request_id="@ + request_id + ")."@,
        "if you run the right command manually with ai-run in the next "@ + int_text(
            OBSERVATION_WINDOW_MINUTES as int,
        )
            + " minutes, I'll remember it and offer to learn it the next time you ask this."@,
    ]
}

/// The step after a prompt was resolved.
pub open spec fn resolved_step(outcome: Result<OutcomeModel, Seq<char>>) -> RunModel {
    match outcome {
        Err(message) => RunModel::Failed("natural-language interpretation failed: "@ + message),
        Ok(OutcomeModel::Resolved { request_id, argv }) => RunModel::Confirm(
            ActionModel::RunRequest { request_id, argv },
        ),
        Ok(OutcomeModel::LearnFromObservedCorrection { request_id, suggested_argv }) => {
            RunModel::Confirm(ActionModel::Learn { request_id, suggested_argv })
        },
        Ok(OutcomeModel::Observing { request_id }) => RunModel::Said(observing_lines(request_id)),
    }
}

/// The step after the user was asked.
pub open spec fn decided_step(verdict: VerdictModel) -> RunModel {
    match verdict {
        VerdictModel::Confirmed(ActionModel::Run(argv)) => RunModel::Execute(
            OrderModel { argv, request_id: None },
        ),
        VerdictModel::Confirmed(ActionModel::RunRequest { request_id, argv }) => {
            RunModel::Execute(OrderModel { argv, request_id: Some(request_id) })
        },
        VerdictModel::Confirmed(ActionModel::Learn { request_id, suggested_argv }) => {
            RunModel::Learn(LessonModel { request_id, command: shell_line_of(suggested_argv) })
        },
        VerdictModel::Declined(ActionModel::Learn { .. }) => RunModel::Said(
            seq!["not learned; you can ask again later"@],
        ),
        VerdictModel::Declined(_) => RunModel::Said(seq!["aborted"@]),
        VerdictModel::Interrupted(context) => RunModel::Failed(context),
    }
}

/// The step after a command was run.
pub open spec fn executed_step(
    order: OrderModel,
    result: Result<ExecutionResult, ExecuteError>,
) -> RunModel {
    match run_failure(result) {
        Some(message) => RunModel::Failed(message),
        None => match order.request_id {
            Some(request_id) => RunModel::Approve(request_id),
            None => RunModel::Observe(order.argv),
        },
    }
}

fn say(line: String) -> (step: RunStep)
    ensures
        step@ == RunModel::Said(seq![line@]),
{
    let mut lines: Vec<String> = Vec::new();
    lines.push(line);
    assert(texts(lines@) =~= seq![line@]);
    RunStep::Done(RunEnd::Said(lines))
}

fn silent() -> (step: RunStep)
    ensures
        step@ == RunModel::Said(Seq::empty()),
{
    let lines: Vec<String> = Vec::new();
    assert(texts(lines@) =~= Seq::<Seq<char>>::empty());
    RunStep::Done(RunEnd::Said(lines))
}

/// Begins to run the words of a user.
pub fn ai_run(argv: Vec<String>) -> (step: RunStep)
    ensures
        step@ == run_step(texts(argv@)),
{
    match require_words(&argv) {
        Ok(()) => {},
        Err(message) => {
            return RunStep::Done(RunEnd::Failed(message));
        },
    }
    match looks_like_executable_argv(&argv) {
        Reading::Command => RunStep::Confirm(Action::Run(argv)),
        Reading::Prompt => RunStep::CheckPrompt(PromptRun { prompt: prompt_of(&argv) }),
        Reading::CommandIfFile(path) => RunStep::Classify(
            Words { argv, reading: Reading::CommandIfFile(path) },
        ),
        Reading::CommandIfFound(name) => RunStep::Classify(
            Words { argv, reading: Reading::CommandIfFound(name) },
        ),
    }
}

impl Words {
    /// Where the file is looked for.
    pub fn place(&self) -> (reading: &Reading)
        ensures
            reading@ == self.reading(),
    {
        &self.reading
    }

    /// Goes on once it is known whether there is an executable file.
    pub fn classified(self, executable: bool) -> (step: RunStep)
        ensures
            step@ == if executable {
                RunModel::Confirm(ActionModel::Run(self.argv()))
            } else {
                RunModel::CheckPrompt(prompt_text(self.argv()))
            },
    {
        if executable {
            RunStep::Confirm(Action::Run(self.argv))
        } else {
            RunStep::CheckPrompt(PromptRun { prompt: prompt_of(&self.argv) })
        }
    }
}

impl PromptRun {
    /// The prompt.
    pub fn prompt(&self) -> (prompt: &str)
        ensures
            prompt@ == self@,
    {
        self.prompt.as_str()
    }

    /// Goes on once a signal was looked for.
    pub fn checked(self, interrupted: bool) -> (step: RunStep)
        ensures
            step@ == if interrupted {
                RunModel::Failed("interrupted before sidecar lookup"@)
            } else {
                RunModel::Resolve(self@)
            },
    {
        if interrupted {
            RunStep::Done(RunEnd::Failed("interrupted before sidecar lookup".to_owned()))
        } else {
            RunStep::Resolve(self)
        }
    }

    /// Goes on once the prompt was resolved.
    pub fn resolved(self, outcome: Result<NaturalLanguageOutcome, PipelineError>) -> (step: RunStep)
        ensures
            match outcome {
                Ok(outcome) => step@ == resolved_step(Ok(outcome@)),
                Err(error) => step@ == resolved_step(Err(error_text(error@))),
            },
    {
        match outcome {
            Err(error) => RunStep::Done(
                RunEnd::Failed(
                    "natural-language interpretation failed: ".to_owned().concat(
                        error.message().as_str(),
                    ),
                ),
            ),
            Ok(NaturalLanguageOutcome::Resolved(command)) => RunStep::Confirm(
                Action::RunRequest(command),
            ),
            Ok(NaturalLanguageOutcome::LearnFromObservedCorrection { request_id, suggested_argv }) => {
                RunStep::Confirm(Action::Learn { request_id, suggested_argv })
            },
            Ok(NaturalLanguageOutcome::Observing { request_id }) => {
                let first = "no matching command template yet for this prompt (request_id=".to_owned().concat(
                request_id.as_str()).concat(").");
                let second = "if you run the right command manually with ai-run in the next ".to_owned().concat(
                i64_to_text(OBSERVATION_WINDOW_MINUTES).as_str()).concat(
                    " minutes, I'll remember it and offer to learn it the next time you ask this.",
                );
                let mut lines: Vec<String> = Vec::new();
                lines.push(first);
                lines.push(second);
                assert(texts(lines@) =~= observing_lines(request_id@));
                RunStep::Done(RunEnd::Said(lines))
            },
        }
    }
}

/// Goes on once the user was asked: nothing is run or learned but what the user agreed
/// to.
pub fn decided(verdict: Verdict) -> (step: RunStep)
    ensures
        step@ == decided_step(verdict@),
        match verdict {
            Verdict::Confirmed(Action::Learn { suggested_argv, .. }) => step is Learn
                && shell_words_of(step->Learn_0@.command) == Ok::<Seq<Seq<char>>, Seq<char>>(
                texts(suggested_argv@),
            ),
            _ => true,
        },
{
    match verdict {
        Verdict::Confirmed(Action::Run(argv)) => RunStep::Execute(Order { argv, request_id: None }),
        Verdict::Confirmed(Action::RunRequest(command)) => RunStep::Execute(
            Order { argv: command.argv, request_id: Some(command.request_id) },
        ),
        Verdict::Confirmed(Action::Learn { request_id, suggested_argv }) => RunStep::Learn(
            Lesson { request_id, command: command_line(&suggested_argv) },
        ),
        Verdict::Declined(Action::Learn { .. }) => say(
            "not learned; you can ask again later".to_owned(),
        ),
        Verdict::Declined(_) => say("aborted".to_owned()),
        Verdict::Interrupted(context) => RunStep::Done(RunEnd::Failed(context)),
    }
}

impl Order {
    /// The argument list to run.
    pub fn argv(&self) -> (argv: &Vec<String>)
        ensures
            texts(argv@) == self@.argv,
    {
        &self.argv
    }

    /// Goes on once the command was run.
    pub fn executed(self, result: Result<ExecutionResult, ExecuteError>) -> (step: RunStep)
        ensures
            step@ == executed_step(self@, result),
    {
        let next = match self.request_id {
            Some(request_id) => after_request(
                ResolvedCommand { request_id, argv: self.argv },
                result,
            ),
            None => after_run(self.argv, result),
        };
        match next {
            FollowUp::Observe(argv) => RunStep::Observe(argv),
            FollowUp::Approve(request_id) => RunStep::Approve(request_id),
            FollowUp::Fail(message) => RunStep::Done(RunEnd::Failed(message)),
        }
    }
}

/// Ends once the words were offered as a correction. The command has run by then, so
/// that nothing that goes wrong here is an error.
pub fn observed(noted: Result<Option<String>, String>) -> (step: RunStep)
    ensures
        step@ == match noted {
            Ok(Some(prompt)) => RunModel::Noted(
                "noted: if you ask ai-run \""@ + prompt@
                    + "\" again, I can offer to learn this command"@,
            ),
            Ok(None) => RunModel::Said(Seq::empty()),
            Err(message) => RunModel::Noted(
                "warning: passive-observation hook failed (command already ran fine): "@ + message@,
            ),
        },
{
    match noted {
        Ok(Some(prompt)) => RunStep::Done(
            RunEnd::Noted(
                "noted: if you ask ai-run \"".to_owned().concat(prompt.as_str()).concat(
                    "\" again, I can offer to learn this command",
                ),
            ),
        ),
        Ok(None) => silent(),
        Err(message) => RunStep::Done(
            RunEnd::Noted(
                "warning: passive-observation hook failed (command already ran fine): ".to_owned().concat(
                message.as_str()),
            ),
        ),
    }
}

/// Ends once the request was marked; `Err` holds the message where that failed.
pub fn approved(marking: Result<(), String>) -> (step: RunStep)
    ensures
        step@ == match marking {
            Ok(()) => RunModel::Said(Seq::empty()),
            Err(message) => RunModel::Failed(
                "failed to mark request approved after execution: "@ + message@,
            ),
        },
{
    match marking {
        Ok(()) => silent(),
        Err(message) => RunStep::Done(
            RunEnd::Failed(
                "failed to mark request approved after execution: ".to_owned().concat(
                    message.as_str(),
                ),
            ),
        ),
    }
}

impl Lesson {
    /// The request that is corrected.
    pub fn request_id(&self) -> (id: &str)
        ensures
            id@ == self@.request_id,
    {
        self.request_id.as_str()
    }

    /// The corrected command.
    pub fn command(&self) -> (command: &str)
        ensures
            command@ == self@.command,
    {
        self.command.as_str()
    }

    /// Goes on once the correction was learned, or was not.
    pub fn learned(self, result: Result<LearnedTemplate, LearnError>) -> (step: RunStep)
        ensures
            step@ == match result {
                Ok(template) => RunModel::Notify(
                    NewsModel { request_id: self@.request_id, doc_id: template.doc_id@ },
                ),
                Err(error) => RunModel::Failed(
                    "failed to learn the observed correction: "@ + learn_fault_text(error@),
                ),
            },
    {
        match result {
            Ok(template) => RunStep::Notify(
                News { request_id: self.request_id, doc_id: template.doc_id },
            ),
            Err(error) => RunStep::Done(
                RunEnd::Failed(
                    "failed to learn the observed correction: ".to_owned().concat(
                        error.message().as_str(),
                    ),
                ),
            ),
        }
    }
}

impl News {
    /// The request that was corrected.
    pub fn request_id(&self) -> (id: &str)
        ensures
            id@ == self@.request_id,
    {
        self.request_id.as_str()
    }

    /// Ends once the sidecar was told, whether it listened or not.
    pub fn told(self) -> (step: RunStep)
        ensures
            step@ == RunModel::Said(seq!["learned "@ + self@.doc_id]),
    {
        say("learned ".to_owned().concat(self.doc_id.as_str()))
    }
}

// ---------------------------------------------------------------------------
// Laws
// ---------------------------------------------------------------------------

/// Only what the user agreed to is run or learned, and it is that very command.
pub proof fn law_only_confirmed_actions_are_done(verdict: VerdictModel)
    ensures
        match decided_step(verdict) {
            RunModel::Execute(order) => verdict == VerdictModel::Confirmed(
                match order.request_id {
                    Some(request_id) => ActionModel::RunRequest { request_id, argv: order.argv },
                    None => ActionModel::Run(order.argv),
                },
            ),
            RunModel::Learn(lesson) => {
                &&& verdict is Confirmed
                &&& verdict->Confirmed_0 is Learn
                &&& lesson.request_id == verdict->Confirmed_0->Learn_request_id
                &&& lesson.command == shell_line_of(verdict->Confirmed_0->suggested_argv)
            },
            _ => true,
        },
{
}

/// A request is approved only once its command has run and succeeded.
pub proof fn law_only_successful_commands_are_approved(
    order: OrderModel,
    result: Result<ExecutionResult, ExecuteError>,
)
    requires
        executed_step(order, result) is Approve,
    ensures
        result is Ok,
        result->Ok_0.success,
        order.request_id == Some(executed_step(order, result)->Approve_0),
{
}

/// A run begins with its first word: nothing is refused, what is surely a command is asked
/// about, what may be one is looked for, and the rest is a prompt, its words joined by
/// spaces.
pub proof fn law_runs_begin_with_the_first_word(argv: Seq<Seq<char>>)
    ensures
        run_step(Seq::empty()) == RunModel::Failed(
            "ai-run requires a command, or a natural-language description in quotes"@,
        ),
        argv.len() > 0 && reading_of(argv) == ReadingModel::Command ==> run_step(argv)
            == RunModel::Confirm(ActionModel::Run(argv)),
        argv.len() > 0 && reading_of(argv) == ReadingModel::Prompt ==> run_step(argv)
            == RunModel::CheckPrompt(joined(argv, seq![' '])),
        argv.len() > 0 && (reading_of(argv) is CommandIfFile || reading_of(argv) is CommandIfFound)
            ==> run_step(argv) == (RunModel::Classify { argv, reading: reading_of(argv) }),
        prompt_text(argv) == joined(argv, seq![' ']),
{
    reveal_strlit(" ");
    assert(" "@ =~= seq![' ']);
}

/// What became of a prompt is put before the user: a command and a correction are asked
/// about, a prompt that waits is told with its request and the minutes that it waits, and
/// a failure ends the run.
pub proof fn law_resolved_prompts_are_put_before_the_user(
    request_id: Seq<char>,
    argv: Seq<Seq<char>>,
    message: Seq<char>,
)
    ensures
        resolved_step(Ok(OutcomeModel::Resolved { request_id, argv })) == RunModel::Confirm(
            ActionModel::RunRequest { request_id, argv },
        ),
        resolved_step(
            Ok(OutcomeModel::LearnFromObservedCorrection { request_id, suggested_argv: argv }),
        ) == RunModel::Confirm(ActionModel::Learn { request_id, suggested_argv: argv }),
        resolved_step(Ok(OutcomeModel::Observing { request_id })) == RunModel::Said(
            seq![
                "no matching command template yet for this prompt (request_id="@ + request_id
                    + ")."@,
                "if you run the right command manually with ai-run in the next "@ + seq!['1', '0']
                    + " minutes, I'll remember it and offer to learn it the next time you ask this."@,
            ],
        ),
        resolved_step(Err(message)) == RunModel::Failed(
            "natural-language interpretation failed: "@ + message,
        ),
{
    reveal_with_fuel(nat_text, 3);
    assert(int_text(10) =~= seq!['1', '0']);
}

/// The verdict of the user decides: what was agreed to is done, what was not is left with a
/// word about it, and a signal ends the run.
pub proof fn law_verdicts_are_followed(
    request_id: Seq<char>,
    argv: Seq<Seq<char>>,
    context: Seq<char>,
)
    ensures
        decided_step(VerdictModel::Confirmed(ActionModel::Run(argv))) == RunModel::Execute(
            OrderModel { argv, request_id: None },
        ),
        decided_step(VerdictModel::Confirmed(ActionModel::RunRequest { request_id, argv }))
            == RunModel::Execute(OrderModel { argv, request_id: Some(request_id) }),
        decided_step(
            VerdictModel::Confirmed(ActionModel::Learn { request_id, suggested_argv: argv }),
        ) == RunModel::Learn(LessonModel { request_id, command: shell_line_of(argv) }),
        decided_step(VerdictModel::Declined(ActionModel::Run(argv))) == RunModel::Said(
            seq!["aborted"@],
        ),
        decided_step(VerdictModel::Declined(ActionModel::RunRequest { request_id, argv }))
            == RunModel::Said(seq!["aborted"@]),
        decided_step(
            VerdictModel::Declined(ActionModel::Learn { request_id, suggested_argv: argv }),
        ) == RunModel::Said(seq!["not learned; you can ask again later"@]),
        decided_step(VerdictModel::Interrupted(context)) == RunModel::Failed(context),
{
}

/// A command that ran and succeeded approves its request, or is observed where it has none;
/// any other ends the run as a failure.
pub proof fn law_successful_commands_are_followed_up(
    order: OrderModel,
    result: Result<ExecutionResult, ExecuteError>,
)
    ensures
        result is Ok && result->Ok_0.success && order.request_id is Some ==> executed_step(
            order,
            result,
        ) == RunModel::Approve(order.request_id->0),
        result is Ok && result->Ok_0.success && order.request_id is None ==> executed_step(
            order,
            result,
        ) == RunModel::Observe(order.argv),
        !(result is Ok && result->Ok_0.success) ==> executed_step(order, result)
            == RunModel::Failed(run_failure(result)->0),
{
}

}
