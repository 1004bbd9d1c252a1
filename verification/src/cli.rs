//! The command line: what the user asked for, and what the user is asked.
use crate::execute::{
    execute_fault_text, exit_text, require_success, ExecuteError, ExecutionResult,
};
use crate::json::{
    decode_string_map, decode_strings, encode_strings_pretty, json_string_map, json_strings,
    pretty_strings_json, string_map,
};
use crate::number::{int_text, push_u64};
use crate::path_validate::{is_plain, law_previews_are_harmless, preview_text};
use crate::pipeline::ResolvedCommand;
use crate::policy::sanitize_preview_tokens;
use crate::shell::{command_line, shell_line_of};
use crate::text::{
    includes_char, is_blank, join_texts, joined, same_text, starts_with_char, text_is_blank, texts,
    trim_text, trimmed,
};
use crate::text_map::TextMap;
use vstd::prelude::*;

verus! {

// ---------------------------------------------------------------------------
// Commands
// ---------------------------------------------------------------------------

/// A command of the program.
#[derive(Debug, Clone, Copy, PartialEq, Eq, Structural)]
pub enum CliCommand {
    Init,
    CaptureSession,
    RecordSession,
    AiRun,
    ExecuteArgv,
    AiLearn,
    ValidateSlots,
    ValidatePath,
    AuditPolicy,
    PreviewToken,
    PreviewArgv,
    Help,
}

/// The command that a word names.
pub open spec fn command_named(word: Seq<char>) -> Option<CliCommand> {
    if word == "init"@ {
        Some(CliCommand::Init)
    } else if word == "capture-session"@ {
        Some(CliCommand::CaptureSession)
    } else if word == "record-session"@ {
        Some(CliCommand::RecordSession)
    } else if word == "ai-run"@ {
        Some(CliCommand::AiRun)
    } else if word == "execute-argv"@ {
        Some(CliCommand::ExecuteArgv)
    } else if word == "ai-learn"@ {
        Some(CliCommand::AiLearn)
    } else if word == "validate-slots"@ {
        Some(CliCommand::ValidateSlots)
    } else if word == "validate-path"@ {
        Some(CliCommand::ValidatePath)
    } else if word == "audit-policy"@ {
        Some(CliCommand::AuditPolicy)
    } else if word == "preview-token"@ {
        Some(CliCommand::PreviewToken)
    } else if word == "preview-argv"@ {
        Some(CliCommand::PreviewArgv)
    } else if word == "help"@ || word == "--help"@ || word == "-h"@ {
        Some(CliCommand::Help)
    } else {
        None
    }
}

/// Reads the command; without a word it is the initialisation.
pub fn parse_command(word: Option<&str>) -> (result: Result<CliCommand, String>)
    ensures
        match word {
            None => result == Ok::<CliCommand, String>(CliCommand::Init),
            Some(word) => match command_named(word@) {
                Some(command) => result == Ok::<CliCommand, String>(command),
                None => result is Err && result->Err_0@ == "unknown command '"@ + word@
                    + "'; run cli-agent help"@,
            },
        },
{
    let word = match word {
        Some(word) => word,
        None => {
            return Ok(CliCommand::Init);
        },
    };
    if same_text(word, "init") {
        Ok(CliCommand::Init)
    } else if same_text(word, "capture-session") {
        Ok(CliCommand::CaptureSession)
    } else if same_text(word, "record-session") {
        Ok(CliCommand::RecordSession)
    } else if same_text(word, "ai-run") {
        Ok(CliCommand::AiRun)
    } else if same_text(word, "execute-argv") {
        Ok(CliCommand::ExecuteArgv)
    } else if same_text(word, "ai-learn") {
        Ok(CliCommand::AiLearn)
    } else if same_text(word, "validate-slots") {
        Ok(CliCommand::ValidateSlots)
    } else if same_text(word, "validate-path") {
        Ok(CliCommand::ValidatePath)
    } else if same_text(word, "audit-policy") {
        Ok(CliCommand::AuditPolicy)
    } else if same_text(word, "preview-token") {
        Ok(CliCommand::PreviewToken)
    } else if same_text(word, "preview-argv") {
        Ok(CliCommand::PreviewArgv)
    } else if same_text(word, "help") || same_text(word, "--help") || same_text(word, "-h") {
        Ok(CliCommand::Help)
    } else {
        Err("unknown command '".to_owned().concat(word).concat("'; run cli-agent help"))
    }
}

// ---------------------------------------------------------------------------
// Commands or prompts
// ---------------------------------------------------------------------------

/// A word that is a command although no file of that name is in the search path.
pub open spec fn is_builtin(word: Seq<char>) -> bool {
    ||| word == "cd"@
    ||| word == "pwd"@
    ||| word == "exit"@
    ||| word == "true"@
    ||| word == "false"@
}

/// How it is found out whether the words of a user are a command or a prompt.
#[derive(Debug, Clone, PartialEq, Eq)]
pub enum Reading {
    /// They are a command.
    Command,
    /// They are a prompt.
    Prompt,
    /// They are a command if there is an executable file at the path.
    CommandIfFile(String),
    /// They are a command if the search path holds an executable file of the name.
    CommandIfFound(String),
}

/// What a [`Reading`] says.
pub ghost enum ReadingModel {
    Command,
    Prompt,
    CommandIfFile(Seq<char>),
    CommandIfFound(Seq<char>),
}

impl View for Reading {
    type V = ReadingModel;

    open spec fn view(&self) -> ReadingModel {
        match self {
            Reading::Command => ReadingModel::Command,
            Reading::Prompt => ReadingModel::Prompt,
            Reading::CommandIfFile(path) => ReadingModel::CommandIfFile(path@),
            Reading::CommandIfFound(name) => ReadingModel::CommandIfFound(name@),
        }
    }
}

/// How words are read. Only the first of them decides.
pub open spec fn reading_of(argv: Seq<Seq<char>>) -> ReadingModel {
    if argv.len() == 0 || argv[0].len() == 0 || argv[0][0] == '-' {
        ReadingModel::Prompt
    } else if is_builtin(argv[0]) {
        ReadingModel::Command
    } else if argv[0].contains('/') {
        ReadingModel::CommandIfFile(argv[0])
    } else {
        ReadingModel::CommandIfFound(argv[0])
    }
}

/// Finds out how words are read.
pub fn looks_like_executable_argv(argv: &Vec<String>) -> (reading: Reading)
    ensures
        reading@ == reading_of(texts(argv@)),
{
    if argv.len() == 0 {
        return Reading::Prompt;
    }
    let first = argv[0].as_str();
    assert(texts(argv@)[0] == first@);
    if first.is_empty() || starts_with_char(first, '-') {
        return Reading::Prompt;
    }
    if same_text(first, "cd") || same_text(first, "pwd") || same_text(first, "exit") || same_text(
        first,
        "true",
    ) || same_text(first, "false") {
        return Reading::Command;
    }
    if includes_char(first, '/') {
        return Reading::CommandIfFile(argv[0].clone());
    }
    Reading::CommandIfFound(argv[0].clone())
}

/// Whether what stands at a path can be run: a file with a permission to execute it, be it
/// for its owner, its group or others.
pub fn is_executable(is_file: bool, mode: u32) -> (b: bool)
    ensures
        b == (is_file && mode & 0o111 != 0),
{
    is_file && mode & 0o111 != 0
}

/// The prompt that words make.
pub fn prompt_of(argv: &Vec<String>) -> (prompt: String)
    ensures
        prompt@ == joined(texts(argv@), " "@),
{
    join_texts(argv, " ")
}

/// Refuses to run nothing.
pub fn require_words(argv: &Vec<String>) -> (result: Result<(), String>)
    ensures
        match result {
            Ok(()) => argv@.len() > 0,
            Err(message) => argv@.len() == 0 && message@
                == "ai-run requires a command, or a natural-language description in quotes"@,
        },
{
    if argv.len() == 0 {
        Err("ai-run requires a command, or a natural-language description in quotes".to_owned())
    } else {
        Ok(())
    }
}

// ---------------------------------------------------------------------------
// Learning on request
// ---------------------------------------------------------------------------

/// What the user asks to learn.
#[derive(Debug, Clone, PartialEq, Eq)]
pub struct LearnArgs {
    pub request_id: String,
    pub corrected_command: String,
}

/// The request and the words of the corrected command. Options stand before the command;
/// an option without a value takes the request away again.
pub open spec fn learn_words(args: Seq<Seq<char>>, request_id: Option<Seq<char>>) -> (
    Option<Seq<char>>,
    Seq<Seq<char>>,
)
    decreases args.len(),
{
    if args.len() == 0 {
        (request_id, Seq::empty())
    } else if args[0] == "--request-id"@ {
        if args.len() == 1 {
            (None, Seq::empty())
        } else {
            learn_words(args.skip(2), Some(args[1]))
        }
    } else {
        (request_id, args)
    }
}

/// What a [`LearnArgs`] says.
pub ghost struct LearnArgsModel {
    pub request_id: Seq<char>,
    pub command: Seq<char>,
}

impl View for LearnArgs {
    type V = LearnArgsModel;

    open spec fn view(&self) -> LearnArgsModel {
        LearnArgsModel { request_id: self.request_id@, command: self.corrected_command@ }
    }
}

/// What the words of a user ask to learn, or why they ask for nothing.
pub open spec fn learn_args(args: Seq<Seq<char>>) -> Result<LearnArgsModel, Seq<char>> {
    let (request_id, corrected) = learn_words(args, None);
    match request_id {
        None => Err("ai-learn requires --request-id <id>"@),
        Some(request_id) => if is_blank(joined(corrected, " "@)) {
            Err("ai-learn requires a corrected command string"@)
        } else {
            Ok(LearnArgsModel { request_id, command: joined(corrected, " "@) })
        },
    }
}

/// Reads what the user asks to learn.
pub fn ai_learn(args: &Vec<String>) -> (result: Result<LearnArgs, String>)
    ensures
        match result {
            Ok(asked) => learn_args(texts(args@)) == Ok::<LearnArgsModel, Seq<char>>(asked@),
            Err(message) => learn_args(texts(args@)) == Err::<LearnArgsModel, Seq<char>>(message@),
        },
{
    let ghost source = texts(args@);
    let mut request_id: Option<String> = None;
    let mut corrected: Vec<String> = Vec::new();
    let mut i: usize = 0;
    let ghost mut held: Option<Seq<char>> = None;
    assert(source.skip(0) =~= source);
    while i < args.len() && same_text(args[i].as_str(), "--request-id")
        invariant
            source == texts(args@),
            i <= args@.len(),
            held == match request_id {
                Some(id) => Some(id@),
                None => None,
            },
            learn_words(source, None) == learn_words(source.skip(i as int), held),
        decreases args@.len() - i,
    {
        proof {
            assert(source.skip(i as int)[0] == args@[i as int]@);
        }
        if i < args.len() - 1 {
            proof {
                assert(source.skip(i as int)[1] == args@[i + 1]@);
                assert(source.skip(i as int).skip(2) =~= source.skip(i + 2));
                held = Some(args@[i + 1]@);
            }
            request_id = Some(args[i + 1].clone());
            i += 2;
        } else {
            assert(learn_words(source, None) == (None::<Seq<char>>, Seq::<Seq<char>>::empty()));
            return Err("ai-learn requires --request-id <id>".to_owned());
        }
    }
    let ghost rest = source.skip(i as int);
    let ghost start = i;
    proof {
        if i < args@.len() {
            assert(rest[0] == args@[i as int]@);
        }
        assert(texts(corrected@) =~= rest.take(0));
    }
    while i < args.len()
        invariant
            source == texts(args@),
            start <= i <= args@.len(),
            rest == source.skip(start as int),
            texts(corrected@) == rest.take(i - start),
        decreases args@.len() - i,
    {
        let ghost before = texts(corrected@);
        corrected.push(args[i].clone());
        proof {
            assert(texts(corrected@) =~= before.push(args@[i as int]@));
            assert(rest.take(i - start + 1) =~= rest.take(i - start).push(args@[i as int]@));
        }
        i += 1;
    }
    assert(rest.take(rest.len() as int) =~= rest);
    assert(learn_words(source, None) == (held, rest));
    let request_id = match request_id {
        Some(id) => id,
        None => {
            return Err("ai-learn requires --request-id <id>".to_owned());
        },
    };
    let corrected_command = join_texts(&corrected, " ");
    if text_is_blank(corrected_command.as_str()) {
        return Err("ai-learn requires a corrected command string".to_owned());
    }
    Ok(LearnArgs { request_id, corrected_command })
}

// ---------------------------------------------------------------------------
// Arguments in JSON
// ---------------------------------------------------------------------------

/// Reads an argument list that is written as JSON.
pub fn decode_argv(argv_json: &str) -> (result: Result<Vec<String>, String>)
    ensures
        match json_strings(argv_json@) {
            Ok(argv) => result is Ok && texts(result->Ok_0@) == argv,
            Err(message) => result is Err && result->Err_0@ == "argv must be a JSON string array: "@
                + message,
        },
{
    match decode_strings(argv_json) {
        Ok(argv) => Ok(argv),
        Err(message) => Err(
            "argv must be a JSON string array: ".to_owned().concat(message.as_str()),
        ),
    }
}

/// Reads an environment that is written as JSON.
pub fn decode_env(env_json: &str) -> (result: Result<TextMap<String>, String>)
    ensures
        match json_string_map(env_json@) {
            Ok(env) => result is Ok && result->Ok_0.wf() && string_map(result->Ok_0@) == env,
            Err(message) => result is Err && result->Err_0@ == "env must be a JSON string object: "@
                + message,
        },
{
    match decode_string_map(env_json) {
        Ok(env) => Ok(env),
        Err(message) => Err(
            "env must be a JSON string object: ".to_owned().concat(message.as_str()),
        ),
    }
}

/// Writes what a terminal may show of an argument list that is written as JSON, as JSON.
pub fn preview_argv(argv_json: &str) -> (result: Result<String, String>)
    ensures
        match json_strings(argv_json@) {
            Ok(argv) => result is Ok && result->Ok_0@ == pretty_strings_json(
                argv.map_values(|token: Seq<char>| preview_text(token)),
            ),
            Err(message) => result is Err && result->Err_0@ == "argv must be a JSON string array: "@
                + message,
        },
{
    match decode_argv(argv_json) {
        Ok(argv) => Ok(encode_strings_pretty(&sanitize_preview_tokens(&argv))),
        Err(message) => Err(message),
    }
}

// ---------------------------------------------------------------------------
// Previews and questions
// ---------------------------------------------------------------------------

/// The line of a preview that shows an argument.
pub open spec fn preview_line(index: nat, token: Seq<char>) -> Seq<char> {
    "\x1b[36m│\x1b[0m argv["@ + int_text(index as int) + "] = \x1b[1m"@ + preview_text(token)
        + "\x1b[0m"@
}

/// The lines of the preview of an argument list.
pub open spec fn preview_lines(argv: Seq<Seq<char>>) -> Seq<Seq<char>> {
    seq!["\x1b[1;36m┌─ semantic-cli-agent preview ─┐\x1b[0m"@] + Seq::new(
        argv.len(),
        |i: int| preview_line(i as nat, argv[i]),
    ) + seq!["\x1b[1;36m└──────────────────────────────┘\x1b[0m"@]
}

/// Writes the preview of an argument list.
pub fn render_preview(argv: &Vec<String>) -> (lines: Vec<String>)
    ensures
        texts(lines@) == preview_lines(texts(argv@)),
{
    let shown = sanitize_preview_tokens(argv);
    let ghost source = texts(argv@);
    let ghost head = "\x1b[1;36m┌─ semantic-cli-agent preview ─┐\x1b[0m"@;
    let mut lines: Vec<String> = Vec::new();
    lines.push("\x1b[1;36m┌─ semantic-cli-agent preview ─┐\x1b[0m".to_owned());
    assert(texts(shown@).len() == shown@.len());
    let mut i: usize = 0;
    while i < shown.len()
        invariant
            source == texts(argv@),
            shown@.len() == source.len(),
            texts(shown@) == source.map_values(|token: Seq<char>| preview_text(token)),
            i <= shown@.len(),
            lines@.len() == i + 1,
            lines@[0]@ == head,
            forall|j: int|
                0 <= j < i ==> (#[trigger] lines@[j + 1])@ == preview_line(j as nat, source[j]),
        decreases shown@.len() - i,
    {
        assert(texts(shown@)[i as int] == shown@[i as int]@);
        let mut index = String::new();
        push_u64(&mut index, i as u64);
        assert(index@ =~= int_text(i as int));
        let ghost before = lines@;
        lines.push(
            "\x1b[36m│\x1b[0m argv[".to_owned().concat(index.as_str()).concat(
                "] = \x1b[1m",
            ).concat(shown[i].as_str()).concat("\x1b[0m"),
        );
        proof {
            assert forall|j: int| 0 <= j < i + 1 implies (#[trigger] lines@[j + 1])@
                == preview_line(j as nat, source[j]) by {
                if j < i {
                    assert(lines@[j + 1] == before[j + 1]);
                }
            }
        }
        i += 1;
    }
    let ghost before = lines@;
    lines.push("\x1b[1;36m└──────────────────────────────┘\x1b[0m".to_owned());
    proof {
        let wanted = preview_lines(source);
        assert(wanted.len() == lines@.len());
        assert forall|k: int| 0 <= k < wanted.len() implies texts(lines@)[k] == wanted[k] by {
            if 0 < k < wanted.len() - 1 {
                assert(lines@[(k - 1) + 1] == before[k]);
                assert(before[(k - 1) + 1]@ == preview_line((k - 1) as nat, source[k - 1]));
            }
        }
        assert(texts(lines@) =~= wanted);
    }
    lines
}

/// The answer agrees.
pub open spec fn is_yes(answer: Seq<char>) -> bool {
    let word = trimmed(answer);
    word == "y"@ || word == "Y"@ || word == "yes"@ || word == "YES"@
}

fn agrees(answer: &str) -> (b: bool)
    ensures
        b == is_yes(answer@),
{
    let word = trim_text(answer);
    same_text(word.as_str(), "y") || same_text(word.as_str(), "Y") || same_text(
        word.as_str(),
        "yes",
    ) || same_text(word.as_str(), "YES")
}

// ---------------------------------------------------------------------------
// Confirmation
// ---------------------------------------------------------------------------

/// Something that is done only when the user agrees.
#[derive(Debug, PartialEq, Eq)]
pub enum Action {
    /// Run the words of the user.
    Run(Vec<String>),
    /// Run the command of a request.
    RunRequest(ResolvedCommand),
    /// Learn the correction of a request.
    Learn { request_id: String, suggested_argv: Vec<String> },
}

/// What an [`Action`] says.
pub ghost enum ActionModel {
    Run(Seq<Seq<char>>),
    RunRequest { request_id: Seq<char>, argv: Seq<Seq<char>> },
    Learn { request_id: Seq<char>, suggested_argv: Seq<Seq<char>> },
}

impl View for Action {
    type V = ActionModel;

    open spec fn view(&self) -> ActionModel {
        match self {
            Action::Run(argv) => ActionModel::Run(texts(argv@)),
            Action::RunRequest(command) => ActionModel::RunRequest {
                request_id: command.request_id@,
                argv: texts(command.argv@),
            },
            Action::Learn { request_id, suggested_argv } => ActionModel::Learn {
                request_id: request_id@,
                suggested_argv: texts(suggested_argv@),
            },
        }
    }
}

impl ActionModel {
    /// The argument list that the user is shown.
    pub open spec fn argv(self) -> Seq<Seq<char>> {
        match self {
            ActionModel::Run(argv) => argv,
            ActionModel::RunRequest { argv, .. } => argv,
            ActionModel::Learn { suggested_argv, .. } => suggested_argv,
        }
    }

    /// The question that the user is asked.
    pub open spec fn question(self) -> Seq<char> {
        match self {
            ActionModel::Learn { suggested_argv, .. } => "I observed you manually run \""@
                + shell_line_of(suggested_argv.map_values(|token: Seq<char>| preview_text(token)))
                + "\" after this query last time. Learn it as a template? [y/N]: "@,
            _ => "Execute? [y/N]: "@,
        }
    }

    /// What is reported of a signal that comes before the question.
    pub open spec fn stopped_before(self) -> Seq<char> {
        match self {
            ActionModel::Learn { .. } => "interrupted before learn confirmation"@,
            _ => "interrupted before confirmation"@,
        }
    }

    /// What is reported of a signal that comes after the answer.
    pub open spec fn stopped_after(self) -> Seq<char> {
        match self {
            ActionModel::Learn { .. } => "interrupted before learning"@,
            _ => "interrupted before execution"@,
        }
    }
}

/// An action that the user was not asked about yet.
#[derive(Debug, PartialEq, Eq)]
pub struct Proposed {
    action: Action,
}

/// An action that the user is about to be asked about.
#[derive(Debug, PartialEq, Eq)]
pub struct Asking {
    action: Action,
}

/// An action whose answer is awaited.
#[derive(Debug, PartialEq, Eq)]
pub struct Answering {
    action: Action,
}

/// An action that the user agreed to.
#[derive(Debug, PartialEq, Eq)]
pub struct Agreed {
    action: Action,
}

impl View for Proposed {
    type V = ActionModel;

    closed spec fn view(&self) -> ActionModel {
        self.action@
    }
}

impl View for Asking {
    type V = ActionModel;

    closed spec fn view(&self) -> ActionModel {
        self.action@
    }
}

impl View for Answering {
    type V = ActionModel;

    closed spec fn view(&self) -> ActionModel {
        self.action@
    }
}

impl View for Agreed {
    type V = ActionModel;

    closed spec fn view(&self) -> ActionModel {
        self.action@
    }
}

/// How a confirmation ends.
#[derive(Debug, PartialEq, Eq)]
pub enum Verdict {
    Confirmed(Action),
    Declined(Action),
    Interrupted(String),
}

/// What a [`Verdict`] says.
pub ghost enum VerdictModel {
    Confirmed(ActionModel),
    Declined(ActionModel),
    Interrupted(Seq<char>),
}

impl View for Verdict {
    type V = VerdictModel;

    open spec fn view(&self) -> VerdictModel {
        match self {
            Verdict::Confirmed(action) => VerdictModel::Confirmed(action@),
            Verdict::Declined(action) => VerdictModel::Declined(action@),
            Verdict::Interrupted(context) => VerdictModel::Interrupted(context@),
        }
    }
}

/// What a confirmation asks for next, or how it ends.
#[derive(Debug, PartialEq, Eq)]
pub enum ConfirmStep {
    /// Show the preview, if there is one yet, and look for a signal.
    CheckBefore(Proposed),
    /// Show the preview, if it is still to be shown, and the question, then look for a
    /// signal.
    Ask(Asking),
    /// Read an answer, then look for a signal.
    Read(Answering),
    /// Look for a signal.
    CheckAfter(Agreed),
    /// The user agreed or not, or a signal came.
    Done(Verdict),
}

/// What a [`ConfirmStep`] says.
pub ghost enum ConfirmModel {
    CheckBefore(ActionModel),
    Ask(ActionModel),
    Read(ActionModel),
    CheckAfter(ActionModel),
    Done(VerdictModel),
}

impl View for ConfirmStep {
    type V = ConfirmModel;

    open spec fn view(&self) -> ConfirmModel {
        match self {
            ConfirmStep::CheckBefore(state) => ConfirmModel::CheckBefore(state@),
            ConfirmStep::Ask(state) => ConfirmModel::Ask(state@),
            ConfirmStep::Read(state) => ConfirmModel::Read(state@),
            ConfirmStep::CheckAfter(state) => ConfirmModel::CheckAfter(state@),
            ConfirmStep::Done(verdict) => ConfirmModel::Done(verdict@),
        }
    }
}

/// The step after a signal was looked for before the question.
pub open spec fn before_step(action: ActionModel, interrupted: bool) -> ConfirmModel {
    if interrupted {
        ConfirmModel::Done(VerdictModel::Interrupted(action.stopped_before()))
    } else {
        ConfirmModel::Ask(action)
    }
}

/// The step after the question was shown.
pub open spec fn asked_step(action: ActionModel, interrupted: bool) -> ConfirmModel {
    if interrupted {
        ConfirmModel::Done(VerdictModel::Interrupted("interrupted during confirmation"@))
    } else {
        ConfirmModel::Read(action)
    }
}

/// The step after an answer was read.
pub open spec fn read_step(action: ActionModel, answer: Seq<char>, interrupted: bool) -> ConfirmModel {
    if interrupted {
        ConfirmModel::Done(VerdictModel::Interrupted("interrupted during confirmation"@))
    } else if is_yes(answer) {
        ConfirmModel::CheckAfter(action)
    } else {
        ConfirmModel::Done(VerdictModel::Declined(action))
    }
}

/// The step after a signal was looked for behind the answer.
pub open spec fn after_step(action: ActionModel, interrupted: bool) -> ConfirmModel {
    if interrupted {
        ConfirmModel::Done(VerdictModel::Interrupted(action.stopped_after()))
    } else {
        ConfirmModel::Done(VerdictModel::Confirmed(action))
    }
}

/// Begins to ask the user about an action.
pub fn confirm(action: Action) -> (step: ConfirmStep)
    ensures
        step@ == ConfirmModel::CheckBefore(action@),
{
    ConfirmStep::CheckBefore(Proposed { action })
}

fn no_lines() -> (lines: Vec<String>)
    ensures
        texts(lines@) == Seq::<Seq<char>>::empty(),
{
    let lines: Vec<String> = Vec::new();
    assert(texts(lines@) =~= Seq::<Seq<char>>::empty());
    lines
}

impl Proposed {
    /// The lines to show at once: the words of the user are shown before anything else.
    pub fn preview(&self) -> (lines: Vec<String>)
        ensures
            texts(lines@) == if self@ is Run {
                preview_lines(self@.argv())
            } else {
                Seq::empty()
            },
    {
        match &self.action {
            Action::Run(argv) => render_preview(argv),
            _ => no_lines(),
        }
    }

    /// Goes on once a signal was looked for.
    pub fn checked(self, interrupted: bool) -> (step: ConfirmStep)
        ensures
            step@ == before_step(self@, interrupted),
    {
        if interrupted {
            let context = match self.action {
                Action::Learn { .. } => "interrupted before learn confirmation".to_owned(),
                _ => "interrupted before confirmation".to_owned(),
            };
            ConfirmStep::Done(Verdict::Interrupted(context))
        } else {
            ConfirmStep::Ask(Asking { action: self.action })
        }
    }
}

impl Asking {
    /// The lines to show before the question: what is asked about, unless the user has
    /// seen it already.
    pub fn preview(&self) -> (lines: Vec<String>)
        ensures
            texts(lines@) == if self@ is Run {
                Seq::empty()
            } else {
                preview_lines(self@.argv())
            },
    {
        match &self.action {
            Action::Run(_) => no_lines(),
            Action::RunRequest(command) => render_preview(&command.argv),
            Action::Learn { suggested_argv, .. } => render_preview(suggested_argv),
        }
    }

    /// The question.
    pub fn question(&self) -> (text: String)
        ensures
            text@ == self@.question(),
    {
        match &self.action {
            Action::Learn { suggested_argv, .. } => {
                let shown = sanitize_preview_tokens(suggested_argv);
                "I observed you manually run \"".to_owned().concat(
                    command_line(&shown).as_str(),
                ).concat("\" after this query last time. Learn it as a template? [y/N]: ")
            },
            _ => "Execute? [y/N]: ".to_owned(),
        }
    }

    /// Goes on once the question was shown.
    pub fn asked(self, interrupted: bool) -> (step: ConfirmStep)
        ensures
            step@ == asked_step(self@, interrupted),
    {
        if interrupted {
            ConfirmStep::Done(Verdict::Interrupted("interrupted during confirmation".to_owned()))
        } else {
            ConfirmStep::Read(Answering { action: self.action })
        }
    }
}

impl Answering {
    /// Goes on once an answer was read.
    pub fn answered(self, answer: &str, interrupted: bool) -> (step: ConfirmStep)
        ensures
            step@ == read_step(self@, answer@, interrupted),
    {
        if interrupted {
            ConfirmStep::Done(Verdict::Interrupted("interrupted during confirmation".to_owned()))
        } else if agrees(answer) {
            ConfirmStep::CheckAfter(Agreed { action: self.action })
        } else {
            ConfirmStep::Done(Verdict::Declined(self.action))
        }
    }
}

impl Agreed {
    /// Ends once a signal was looked for.
    pub fn checked(self, interrupted: bool) -> (step: ConfirmStep)
        ensures
            step@ == after_step(self@, interrupted),
    {
        if interrupted {
            let context = match self.action {
                Action::Learn { .. } => "interrupted before learning".to_owned(),
                _ => "interrupted before execution".to_owned(),
            };
            ConfirmStep::Done(Verdict::Interrupted(context))
        } else {
            ConfirmStep::Done(Verdict::Confirmed(self.action))
        }
    }
}

// ---------------------------------------------------------------------------
// After a command
// ---------------------------------------------------------------------------

/// What is left to do once a command has run.
#[derive(Debug, PartialEq, Eq)]
pub enum FollowUp {
    /// Note the words of the user as a correction, if one is awaited.
    Observe(Vec<String>),
    /// Approve the request.
    Approve(String),
    /// The command did not run, or it failed.
    Fail(String),
}

/// What a [`FollowUp`] says.
pub ghost enum FollowUpModel {
    Observe(Seq<Seq<char>>),
    Approve(Seq<char>),
    Fail(Seq<char>),
}

impl View for FollowUp {
    type V = FollowUpModel;

    open spec fn view(&self) -> FollowUpModel {
        match self {
            FollowUp::Observe(argv) => FollowUpModel::Observe(texts(argv@)),
            FollowUp::Approve(request_id) => FollowUpModel::Approve(request_id@),
            FollowUp::Fail(message) => FollowUpModel::Fail(message@),
        }
    }
}

/// How the run of a command ended.
pub open spec fn run_failure(result: Result<ExecutionResult, ExecuteError>) -> Option<Seq<char>> {
    match result {
        Err(error) => Some("child process execution failed: "@ + execute_fault_text(error@)),
        Ok(result) => if result.success {
            None
        } else {
            Some(exit_text(result.status_code))
        },
    }
}

fn failure_of(result: Result<ExecutionResult, ExecuteError>) -> (failure: Option<String>)
    ensures
        match failure {
            Some(message) => run_failure(result) == Some(message@),
            None => run_failure(result) is None,
        },
{
    match result {
        Err(error) => Some(
            "child process execution failed: ".to_owned().concat(error.message().as_str()),
        ),
        Ok(result) => match require_success(&result) {
            Ok(()) => None,
            Err(message) => Some(message),
        },
    }
}

/// Decides what follows the words of the user: only a command that succeeded is a
/// correction.
pub fn after_run(argv: Vec<String>, result: Result<ExecutionResult, ExecuteError>) -> (next: FollowUp)
    ensures
        next@ == match run_failure(result) {
            Some(message) => FollowUpModel::Fail(message),
            None => FollowUpModel::Observe(texts(argv@)),
        },
{
    match failure_of(result) {
        Some(message) => FollowUp::Fail(message),
        None => FollowUp::Observe(argv),
    }
}

/// Decides what follows the command of a request: only one that succeeded is approved.
pub fn after_request(
    command: ResolvedCommand,
    result: Result<ExecutionResult, ExecuteError>,
) -> (next: FollowUp)
    ensures
        next@ == match run_failure(result) {
            Some(message) => FollowUpModel::Fail(message),
            None => FollowUpModel::Approve(command.request_id@),
        },
{
    match failure_of(result) {
        Some(message) => FollowUp::Fail(message),
        None => FollowUp::Approve(command.request_id),
    }
}

// ---------------------------------------------------------------------------
// Laws
// ---------------------------------------------------------------------------

/// Nothing is done unless the user agrees and no signal comes: an action is confirmed
/// only by the answer yes, with no signal before the question, during the question,
/// during the answer or after it. It is the action that was asked about.
pub proof fn law_only_a_yes_confirms(
    action: ActionModel,
    before: bool,
    asked: bool,
    answer: Seq<char>,
    answered: bool,
    after: bool,
)
    ensures
        !before && !asked && !answered && !after && is_yes(answer) <==> ({
            &&& before_step(action, before) == ConfirmModel::Ask(action)
            &&& asked_step(action, asked) == ConfirmModel::Read(action)
            &&& read_step(action, answer, answered) == ConfirmModel::CheckAfter(action)
            &&& after_step(action, after) == ConfirmModel::Done(VerdictModel::Confirmed(action))
        }),
{
}

/// Every line that shows an argument shows its preview, so that no character of an
/// argument reaches the terminal that could steer it.
pub proof fn law_previews_show_harmless_tokens(argv: Seq<Seq<char>>, i: int, k: int)
    requires
        0 <= i < argv.len(),
        0 <= k < preview_text(argv[i]).len(),
    ensures
        preview_lines(argv)[i + 1] == preview_line(i as nat, argv[i]),
        is_plain(preview_text(argv[i])[k]),
{
    law_previews_are_harmless(argv[i], k);
}

/// A command has one word, but for the help, which has three; any other word is unknown.
pub proof fn law_commands_have_their_words(word: Seq<char>)
    ensures
        word == "init"@ ==> command_named(word) == Some(CliCommand::Init),
        word == "capture-session"@ ==> command_named(word) == Some(CliCommand::CaptureSession),
        word == "record-session"@ ==> command_named(word) == Some(CliCommand::RecordSession),
        word == "ai-run"@ ==> command_named(word) == Some(CliCommand::AiRun),
        word == "execute-argv"@ ==> command_named(word) == Some(CliCommand::ExecuteArgv),
        word == "ai-learn"@ ==> command_named(word) == Some(CliCommand::AiLearn),
        word == "validate-slots"@ ==> command_named(word) == Some(CliCommand::ValidateSlots),
        word == "validate-path"@ ==> command_named(word) == Some(CliCommand::ValidatePath),
        word == "audit-policy"@ ==> command_named(word) == Some(CliCommand::AuditPolicy),
        word == "preview-token"@ ==> command_named(word) == Some(CliCommand::PreviewToken),
        word == "preview-argv"@ ==> command_named(word) == Some(CliCommand::PreviewArgv),
        word == "help"@ ==> command_named(word) == Some(CliCommand::Help),
        word == "--help"@ ==> command_named(word) == Some(CliCommand::Help),
        word == "-h"@ ==> command_named(word) == Some(CliCommand::Help),
        command_named(word) is None <==> word != "init"@
            && word != "capture-session"@
            && word != "record-session"@
            && word != "ai-run"@
            && word != "execute-argv"@
            && word != "ai-learn"@
            && word != "validate-slots"@
            && word != "validate-path"@
            && word != "audit-policy"@
            && word != "preview-token"@
            && word != "preview-argv"@
            && word != "help"@
            && word != "--help"@
            && word != "-h"@,
{
    reveal_strlit("init");
    reveal_strlit("capture-session");
    reveal_strlit("record-session");
    reveal_strlit("ai-run");
    reveal_strlit("execute-argv");
    reveal_strlit("ai-learn");
    reveal_strlit("validate-slots");
    reveal_strlit("validate-path");
    reveal_strlit("audit-policy");
    reveal_strlit("preview-token");
    reveal_strlit("preview-argv");
    reveal_strlit("help");
    reveal_strlit("--help");
    reveal_strlit("-h");
    assert("init"@.len() == 4);
    assert("capture-session"@.len() == 15);
    assert("record-session"@.len() == 14);
    assert("ai-run"@.len() == 6);
    assert("execute-argv"@.len() == 12);
    assert("ai-learn"@.len() == 8);
    assert("validate-slots"@.len() == 14);
    assert("validate-path"@.len() == 13);
    assert("audit-policy"@.len() == 12);
    assert("preview-token"@.len() == 13);
    assert("preview-argv"@.len() == 12);
    assert("help"@.len() == 4);
    assert("--help"@.len() == 6);
    assert("-h"@.len() == 2);
    assert("init"@ != "capture-session"@);
    assert("init"@ != "record-session"@);
    assert("init"@ != "ai-run"@);
    assert("init"@ != "execute-argv"@);
    assert("init"@ != "ai-learn"@);
    assert("init"@ != "validate-slots"@);
    assert("init"@ != "validate-path"@);
    assert("init"@ != "audit-policy"@);
    assert("init"@ != "preview-token"@);
    assert("init"@ != "preview-argv"@);
    assert("init"@[0] == 'i');
    assert("help"@[0] == 'h');
    assert("init"@ != "help"@);
    assert("init"@ != "--help"@);
    assert("init"@ != "-h"@);
    assert("capture-session"@ != "record-session"@);
    assert("capture-session"@ != "ai-run"@);
    assert("capture-session"@ != "execute-argv"@);
    assert("capture-session"@ != "ai-learn"@);
    assert("capture-session"@ != "validate-slots"@);
    assert("capture-session"@ != "validate-path"@);
    assert("capture-session"@ != "audit-policy"@);
    assert("capture-session"@ != "preview-token"@);
    assert("capture-session"@ != "preview-argv"@);
    assert("capture-session"@ != "help"@);
    assert("capture-session"@ != "--help"@);
    assert("capture-session"@ != "-h"@);
    assert("record-session"@ != "ai-run"@);
    assert("record-session"@ != "execute-argv"@);
    assert("record-session"@ != "ai-learn"@);
    assert("record-session"@[0] == 'r');
    assert("validate-slots"@[0] == 'v');
    assert("record-session"@ != "validate-slots"@);
    assert("record-session"@ != "validate-path"@);
    assert("record-session"@ != "audit-policy"@);
    assert("record-session"@ != "preview-token"@);
    assert("record-session"@ != "preview-argv"@);
    assert("record-session"@ != "help"@);
    assert("record-session"@ != "--help"@);
    assert("record-session"@ != "-h"@);
    assert("ai-run"@ != "execute-argv"@);
    assert("ai-run"@ != "ai-learn"@);
    assert("ai-run"@ != "validate-slots"@);
    assert("ai-run"@ != "validate-path"@);
    assert("ai-run"@ != "audit-policy"@);
    assert("ai-run"@ != "preview-token"@);
    assert("ai-run"@ != "preview-argv"@);
    assert("ai-run"@ != "help"@);
    assert("ai-run"@[0] == 'a');
    assert("--help"@[0] == '-');
    assert("ai-run"@ != "--help"@);
    assert("ai-run"@ != "-h"@);
    assert("execute-argv"@ != "ai-learn"@);
    assert("execute-argv"@ != "validate-slots"@);
    assert("execute-argv"@ != "validate-path"@);
    assert("execute-argv"@[0] == 'e');
    assert("audit-policy"@[0] == 'a');
    assert("execute-argv"@ != "audit-policy"@);
    assert("execute-argv"@ != "preview-token"@);
    assert("preview-argv"@[0] == 'p');
    assert("execute-argv"@ != "preview-argv"@);
    assert("execute-argv"@ != "help"@);
    assert("execute-argv"@ != "--help"@);
    assert("execute-argv"@ != "-h"@);
    assert("ai-learn"@ != "validate-slots"@);
    assert("ai-learn"@ != "validate-path"@);
    assert("ai-learn"@ != "audit-policy"@);
    assert("ai-learn"@ != "preview-token"@);
    assert("ai-learn"@ != "preview-argv"@);
    assert("ai-learn"@ != "help"@);
    assert("ai-learn"@ != "--help"@);
    assert("ai-learn"@ != "-h"@);
    assert("validate-slots"@ != "validate-path"@);
    assert("validate-slots"@ != "audit-policy"@);
    assert("validate-slots"@ != "preview-token"@);
    assert("validate-slots"@ != "preview-argv"@);
    assert("validate-slots"@ != "help"@);
    assert("validate-slots"@ != "--help"@);
    assert("validate-slots"@ != "-h"@);
    assert("validate-path"@ != "audit-policy"@);
    assert("validate-path"@[0] == 'v');
    assert("preview-token"@[0] == 'p');
    assert("validate-path"@ != "preview-token"@);
    assert("validate-path"@ != "preview-argv"@);
    assert("validate-path"@ != "help"@);
    assert("validate-path"@ != "--help"@);
    assert("validate-path"@ != "-h"@);
    assert("audit-policy"@ != "preview-token"@);
    assert("audit-policy"@ != "preview-argv"@);
    assert("audit-policy"@ != "help"@);
    assert("audit-policy"@ != "--help"@);
    assert("audit-policy"@ != "-h"@);
    assert("preview-token"@ != "preview-argv"@);
    assert("preview-token"@ != "help"@);
    assert("preview-token"@ != "--help"@);
    assert("preview-token"@ != "-h"@);
    assert("preview-argv"@ != "help"@);
    assert("preview-argv"@ != "--help"@);
    assert("preview-argv"@ != "-h"@);
    assert("help"@ != "--help"@);
    assert("help"@ != "-h"@);
    assert("--help"@ != "-h"@);
}

/// The first word decides how words are read, by its characters alone. Nothing, an empty
/// word and one that begins with a hyphen make a prompt; five words are commands of the
/// shell; of the others, one that holds a slash anywhere is the path of a file, and one
/// that holds none is a name to look for.
pub proof fn law_words_are_read_by_the_first(argv: Seq<Seq<char>>, k: int)
    ensures
        reading_of(argv) == ReadingModel::Prompt <==> argv.len() == 0 || argv[0].len() == 0
            || argv[0][0] == '-',
        reading_of(argv) == ReadingModel::Command <==> argv.len() > 0 && (argv[0] == seq!['c', 'd']
            || argv[0] == seq!['p', 'w', 'd'] || argv[0] == seq!['e', 'x', 'i', 't'] || argv[0]
            == seq!['t', 'r', 'u', 'e'] || argv[0] == seq!['f', 'a', 'l', 's', 'e']),
        argv.len() > 0 && 0 <= k < argv[0].len() && argv[0][0] != '-' && argv[0][k] == '/'
            ==> reading_of(argv) == ReadingModel::CommandIfFile(argv[0]),
        reading_of(argv) is CommandIfFile ==> exists|i: int|
            0 <= i < argv[0].len() && #[trigger] argv[0][i] == '/',
        reading_of(argv) is CommandIfFound ==> reading_of(argv) == ReadingModel::CommandIfFound(
            argv[0],
        ) && forall|i: int| 0 <= i < argv[0].len() ==> #[trigger] argv[0][i] != '/',
{
    reveal_strlit("cd");
    reveal_strlit("pwd");
    reveal_strlit("exit");
    reveal_strlit("true");
    reveal_strlit("false");
    assert("cd"@ =~= seq!['c', 'd']);
    assert("pwd"@ =~= seq!['p', 'w', 'd']);
    assert("exit"@ =~= seq!['e', 'x', 'i', 't']);
    assert("true"@ =~= seq!['t', 'r', 'u', 'e']);
    assert("false"@ =~= seq!['f', 'a', 'l', 's', 'e']);
    if argv.len() > 0 && argv[0].len() > 0 {
        let word = argv[0];
        assert forall|i: int| 0 <= i < word.len() && word[i] == '/' implies !is_builtin(word) by {}
        if 0 <= k < word.len() && word[k] == '/' {
            assert(word.contains('/'));
        }
        if !word.contains('/') {
            assert forall|i: int| 0 <= i < word.len() implies #[trigger] word[i] != '/' by {
                if word[i] == '/' {
                    assert(word.contains(word[i]));
                }
            }
        }
    }
}

/// What is learnt is read from the left: a first word that is no option means that no
/// request is named; behind the option and its value comes the corrected command, its words
/// joined by spaces, unless it is blank; and where the option comes again, what stands
/// before it does not count.
pub proof fn law_learn_options_stand_before_the_command(id: Seq<char>, rest: Seq<Seq<char>>)
    ensures
        learn_args(Seq::empty()) == Err::<LearnArgsModel, Seq<char>>(
            "ai-learn requires --request-id <id>"@,
        ),
        rest.len() > 0 && rest[0] != "--request-id"@ ==> learn_args(rest) == Err::<
            LearnArgsModel,
            Seq<char>,
        >("ai-learn requires --request-id <id>"@),
        learn_args(seq!["--request-id"@]) == Err::<LearnArgsModel, Seq<char>>(
            "ai-learn requires --request-id <id>"@,
        ),
        rest.len() > 0 && rest[0] == "--request-id"@ ==> learn_args(
            seq!["--request-id"@, id] + rest,
        ) == learn_args(rest),
        (rest.len() == 0 || rest[0] != "--request-id"@) && is_blank(joined(rest, seq![' ']))
            ==> learn_args(seq!["--request-id"@, id] + rest) == Err::<LearnArgsModel, Seq<char>>(
            "ai-learn requires a corrected command string"@,
        ),
        (rest.len() == 0 || rest[0] != "--request-id"@) && !is_blank(joined(rest, seq![' ']))
            ==> learn_args(seq!["--request-id"@, id] + rest) == Ok::<LearnArgsModel, Seq<char>>(
            LearnArgsModel { request_id: id, command: joined(rest, seq![' ']) },
        ),
{
    reveal_strlit(" ");
    assert(" "@ =~= seq![' ']);
    reveal_with_fuel(learn_words, 2);
    let args = seq!["--request-id"@, id] + rest;
    assert(args.skip(2) =~= rest);
    assert(args[0] == "--request-id"@ && args[1] == id);
    assert(learn_words(args, None) == learn_words(rest, Some(id)));
    if rest.len() == 0 {
        assert(rest =~= Seq::<Seq<char>>::empty());
    } else if rest[0] == "--request-id"@ {
        assert(learn_words(rest, Some(id)) == learn_words(rest, None));
    }
}

/// A preview has one line for each argument between a first and a last line, and each
/// shows the position of its argument and what a terminal may show of it.
pub proof fn law_previews_have_a_line_for_each_argument(argv: Seq<Seq<char>>, i: int)
    ensures
        preview_lines(argv).len() == argv.len() + 2,
        preview_lines(argv)[0] == "\x1b[1;36m┌─ semantic-cli-agent preview ─┐\x1b[0m"@,
        preview_lines(argv)[argv.len() as int + 1]
            == "\x1b[1;36m└──────────────────────────────┘\x1b[0m"@,
        0 <= i < argv.len() ==> preview_lines(argv)[i + 1] == "\x1b[36m│\x1b[0m argv["@ + int_text(
            i,
        ) + "] = \x1b[1m"@ + preview_text(argv[i]) + "\x1b[0m"@,
{
}

/// An answer agrees exactly where it is one of four words, with white space around it or
/// not.
pub proof fn law_four_words_agree(answer: Seq<char>)
    ensures
        is_yes(answer) <==> trimmed(answer) == seq!['y'] || trimmed(answer) == seq!['Y'] || trimmed(
            answer,
        ) == seq!['y', 'e', 's'] || trimmed(answer) == seq!['Y', 'E', 'S'],
{
    reveal_strlit("y");
    reveal_strlit("Y");
    reveal_strlit("yes");
    reveal_strlit("YES");
    assert("y"@ =~= seq!['y']);
    assert("Y"@ =~= seq!['Y']);
    assert("yes"@ =~= seq!['y', 'e', 's']);
    assert("YES"@ =~= seq!['Y', 'E', 'S']);
}

/// A signal ends a confirmation wherever it comes, with the words for that place; without
/// one, an answer that does not agree declines the action that was asked about.
pub proof fn law_signals_and_other_answers_end_confirmations(
    action: ActionModel,
    answer: Seq<char>,
)
    ensures
        before_step(action, true) == ConfirmModel::Done(
            VerdictModel::Interrupted(
                if action is Learn {
                    "interrupted before learn confirmation"@
                } else {
                    "interrupted before confirmation"@
                },
            ),
        ),
        asked_step(action, true) == ConfirmModel::Done(
            VerdictModel::Interrupted("interrupted during confirmation"@),
        ),
        read_step(action, answer, true) == ConfirmModel::Done(
            VerdictModel::Interrupted("interrupted during confirmation"@),
        ),
        after_step(action, true) == ConfirmModel::Done(
            VerdictModel::Interrupted(
                if action is Learn {
                    "interrupted before learning"@
                } else {
                    "interrupted before execution"@
                },
            ),
        ),
        !is_yes(answer) ==> read_step(action, answer, false) == ConfirmModel::Done(
            VerdictModel::Declined(action),
        ),
{
}

/// The user is shown the words that will be run, or the correction that will be learnt, and
/// is asked about it: in one way about every run, in another about a correction, which the
/// question names as a terminal may show it.
pub proof fn law_questions_are_about_what_is_shown(
    argv: Seq<Seq<char>>,
    request_id: Seq<char>,
)
    ensures
        ActionModel::Run(argv).argv() == argv,
        (ActionModel::RunRequest { request_id, argv }).argv() == argv,
        (ActionModel::Learn { request_id, suggested_argv: argv }).argv() == argv,
        ActionModel::Run(argv).question() == "Execute? [y/N]: "@,
        (ActionModel::RunRequest { request_id, argv }).question() == "Execute? [y/N]: "@,
        (ActionModel::Learn { request_id, suggested_argv: argv }).question()
            == "I observed you manually run \""@ + shell_line_of(
            argv.map_values(|token: Seq<char>| preview_text(token)),
        ) + "\" after this query last time. Learn it as a template? [y/N]: "@,
{
}

/// A run is a failure unless the command ran and succeeded.
pub proof fn law_only_success_is_no_failure(result: Result<ExecutionResult, ExecuteError>)
    ensures
        run_failure(result) is None <==> result is Ok && result->Ok_0.success,
        result is Ok && !result->Ok_0.success ==> run_failure(result) == Some(
            exit_text(result->Ok_0.status_code),
        ),
        result is Err ==> run_failure(result) == Some(
            "child process execution failed: "@ + execute_fault_text(result->Err_0@),
        ),
{
}

}
