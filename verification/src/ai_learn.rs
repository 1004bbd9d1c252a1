//! Learning on request: from the words of a user to a learned template, of which the
//! sidecar is told.
use crate::ai_run::RunEnd;
use crate::cli::{self, learn_args, LearnArgs, LearnArgsModel};
use crate::learn::{learn_fault_text, LearnError};
use crate::storage::LearnedTemplate;
use crate::text::texts;
use vstd::prelude::*;

verus! {

// ---------------------------------------------------------------------------
// States
// ---------------------------------------------------------------------------

/// What the user asks to learn.
#[derive(Debug, PartialEq, Eq)]
pub struct Asked {
    args: LearnArgs,
}

impl View for Asked {
    type V = LearnArgsModel;

    closed spec fn view(&self) -> LearnArgsModel {
        self.args@
    }
}

/// A template that was learned.
#[derive(Debug, PartialEq, Eq)]
pub struct Taught {
    request_id: String,
    doc_id: String,
}

/// What [`Taught`] says.
pub ghost struct TaughtModel {
    pub request_id: Seq<char>,
    pub doc_id: Seq<char>,
}

impl View for Taught {
    type V = TaughtModel;

    closed spec fn view(&self) -> TaughtModel {
        TaughtModel { request_id: self.request_id@, doc_id: self.doc_id@ }
    }
}

/// What learning on request asks for next, or how it ends.
#[derive(Debug, PartialEq, Eq)]
pub enum TeachStep {
    /// Look for a signal.
    CheckBefore(Asked),
    /// Learn the corrected command.
    Learn(Asked),
    /// Look for a signal.
    CheckAfter(Taught),
    /// Tell the sidecar.
    Notify(Taught),
    /// Learning has ended.
    Done(RunEnd),
}

/// What a [`TeachStep`] says.
pub ghost enum TeachModel {
    CheckBefore(LearnArgsModel),
    Learn(LearnArgsModel),
    CheckAfter(TaughtModel),
    Notify(TaughtModel),
    Said(Seq<Seq<char>>),
    Noted(Seq<char>),
    Failed(Seq<char>),
}

impl View for TeachStep {
    type V = TeachModel;

    open spec fn view(&self) -> TeachModel {
        match self {
            TeachStep::CheckBefore(asked) => TeachModel::CheckBefore(asked@),
            TeachStep::Learn(asked) => TeachModel::Learn(asked@),
            TeachStep::CheckAfter(taught) => TeachModel::CheckAfter(taught@),
            TeachStep::Notify(taught) => TeachModel::Notify(taught@),
            TeachStep::Done(RunEnd::Said(lines)) => TeachModel::Said(texts(lines@)),
            TeachStep::Done(RunEnd::Noted(remark)) => TeachModel::Noted(remark@),
            TeachStep::Done(RunEnd::Failed(message)) => TeachModel::Failed(message@),
        }
    }
}

// ---------------------------------------------------------------------------
// Steps
// ---------------------------------------------------------------------------

/// The first step: the words are read before anything else happens.
pub open spec fn asked_step(args: Seq<Seq<char>>) -> TeachModel {
    match learn_args(args) {
        Ok(asked) => TeachModel::CheckBefore(asked),
        Err(message) => TeachModel::Failed(message),
    }
}

/// The step after a signal was looked for before learning.
pub open spec fn before_step(asked: LearnArgsModel, interrupted: bool) -> TeachModel {
    if interrupted {
        TeachModel::Failed("interrupted before learning"@)
    } else {
        TeachModel::Learn(asked)
    }
}

/// The step after the command was learned, or was not.
pub open spec fn learned_step(
    asked: LearnArgsModel,
    result: Result<Seq<char>, Seq<char>>,
) -> TeachModel {
    match result {
        Ok(doc_id) => TeachModel::CheckAfter(
            TaughtModel { request_id: asked.request_id, doc_id },
        ),
        Err(message) => TeachModel::Failed(message),
    }
}

/// The step after a signal was looked for behind learning.
pub open spec fn after_step(taught: TaughtModel, interrupted: bool) -> TeachModel {
    if interrupted {
        TeachModel::Failed("interrupted after learning transaction"@)
    } else {
        TeachModel::Notify(taught)
    }
}

/// Begins to learn what the words of a user ask for.
pub fn begin_learning(args: &Vec<String>) -> (step: TeachStep)
    ensures
        step@ == asked_step(texts(args@)),
{
    match cli::ai_learn(args) {
        Ok(args) => TeachStep::CheckBefore(Asked { args }),
        Err(message) => TeachStep::Done(RunEnd::Failed(message)),
    }
}

impl Asked {
    /// The request that is corrected.
    pub fn request_id(&self) -> (id: &str)
        ensures
            id@ == self@.request_id,
    {
        self.args.request_id.as_str()
    }

    /// The corrected command.
    pub fn command(&self) -> (command: &str)
        ensures
            command@ == self@.command,
    {
        self.args.corrected_command.as_str()
    }

    /// Goes on once a signal was looked for.
    pub fn checked(self, interrupted: bool) -> (step: TeachStep)
        ensures
            step@ == before_step(self@, interrupted),
    {
        if interrupted {
            TeachStep::Done(RunEnd::Failed("interrupted before learning".to_owned()))
        } else {
            TeachStep::Learn(self)
        }
    }

    /// Goes on once the command was learned, or was not.
    pub fn learned(self, result: Result<LearnedTemplate, LearnError>) -> (step: TeachStep)
        ensures
            step@ == learned_step(
                self@,
                match result {
                    Ok(template) => Ok(template.doc_id@),
                    Err(error) => Err(learn_fault_text(error@)),
                },
            ),
    {
        match result {
            Ok(template) => TeachStep::CheckAfter(
                Taught { request_id: self.args.request_id, doc_id: template.doc_id },
            ),
            Err(error) => TeachStep::Done(RunEnd::Failed(error.message())),
        }
    }
}

impl Taught {
    /// The request that was corrected.
    pub fn request_id(&self) -> (id: &str)
        ensures
            id@ == self@.request_id,
    {
        self.request_id.as_str()
    }

    /// Goes on once a signal was looked for. The template is stored either way.
    pub fn checked(self, interrupted: bool) -> (step: TeachStep)
        ensures
            step@ == after_step(self@, interrupted),
    {
        if interrupted {
            TeachStep::Done(RunEnd::Failed("interrupted after learning transaction".to_owned()))
        } else {
            TeachStep::Notify(self)
        }
    }

    /// Ends once the sidecar was told, whether it listened or not.
    pub fn told(self) -> (step: TeachStep)
        ensures
            step@ == TeachModel::Said(seq![self@.doc_id]),
    {
        let mut lines: Vec<String> = Vec::new();
        lines.push(self.doc_id);
        assert(texts(lines@) =~= seq![self@.doc_id]);
        TeachStep::Done(RunEnd::Said(lines))
    }
}

// ---------------------------------------------------------------------------
// Laws
// ---------------------------------------------------------------------------

/// The sidecar is told of a template only where the words asked for it, no signal came
/// before or after, and it was learned; and it is told of the request that was asked for.
pub proof fn law_only_learned_templates_are_told(
    args: Seq<Seq<char>>,
    before: bool,
    result: Result<Seq<char>, Seq<char>>,
    after: bool,
    asked: LearnArgsModel,
    taught: TaughtModel,
)
    ensures
        ({
            &&& asked_step(args) == TeachModel::CheckBefore(asked)
            &&& before_step(asked, before) == TeachModel::Learn(asked)
            &&& learned_step(asked, result) == TeachModel::CheckAfter(taught)
            &&& after_step(taught, after) == TeachModel::Notify(taught)
        }) <==> ({
            &&& learn_args(args) == Ok::<LearnArgsModel, Seq<char>>(asked)
            &&& !before
            &&& result == Ok::<Seq<char>, Seq<char>>(taught.doc_id)
            &&& !after
            &&& taught.request_id == asked.request_id
        }),
{
}

/// Learning on request ends at the first thing that goes wrong, with the message about it:
/// words that ask for nothing, a signal before learning, a refusal, and a signal after it.
pub proof fn law_learning_ends_at_the_first_failure(
    args: Seq<Seq<char>>,
    asked: LearnArgsModel,
    taught: TaughtModel,
    message: Seq<char>,
)
    ensures
        learn_args(args) == Err::<LearnArgsModel, Seq<char>>(message) ==> asked_step(args)
            == TeachModel::Failed(message),
        before_step(asked, true) == TeachModel::Failed("interrupted before learning"@),
        learned_step(asked, Err(message)) == TeachModel::Failed(message),
        after_step(taught, true) == TeachModel::Failed("interrupted after learning transaction"@),
{
}

}
