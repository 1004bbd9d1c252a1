//! The way of a prompt through all checks, from its words to a command that may be
//! offered to the user.
use crate::ipc::{
    ipc_fault_text, query_outcome, query_sidecar, reply_wf, search_line, search_request_line,
    IpcError, IpcFault, ProposalModel, UntrustedProposal, QUERY_LIMIT,
};
use crate::json::{encode_map, json_strings, string_map, strings_json, text_values, Json};
use crate::path_validate::{path_fault_text, PathFault, PathValidationError};
use crate::policy::{
    argv_fault, audit_fault, audit_policy, law_passed_argv_runs_the_policy_program,
    law_passed_audit_keeps_to_the_environment, load_policy_rule, policy_fault_text,
    refuses_variable, stored_policy, unmarked_fault, PolicyError, PolicyFault, PolicyModel,
    PolicyRow, PolicyRule,
};
use crate::sidecar::{is_one_line, SidecarReply};
use crate::storage::{
    correction_after, fetch_trusted_template_by_doc_id, find_observed_correction_for_prompt,
    record_observed_correction, storage_fault_text, RequestRecord, RequestStatus, StorageError,
    StorageFault, TrustedTemplate,
};
use crate::text::{is_blank, pair_texts, texts};
use crate::text_map::TextMap;
use crate::validate::{
    bind_template_slots, binding, checked_value, compile_template_argv, compiled_argv,
    is_path_rule, is_withdrawn, law_binding_keeps_to_declared_slots,
    law_template_tokens_stay_apart, lemma_living_states, lemma_path_slots_has,
    lemma_rule_named_has_name, parsed_schema, path_like_slot_names, path_slots, placeholder,
    refused_slots, rule_named, rule_names, slot_fault_text, template_binding, BoundSlots, RuleModel, SlotFault, SlotValidationError,
};
use vstd::prelude::*;

verus! {

/// How long after a prompt that nothing matched a command may still be its correction,
/// in minutes.
pub const OBSERVATION_WINDOW_MINUTES: i64 = 10;

// ---------------------------------------------------------------------------
// Outcomes
// ---------------------------------------------------------------------------

/// A command that passed every check. The user has not been asked yet.
#[derive(Debug, Clone, PartialEq, Eq)]
pub struct ResolvedCommand {
    pub request_id: String,
    pub argv: Vec<String>,
}

/// What becomes of a prompt: a command, the offer to learn a correction that was
/// observed for it, or a request that waits for one.
#[derive(Debug, Clone, PartialEq, Eq)]
pub enum NaturalLanguageOutcome {
    Resolved(ResolvedCommand),
    LearnFromObservedCorrection { request_id: String, suggested_argv: Vec<String> },
    Observing { request_id: String },
}

/// What a [`NaturalLanguageOutcome`] says.
pub ghost enum OutcomeModel {
    Resolved { request_id: Seq<char>, argv: Seq<Seq<char>> },
    LearnFromObservedCorrection { request_id: Seq<char>, suggested_argv: Seq<Seq<char>> },
    Observing { request_id: Seq<char> },
}

impl View for NaturalLanguageOutcome {
    type V = OutcomeModel;

    open spec fn view(&self) -> OutcomeModel {
        match self {
            NaturalLanguageOutcome::Resolved(command) => OutcomeModel::Resolved {
                request_id: command.request_id@,
                argv: texts(command.argv@),
            },
            NaturalLanguageOutcome::LearnFromObservedCorrection { request_id, suggested_argv } => {
                OutcomeModel::LearnFromObservedCorrection {
                    request_id: request_id@,
                    suggested_argv: texts(suggested_argv@),
                }
            },
            NaturalLanguageOutcome::Observing { request_id } => OutcomeModel::Observing {
                request_id: request_id@,
            },
        }
    }
}

/// The check that a prompt failed.
#[derive(Debug, PartialEq, Eq)]
pub enum PipelineFailure {
    CorrectionLookup(String),
    SessionRecord(String),
    RequestRecord(String),
    Sidecar(IpcError),
    MarkObserving { request_id: String, message: String },
    TemplateFetch(StorageError),
    SlotBinding(SlotValidationError),
    TemplateCompilation(SlotValidationError),
    PathSchema(SlotValidationError),
    PathSlot { slot: String, error: PathValidationError },
    PolicyLoad(PolicyError),
    PolicyAudit(PolicyError),
}

/// What a [`PipelineFailure`] says.
pub ghost enum FailureModel {
    CorrectionLookup(Seq<char>),
    SessionRecord(Seq<char>),
    RequestRecord(Seq<char>),
    Sidecar(IpcFault),
    MarkObserving { request_id: Seq<char>, message: Seq<char> },
    TemplateFetch(StorageFault),
    SlotBinding(SlotFault),
    TemplateCompilation(SlotFault),
    PathSchema(SlotFault),
    PathSlot { slot: Seq<char>, fault: PathFault },
    PolicyLoad(PolicyFault),
    PolicyAudit(PolicyFault),
}

impl View for PipelineFailure {
    type V = FailureModel;

    open spec fn view(&self) -> FailureModel {
        match self {
            PipelineFailure::CorrectionLookup(message) => FailureModel::CorrectionLookup(message@),
            PipelineFailure::SessionRecord(message) => FailureModel::SessionRecord(message@),
            PipelineFailure::RequestRecord(message) => FailureModel::RequestRecord(message@),
            PipelineFailure::Sidecar(error) => FailureModel::Sidecar(error@),
            PipelineFailure::MarkObserving { request_id, message } => FailureModel::MarkObserving {
                request_id: request_id@,
                message: message@,
            },
            PipelineFailure::TemplateFetch(error) => FailureModel::TemplateFetch(error@),
            PipelineFailure::SlotBinding(error) => FailureModel::SlotBinding(error@),
            PipelineFailure::TemplateCompilation(error) => FailureModel::TemplateCompilation(
                error@,
            ),
            PipelineFailure::PathSchema(error) => FailureModel::PathSchema(error@),
            PipelineFailure::PathSlot { slot, error } => FailureModel::PathSlot {
                slot: slot@,
                fault: error@,
            },
            PipelineFailure::PolicyLoad(error) => FailureModel::PolicyLoad(error@),
            PipelineFailure::PolicyAudit(error) => FailureModel::PolicyAudit(error@),
        }
    }
}

/// The text that reports a failure to the user.
pub open spec fn failure_text(failure: FailureModel) -> Seq<char> {
    match failure {
        FailureModel::CorrectionLookup(message) => {
            "failed to check for a previously observed correction: "@ + message
        },
        FailureModel::SessionRecord(message) => {
            "failed to record session before natural-language lookup: "@ + message
        },
        FailureModel::RequestRecord(message) => {
            "failed to record request before natural-language lookup: "@ + message
        },
        FailureModel::Sidecar(fault) => {
            "failed to reach the sidecar for natural-language interpretation: "@ + ipc_fault_text(
                fault,
            )
        },
        FailureModel::MarkObserving { request_id, message } => {
            "sidecar found no matching template; failed to mark request_id="@ + request_id
                + " OBSERVING: "@ + message
        },
        FailureModel::TemplateFetch(fault) => {
            "failed to reload the trusted template named by the sidecar: "@ + storage_fault_text(
                fault,
            )
        },
        FailureModel::SlotBinding(fault) => {
            "sidecar slots failed trusted schema validation: "@ + slot_fault_text(fault)
        },
        FailureModel::TemplateCompilation(fault) => {
            "trusted template could not be compiled into a final command: "@ + slot_fault_text(
                fault,
            )
        },
        FailureModel::PathSchema(fault) => {
            "a path-like slot escaped the workspace boundary: "@ + slot_fault_text(fault)
        },
        FailureModel::PathSlot { slot, fault } => {
            "a path-like slot escaped the workspace boundary: path slot '"@ + slot
                + "' failed workspace boundary validation: "@ + path_fault_text(fault)
        },
        FailureModel::PolicyLoad(fault) => {
            "failed to load the trusted policy rule for this template: "@ + policy_fault_text(
                fault,
            )
        },
        FailureModel::PolicyAudit(fault) => {
            "compiled command failed the trusted policy audit: "@ + policy_fault_text(fault)
        },
    }
}

impl PipelineFailure {
    /// The text that reports the failure to the user.
    pub fn message(&self) -> (text: String)
        ensures
            text@ == failure_text(self@),
    {
        match self {
            PipelineFailure::CorrectionLookup(message) => {
                "failed to check for a previously observed correction: ".to_owned().concat(
                    message.as_str(),
                )
            },
            PipelineFailure::SessionRecord(message) => {
                "failed to record session before natural-language lookup: ".to_owned().concat(
                    message.as_str(),
                )
            },
            PipelineFailure::RequestRecord(message) => {
                "failed to record request before natural-language lookup: ".to_owned().concat(
                    message.as_str(),
                )
            },
            PipelineFailure::Sidecar(error) => {
                "failed to reach the sidecar for natural-language interpretation: ".to_owned().concat(
                error.message().as_str())
            },
            PipelineFailure::MarkObserving { request_id, message } => {
                "sidecar found no matching template; failed to mark request_id=".to_owned().concat(
                    request_id.as_str(),
                ).concat(" OBSERVING: ").concat(message.as_str())
            },
            PipelineFailure::TemplateFetch(error) => {
                "failed to reload the trusted template named by the sidecar: ".to_owned().concat(
                    error.message().as_str(),
                )
            },
            PipelineFailure::SlotBinding(error) => {
                "sidecar slots failed trusted schema validation: ".to_owned().concat(
                    error.message().as_str(),
                )
            },
            PipelineFailure::TemplateCompilation(error) => {
                "trusted template could not be compiled into a final command: ".to_owned().concat(
                    error.message().as_str(),
                )
            },
            PipelineFailure::PathSchema(error) => {
                "a path-like slot escaped the workspace boundary: ".to_owned().concat(
                    error.message().as_str(),
                )
            },
            PipelineFailure::PathSlot { slot, error } => {
                "a path-like slot escaped the workspace boundary: path slot '".to_owned().concat(
                    slot.as_str(),
                ).concat("' failed workspace boundary validation: ").concat(
                    error.message().as_str(),
                )
            },
            PipelineFailure::PolicyLoad(error) => {
                "failed to load the trusted policy rule for this template: ".to_owned().concat(
                    error.message().as_str(),
                )
            },
            PipelineFailure::PolicyAudit(error) => {
                "compiled command failed the trusted policy audit: ".to_owned().concat(
                    error.message().as_str(),
                )
            },
        }
    }
}

/// A request that could not be marked, and why.
#[derive(Debug, PartialEq, Eq)]
pub struct Unmarked {
    pub request_id: String,
    pub message: String,
}

/// What an [`Unmarked`] request says.
pub ghost struct UnmarkedModel {
    pub request_id: Seq<char>,
    pub message: Seq<char>,
}

impl View for Unmarked {
    type V = UnmarkedModel;

    open spec fn view(&self) -> UnmarkedModel {
        UnmarkedModel { request_id: self.request_id@, message: self.message@ }
    }
}

/// Why a prompt has no outcome. Where the request could not be marked, `unmarked` says
/// why.
#[derive(Debug, PartialEq, Eq)]
pub struct PipelineError {
    pub failure: PipelineFailure,
    pub unmarked: Option<Unmarked>,
}

/// What a [`PipelineError`] says.
pub ghost struct ErrorModel {
    pub failure: FailureModel,
    pub unmarked: Option<UnmarkedModel>,
}

impl View for PipelineError {
    type V = ErrorModel;

    open spec fn view(&self) -> ErrorModel {
        ErrorModel {
            failure: self.failure@,
            unmarked: match self.unmarked {
                Some(unmarked) => Some(unmarked@),
                None => None,
            },
        }
    }
}

/// The words that name a failed check where its request could not be marked either.
pub open spec fn check_text(failure: FailureModel) -> Seq<char> {
    match failure {
        FailureModel::SlotBinding(fault) => "slot validation failed with "@ + slot_fault_text(
            fault,
        ),
        FailureModel::TemplateCompilation(fault) => "template compilation failed with "@
            + slot_fault_text(fault),
        FailureModel::PathSchema(fault) => "path validation failed with "@ + slot_fault_text(fault),
        FailureModel::PathSlot { slot, .. } => "path validation failed with path slot '"@ + slot
            + "' failed workspace boundary validation"@,
        _ => failure_text(failure),
    }
}

/// The text that reports an error to the user.
pub open spec fn error_text(error: ErrorModel) -> Seq<char> {
    match error.unmarked {
        None => failure_text(error.failure),
        Some(unmarked) => match error.failure {
            FailureModel::PolicyAudit(fault) => failure_text(
                FailureModel::PolicyAudit(unmarked_fault(fault, unmarked.message)),
            ),
            _ => check_text(error.failure) + "; failed to mark request_id="@ + unmarked.request_id
                + " SECURITY_BLOCKED: "@ + unmarked.message,
        },
    }
}

impl PipelineFailure {
    fn check_message(&self) -> (text: String)
        ensures
            text@ == check_text(self@),
    {
        match self {
            PipelineFailure::SlotBinding(error) => {
                "slot validation failed with ".to_owned().concat(error.message().as_str())
            },
            PipelineFailure::TemplateCompilation(error) => {
                "template compilation failed with ".to_owned().concat(error.message().as_str())
            },
            PipelineFailure::PathSchema(error) => {
                "path validation failed with ".to_owned().concat(error.message().as_str())
            },
            PipelineFailure::PathSlot { slot, .. } => {
                "path validation failed with path slot '".to_owned().concat(slot.as_str()).concat(
                    "' failed workspace boundary validation",
                )
            },
            _ => self.message(),
        }
    }
}

impl PipelineError {
    /// The text that reports the error to the user.
    pub fn message(&self) -> (text: String)
        ensures
            text@ == error_text(self@),
    {
        let unmarked = match &self.unmarked {
            None => {
                return self.failure.message();
            },
            Some(unmarked) => unmarked,
        };
        match &self.failure {
            PipelineFailure::PolicyAudit(error) => {
                let error = error.unmarked(unmarked.message.as_str());
                "compiled command failed the trusted policy audit: ".to_owned().concat(
                    error.message().as_str(),
                )
            },
            _ => self.failure.check_message().concat("; failed to mark request_id=").concat(
                unmarked.request_id.as_str(),
            ).concat(" SECURITY_BLOCKED: ").concat(unmarked.message.as_str()),
        }
    }
}

// ---------------------------------------------------------------------------
// States
// ---------------------------------------------------------------------------

/// A prompt that was not recorded yet.
#[derive(Debug, PartialEq, Eq)]
pub struct Prompt {
    text: String,
}

impl View for Prompt {
    type V = Seq<char>;

    closed spec fn view(&self) -> Seq<char> {
        self.text@
    }
}

/// A prompt in a recorded session.
#[derive(Debug, PartialEq, Eq)]
pub struct SessionPrompt {
    session_id: String,
    text: String,
}

/// What a [`SessionPrompt`] says.
pub ghost struct SessionPromptModel {
    pub session_id: Seq<char>,
    pub text: Seq<char>,
}

impl View for SessionPrompt {
    type V = SessionPromptModel;

    closed spec fn view(&self) -> SessionPromptModel {
        SessionPromptModel { session_id: self.session_id@, text: self.text@ }
    }
}

/// A recorded request for which the sidecar is asked.
#[derive(Debug, PartialEq, Eq)]
pub struct Query {
    request_id: String,
    text: String,
}

/// What a [`Query`] says.
pub ghost struct QueryModel {
    pub request_id: Seq<char>,
    pub text: Seq<char>,
}

impl View for Query {
    type V = QueryModel;

    closed spec fn view(&self) -> QueryModel {
        QueryModel { request_id: self.request_id@, text: self.text@ }
    }
}

/// A recorded request that nothing matched.
#[derive(Debug, PartialEq, Eq)]
pub struct Unmatched {
    request_id: String,
}

impl View for Unmatched {
    type V = Seq<char>;

    closed spec fn view(&self) -> Seq<char> {
        self.request_id@
    }
}

/// A recorded request with the template that the sidecar names for it, and the slots
/// that it gives. Neither is trusted.
#[derive(Debug, PartialEq, Eq)]
pub struct Candidate {
    request_id: String,
    template_id: String,
    slots: TextMap<String>,
}

/// What a [`Candidate`] says.
pub ghost struct CandidateModel {
    pub request_id: Seq<char>,
    pub template_id: Seq<char>,
    pub slots: Map<Seq<char>, Seq<char>>,
}

impl View for Candidate {
    type V = CandidateModel;

    closed spec fn view(&self) -> CandidateModel {
        CandidateModel {
            request_id: self.request_id@,
            template_id: self.template_id@,
            slots: string_map(self.slots@),
        }
    }
}

impl Candidate {
    /// The order that the slots are kept in.
    pub closed spec fn wf(&self) -> bool {
        self.slots.wf()
    }
}

/// The command that a trusted template and the bound slots make.
#[derive(Debug, PartialEq, Eq)]
pub struct Compiled {
    request_id: String,
    template: TrustedTemplate,
    argv: Vec<String>,
    paths: Vec<(String, String)>,
    slots: TextMap<String>,
}

/// What a [`Compiled`] command says: the trusted template, the untrusted slots that
/// were bound for it, the argument list, and the path slots that are still to be
/// checked, each with its value.
pub ghost struct CompiledModel {
    pub request_id: Seq<char>,
    pub template: TrustedTemplate,
    pub slots: Map<Seq<char>, Seq<char>>,
    pub argv: Seq<Seq<char>>,
    pub paths: Seq<(Seq<char>, Seq<char>)>,
}

impl View for Compiled {
    type V = CompiledModel;

    closed spec fn view(&self) -> CompiledModel {
        CompiledModel {
            request_id: self.request_id@,
            template: self.template,
            slots: string_map(self.slots@),
            argv: texts(self.argv@),
            paths: pair_texts(self.paths@),
        }
    }
}

/// The values that slots are bound to under the schema of a trusted template, or why
/// they are refused.
pub open spec fn trusted_binding(
    template: TrustedTemplate,
    slots: Map<Seq<char>, Seq<char>>,
) -> Result<Map<Seq<char>, Seq<char>>, SlotFault> {
    if is_withdrawn(template.trust_state@) {
        Err(SlotFault::TemplateRevoked(template.trust_state@))
    } else {
        match parsed_schema(template.slot_schema_json@) {
            Ok(rules) => binding(rules, text_values(slots)),
            Err(fault) => Err(fault),
        }
    }
}

impl CompiledModel {
    /// The argument list is what the trusted template makes of the slots, once they
    /// passed the trusted schema.
    pub open spec fn wf(self) -> bool {
        &&& trusted_binding(self.template, self.slots) is Ok
        &&& compiled_argv(
            self.template.template_argv_json@,
            trusted_binding(self.template, self.slots)->Ok_0,
        ) == Ok::<Seq<Seq<char>>, SlotFault>(self.argv)
    }
}

/// A compiled command with the policy that it is held to.
#[derive(Debug, PartialEq, Eq)]
pub struct Auditable {
    command: Compiled,
    policy: PolicyRule,
}

impl Auditable {
    /// The command.
    pub closed spec fn command(&self) -> CompiledModel {
        self.command@
    }

    /// The policy.
    pub closed spec fn policy(&self) -> PolicyModel {
        self.policy@
    }
}

/// A recorded request that failed a check.
#[derive(Debug, PartialEq, Eq)]
pub struct Blocked {
    request_id: String,
    failure: PipelineFailure,
}

/// What a [`Blocked`] request says.
pub ghost struct BlockedModel {
    pub request_id: Seq<char>,
    pub failure: FailureModel,
}

impl View for Blocked {
    type V = BlockedModel;

    closed spec fn view(&self) -> BlockedModel {
        BlockedModel { request_id: self.request_id@, failure: self.failure@ }
    }
}

/// What the pipeline asks for next, or its outcome.
#[derive(Debug, PartialEq, Eq)]
pub enum PipelineStep {
    /// Look for a correction that was observed for this very prompt.
    FindCorrection(Prompt),
    /// Find or open the record of this terminal's session.
    OpenSession(Prompt),
    /// Open the record of the request.
    OpenRequest(SessionPrompt),
    /// Send the query to the sidecar.
    AskSidecar(Query),
    /// Mark the request as observed.
    MarkObserving(Unmatched),
    /// Read the template from the trusted storage.
    FetchTemplate(Candidate),
    /// Validate the first path that is still to be checked.
    CheckPath(Compiled),
    /// Read the policy of the template.
    LoadPolicy(Compiled),
    /// Read the environments.
    Audit(Auditable),
    /// Mark the request as blocked.
    Block(Blocked),
    /// What became of the prompt.
    Done(Result<NaturalLanguageOutcome, PipelineError>),
}

/// What a [`PipelineStep`] says.
pub ghost enum PipelineModel {
    FindCorrection(Seq<char>),
    OpenSession(Seq<char>),
    OpenRequest(SessionPromptModel),
    AskSidecar(QueryModel),
    MarkObserving(Seq<char>),
    FetchTemplate(CandidateModel),
    CheckPath(CompiledModel),
    LoadPolicy(CompiledModel),
    Audit { command: CompiledModel, policy: PolicyModel },
    Block(BlockedModel),
    Done(Result<OutcomeModel, ErrorModel>),
}

impl View for PipelineStep {
    type V = PipelineModel;

    open spec fn view(&self) -> PipelineModel {
        match self {
            PipelineStep::FindCorrection(prompt) => PipelineModel::FindCorrection(prompt@),
            PipelineStep::OpenSession(prompt) => PipelineModel::OpenSession(prompt@),
            PipelineStep::OpenRequest(prompt) => PipelineModel::OpenRequest(prompt@),
            PipelineStep::AskSidecar(query) => PipelineModel::AskSidecar(query@),
            PipelineStep::MarkObserving(unmatched) => PipelineModel::MarkObserving(unmatched@),
            PipelineStep::FetchTemplate(candidate) => PipelineModel::FetchTemplate(candidate@),
            PipelineStep::CheckPath(command) => PipelineModel::CheckPath(command@),
            PipelineStep::LoadPolicy(command) => PipelineModel::LoadPolicy(command@),
            PipelineStep::Audit(auditable) => PipelineModel::Audit {
                command: auditable.command(),
                policy: auditable.policy(),
            },
            PipelineStep::Block(blocked) => PipelineModel::Block(blocked@),
            PipelineStep::Done(Ok(outcome)) => PipelineModel::Done(Ok(outcome@)),
            PipelineStep::Done(Err(error)) => PipelineModel::Done(Err(error@)),
        }
    }
}

impl PipelineStep {
    /// What every step keeps: a command is only ever what its trusted template makes
    /// of slots that passed the trusted schema.
    pub open spec fn wf(&self) -> bool {
        match self {
            PipelineStep::FetchTemplate(candidate) => candidate.wf(),
            PipelineStep::CheckPath(command) => command@.wf() && command@.paths.len() > 0,
            PipelineStep::LoadPolicy(command) => command@.wf() && command@.paths.len() == 0,
            PipelineStep::Audit(auditable) => auditable.command().wf()
                && auditable.command().paths.len() == 0,
            _ => true,
        }
    }
}

// ---------------------------------------------------------------------------
// Steps
// ---------------------------------------------------------------------------

/// The path slots that are bound, each with its value.
pub open spec fn bound_paths(names: Seq<Seq<char>>, bound: Map<Seq<char>, Seq<char>>) -> Seq<
    (Seq<char>, Seq<char>),
>
    decreases names.len(),
{
    if names.len() == 0 {
        Seq::empty()
    } else {
        let before = bound_paths(names.drop_last(), bound);
        if bound.contains_key(names.last()) {
            before.push((names.last(), bound[names.last()]))
        } else {
            before
        }
    }
}

/// A failure before the request was recorded.
pub open spec fn ends_with(failure: FailureModel) -> PipelineModel {
    PipelineModel::Done(Err(ErrorModel { failure, unmarked: None }))
}

/// A failure of a recorded request.
pub open spec fn blocks_with(request_id: Seq<char>, failure: FailureModel) -> PipelineModel {
    PipelineModel::Block(BlockedModel { request_id, failure })
}

/// The step after a correction was looked for: one that was observed answers the prompt.
pub open spec fn correction_step(
    prompt: Seq<char>,
    found: Result<Option<(Seq<char>, Seq<char>)>, Seq<char>>,
) -> PipelineModel {
    match found {
        Err(message) => ends_with(FailureModel::CorrectionLookup(message)),
        Ok(None) => PipelineModel::OpenSession(prompt),
        Ok(Some((request_id, argv_json))) => match json_strings(argv_json) {
            Ok(suggested_argv) => PipelineModel::Done(
                Ok(OutcomeModel::LearnFromObservedCorrection { request_id, suggested_argv }),
            ),
            Err(message) => ends_with(
                FailureModel::CorrectionLookup(
                    storage_fault_text(StorageFault::InvalidCorrection(message)),
                ),
            ),
        },
    }
}

/// The step after the session was found or opened.
pub open spec fn session_step(
    prompt: Seq<char>,
    session: Result<Seq<char>, Seq<char>>,
) -> PipelineModel {
    match session {
        Ok(session_id) => PipelineModel::OpenRequest(
            SessionPromptModel { session_id, text: prompt },
        ),
        Err(message) => ends_with(FailureModel::SessionRecord(message)),
    }
}

/// The step after the request was recorded.
pub open spec fn request_step(
    prompt: SessionPromptModel,
    request: Result<Seq<char>, Seq<char>>,
) -> PipelineModel {
    match request {
        Ok(request_id) => PipelineModel::AskSidecar(QueryModel { request_id, text: prompt.text }),
        Err(message) => ends_with(FailureModel::RequestRecord(message)),
    }
}

/// The step after the sidecar answered.
pub open spec fn answered_step(
    query: QueryModel,
    answer: Result<ProposalModel, IpcFault>,
) -> PipelineModel {
    match answer {
        Err(fault) => blocks_with(query.request_id, FailureModel::Sidecar(fault)),
        Ok(proposal) => match proposal.intent.candidate {
            None => PipelineModel::MarkObserving(query.request_id),
            Some(template_id) => PipelineModel::FetchTemplate(
                CandidateModel {
                    request_id: query.request_id,
                    template_id,
                    slots: proposal.intent.slots,
                },
            ),
        },
    }
}

/// The step after a request that nothing matched was marked.
pub open spec fn observing_step(
    request_id: Seq<char>,
    marking: Result<(), Seq<char>>,
) -> PipelineModel {
    match marking {
        Ok(()) => PipelineModel::Done(Ok(OutcomeModel::Observing { request_id })),
        Err(message) => ends_with(FailureModel::MarkObserving { request_id, message }),
    }
}

/// The step of a command whose paths are still to be checked, or are all checked.
pub open spec fn paths_step(command: CompiledModel) -> PipelineModel {
    if command.paths.len() > 0 {
        PipelineModel::CheckPath(command)
    } else {
        PipelineModel::LoadPolicy(command)
    }
}

/// The step after the trusted template was read. Of the answer of the sidecar only the
/// slots are left, and they are bound by the trusted schema.
pub open spec fn template_step(
    candidate: CandidateModel,
    row: Result<TrustedTemplate, String>,
) -> PipelineModel {
    if is_blank(candidate.template_id) {
        blocks_with(
            candidate.request_id,
            FailureModel::TemplateFetch(StorageFault::EmptyTemplateId),
        )
    } else {
        match row {
            Err(message) => blocks_with(
                candidate.request_id,
                FailureModel::TemplateFetch(
                    StorageFault::TemplateFetch {
                        template_id: candidate.template_id,
                        message: message@,
                    },
                ),
            ),
            Ok(template) => match trusted_binding(template, candidate.slots) {
                Err(fault) => blocks_with(candidate.request_id, FailureModel::SlotBinding(fault)),
                Ok(bound) => match compiled_argv(template.template_argv_json@, bound) {
                    Err(fault) => blocks_with(
                        candidate.request_id,
                        FailureModel::TemplateCompilation(fault),
                    ),
                    Ok(argv) => paths_step(
                        CompiledModel {
                            request_id: candidate.request_id,
                            template,
                            slots: candidate.slots,
                            argv,
                            paths: bound_paths(
                                path_slots(parsed_schema(template.slot_schema_json@)->Ok_0),
                                bound,
                            ),
                        },
                    ),
                },
            },
        }
    }
}

/// The step after a path was validated.
pub open spec fn path_step(command: CompiledModel, verdict: Result<(), PathFault>) -> PipelineModel {
    match verdict {
        Err(fault) => blocks_with(
            command.request_id,
            FailureModel::PathSlot { slot: command.paths[0].0, fault },
        ),
        Ok(()) => paths_step(CompiledModel { paths: command.paths.drop_first(), ..command }),
    }
}

/// The step after the policy was read.
pub open spec fn policy_step(command: CompiledModel, row: Option<PolicyRow>) -> PipelineModel {
    match stored_policy(row, command.template.policy_rule_id@) {
        Err(fault) => blocks_with(command.request_id, FailureModel::PolicyLoad(fault)),
        Ok(policy) => PipelineModel::Audit { command, policy },
    }
}

/// The step after the environments were read.
pub open spec fn audit_step(
    command: CompiledModel,
    policy: PolicyModel,
    inherited: Set<Seq<char>>,
    host: Set<Seq<char>>,
) -> PipelineModel {
    match audit_fault(policy, command.argv, inherited, host) {
        Some(fault) => blocks_with(command.request_id, FailureModel::PolicyAudit(fault)),
        None => PipelineModel::Done(
            Ok(OutcomeModel::Resolved { request_id: command.request_id, argv: command.argv }),
        ),
    }
}

/// The step after a request that failed a check was marked.
pub open spec fn blocked_step(
    blocked: BlockedModel,
    marking: Result<(), Seq<char>>,
) -> PipelineModel {
    PipelineModel::Done(
        Err(
            ErrorModel {
                failure: blocked.failure,
                unmarked: match marking {
                    Ok(()) => None,
                    Err(message) => Some(
                        UnmarkedModel { request_id: blocked.request_id, message },
                    ),
                },
            },
        ),
    )
}

/// What came of opening a record: its id, or why there is none.
pub open spec fn opened(record: Result<String, String>) -> Result<Seq<char>, Seq<char>> {
    match record {
        Ok(id) => Ok(id@),
        Err(message) => Err(message@),
    }
}

/// What came of marking a request.
pub open spec fn marked(marking: Result<(), String>) -> Result<(), Seq<char>> {
    match marking {
        Ok(()) => Ok(()),
        Err(message) => Err(message@),
    }
}

/// Begins with a prompt.
pub fn resolve_natural_language_command(raw_prompt: &str) -> (step: PipelineStep)
    ensures
        step@ == PipelineModel::FindCorrection(raw_prompt@),
        step.wf(),
{
    PipelineStep::FindCorrection(Prompt { text: raw_prompt.to_owned() })
}

fn end_with(failure: PipelineFailure) -> (step: PipelineStep)
    ensures
        step@ == ends_with(failure@),
        step.wf(),
{
    PipelineStep::Done(Err(PipelineError { failure, unmarked: None }))
}

fn block_with(request_id: String, failure: PipelineFailure) -> (step: PipelineStep)
    ensures
        step@ == blocks_with(request_id@, failure@),
        step.wf(),
{
    PipelineStep::Block(Blocked { request_id, failure })
}

/// A correction as it was looked for: its request and its stored argument list.
pub open spec fn found_correction(found: Result<Option<(String, String)>, String>) -> Result<
    Option<(Seq<char>, Seq<char>)>,
    Seq<char>,
> {
    match found {
        Ok(Some((request_id, argv_json))) => Ok(Some((request_id@, argv_json@))),
        Ok(None) => Ok(None),
        Err(message) => Err(message@),
    }
}

impl Prompt {
    /// The words of the prompt.
    pub fn text(&self) -> (text: &str)
        ensures
            text@ == self@,
    {
        self.text.as_str()
    }

    /// Goes on once a correction was looked for.
    pub fn correction_found(self, found: Result<Option<(String, String)>, String>) -> (step:
        PipelineStep)
        ensures
            step@ == correction_step(self@, found_correction(found)),
            step.wf(),
    {
        let row = match found {
            Ok(row) => row,
            Err(message) => {
                return end_with(PipelineFailure::CorrectionLookup(message));
            },
        };
        match find_observed_correction_for_prompt(row) {
            Ok(None) => PipelineStep::OpenSession(self),
            Ok(Some(correction)) => PipelineStep::Done(
                Ok(
                    NaturalLanguageOutcome::LearnFromObservedCorrection {
                        request_id: correction.request_id,
                        suggested_argv: correction.argv,
                    },
                ),
            ),
            Err(error) => end_with(PipelineFailure::CorrectionLookup(error.message())),
        }
    }

    /// Goes on once the session was found or opened.
    pub fn session_opened(self, session: Result<String, String>) -> (step: PipelineStep)
        ensures
            step@ == session_step(self@, opened(session)),
            step.wf(),
    {
        match session {
            Ok(session_id) => PipelineStep::OpenRequest(
                SessionPrompt { session_id, text: self.text },
            ),
            Err(message) => end_with(PipelineFailure::SessionRecord(message)),
        }
    }
}

impl SessionPrompt {
    /// The session of the prompt.
    pub fn session_id(&self) -> (id: &str)
        ensures
            id@ == self@.session_id,
    {
        self.session_id.as_str()
    }

    /// The words of the prompt.
    pub fn text(&self) -> (text: &str)
        ensures
            text@ == self@.text,
    {
        self.text.as_str()
    }

    /// Goes on once the request was recorded.
    pub fn request_opened(self, request: Result<String, String>) -> (step: PipelineStep)
        ensures
            step@ == request_step(self@, opened(request)),
            step.wf(),
    {
        match request {
            Ok(request_id) => PipelineStep::AskSidecar(Query { request_id, text: self.text }),
            Err(message) => end_with(PipelineFailure::RequestRecord(message)),
        }
    }
}

impl Query {
    /// The line to send.
    pub fn request_line(&self) -> (line: String)
        ensures
            line@ == search_line(self@.request_id, self@.text, QUERY_LIMIT as nat),
            is_one_line(line@),
    {
        search_request_line(self.request_id.as_str(), self.text.as_str(), QUERY_LIMIT)
    }

    /// Goes on once the sidecar answered, or did not.
    pub fn answered(
        self,
        socket_path: &str,
        reply: SidecarReply<UntrustedProposal>,
    ) -> (step: PipelineStep)
        requires
            reply_wf(reply),
        ensures
            step@ == answered_step(self@, query_outcome(socket_path@, reply)),
            step.wf(),
    {
        match query_sidecar(socket_path, reply) {
            Ok(proposal) => self.proposed(proposal),
            Err(error) => block_with(self.request_id, PipelineFailure::Sidecar(error)),
        }
    }

    /// Goes on with a proposal.
    pub fn proposed(self, proposal: UntrustedProposal) -> (step: PipelineStep)
        requires
            proposal.intent_proposal.raw_untrusted_slots.wf(),
        ensures
            step@ == answered_step(self@, Ok(proposal@)),
            step.wf(),
    {
        match proposal.intent_proposal.candidate_template_id {
            None => PipelineStep::MarkObserving(Unmatched { request_id: self.request_id }),
            Some(template_id) => PipelineStep::FetchTemplate(
                Candidate {
                    request_id: self.request_id,
                    template_id,
                    slots: proposal.intent_proposal.raw_untrusted_slots,
                },
            ),
        }
    }
}

impl Unmatched {
    /// The request to mark.
    pub fn request_id(&self) -> (id: &str)
        ensures
            id@ == self@,
    {
        self.request_id.as_str()
    }

    /// Ends once the request was marked; `Err` holds the message where that failed.
    pub fn marked(self, marking: Result<(), String>) -> (step: PipelineStep)
        ensures
            step@ == observing_step(self@, marked(marking)),
            step.wf(),
    {
        match marking {
            Ok(()) => PipelineStep::Done(
                Ok(NaturalLanguageOutcome::Observing { request_id: self.request_id }),
            ),
            Err(message) => end_with(
                PipelineFailure::MarkObserving { request_id: self.request_id, message },
            ),
        }
    }
}

/// The path slots that are bound, each with its value.
fn list_bound_paths(names: &Vec<String>, bound: &BoundSlots) -> (paths: Vec<(String, String)>)
    requires
        bound.wf(),
    ensures
        pair_texts(paths@) == bound_paths(texts(names@), bound@),
{
    let ghost source = texts(names@);
    let mut paths: Vec<(String, String)> = Vec::new();
    let mut i: usize = 0;
    assert(pair_texts(paths@) =~= bound_paths(source.take(0), bound@));
    while i < names.len()
        invariant
            bound.wf(),
            source == texts(names@),
            i <= names@.len(),
            pair_texts(paths@) == bound_paths(source.take(i as int), bound@),
        decreases names@.len() - i,
    {
        let ghost before = pair_texts(paths@);
        let name = &names[i];
        proof {
            assert(source.take(i + 1).drop_last() =~= source.take(i as int));
            assert(source.take(i + 1).last() == name@);
        }
        match bound.get(name.as_str()) {
            Some(value) => {
                paths.push((name.clone(), value.to_owned()));
                assert(pair_texts(paths@) =~= before.push((name@, value@)));
            },
            None => {},
        }
        i += 1;
    }
    assert(source.take(source.len() as int) =~= source);
    paths
}

fn resume_paths(command: Compiled) -> (step: PipelineStep)
    requires
        command@.wf(),
    ensures
        step@ == paths_step(command@),
        step.wf(),
{
    if command.paths.len() > 0 {
        PipelineStep::CheckPath(command)
    } else {
        PipelineStep::LoadPolicy(command)
    }
}

impl Candidate {
    /// The template to read.
    pub fn template_id(&self) -> (id: &str)
        ensures
            id@ == self@.template_id,
    {
        self.template_id.as_str()
    }

    /// Goes on once the template was read from the trusted storage; `Err` holds the message
    /// where that failed.
    pub fn template_fetched(self, row: Result<TrustedTemplate, String>) -> (step: PipelineStep)
        requires
            self.wf(),
        ensures
            step@ == template_step(self@, row),
            step.wf(),
    {
        let template = match fetch_trusted_template_by_doc_id(self.template_id.as_str(), row) {
            Ok(template) => template,
            Err(error) => {
                return block_with(self.request_id, PipelineFailure::TemplateFetch(error));
            },
        };
        let slots_json = encode_map(&self.slots);
        let ghost slots = string_map(self.slots@);
        assert(template_binding(
            template.trust_state@,
            template.slot_schema_json@,
            slots_json@,
        ) == trusted_binding(template, slots));
        let bound = match bind_template_slots(
            template.trust_state.as_str(),
            template.slot_schema_json.as_str(),
            slots_json.as_str(),
        ) {
            Ok(bound) => bound,
            Err(error) => {
                return block_with(self.request_id, PipelineFailure::SlotBinding(error));
            },
        };
        let argv = match compile_template_argv(template.template_argv_json.as_str(), &bound) {
            Ok(argv) => argv,
            Err(error) => {
                return block_with(self.request_id, PipelineFailure::TemplateCompilation(error));
            },
        };
        let names = match path_like_slot_names(template.slot_schema_json.as_str()) {
            Ok(names) => names,
            Err(error) => {
                return block_with(self.request_id, PipelineFailure::PathSchema(error));
            },
        };
        let paths = list_bound_paths(&names, &bound);
        resume_paths(
            Compiled { request_id: self.request_id, template, argv, paths, slots: self.slots },
        )
    }
}

impl Compiled {
    /// The path to validate.
    pub fn path(&self) -> (path: &str)
        requires
            self@.paths.len() > 0,
        ensures
            path@ == self@.paths[0].1,
    {
        self.paths[0].1.as_str()
    }

    /// The policy of the template.
    pub fn policy_rule_id(&self) -> (id: &str)
        ensures
            id@ == self@.template.policy_rule_id@,
    {
        self.template.policy_rule_id.as_str()
    }

    /// Goes on once the path was validated.
    pub fn path_checked(self, verdict: Result<(), PathValidationError>) -> (step: PipelineStep)
        requires
            self@.wf(),
            self@.paths.len() > 0,
        ensures
            step@ == path_step(
                self@,
                match verdict {
                    Ok(()) => Ok(()),
                    Err(error) => Err(error@),
                },
            ),
            step.wf(),
    {
        let ghost model = self@;
        let mut paths = self.paths;
        let (slot, _) = paths.remove(0);
        match verdict {
            Err(error) => block_with(
                self.request_id,
                PipelineFailure::PathSlot { slot, error },
            ),
            Ok(()) => {
                assert(pair_texts(paths@) =~= model.paths.drop_first());
                resume_paths(
                    Compiled {
                        request_id: self.request_id,
                        template: self.template,
                        argv: self.argv,
                        paths,
                        slots: self.slots,
                    },
                )
            },
        }
    }

    /// Goes on once the policy was read.
    pub fn policy_loaded(self, row: Option<PolicyRow>) -> (step: PipelineStep)
        requires
            self@.wf(),
            self@.paths.len() == 0,
        ensures
            step@ == policy_step(self@, row),
            step.wf(),
    {
        match load_policy_rule(row, self.template.policy_rule_id.as_str()) {
            Ok(policy) => PipelineStep::Audit(Auditable { command: self, policy }),
            Err(error) => block_with(self.request_id, PipelineFailure::PolicyLoad(error)),
        }
    }
}

impl Auditable {
    /// Ends once the environment to inherit and the one of the host were read, unless
    /// the policy refuses something.
    pub fn environments_read(self, inherited_env: &TextMap<String>, host_env: &TextMap<String>) -> (step:
        PipelineStep)
        requires
            inherited_env.wf(),
            host_env.wf(),
        ensures
            step@ == audit_step(
                self.command(),
                self.policy(),
                inherited_env@.dom(),
                host_env@.dom(),
            ),
            step.wf(),
    {
        match audit_policy(&self.policy, &self.command.argv, inherited_env, host_env) {
            Ok(()) => PipelineStep::Done(
                Ok(
                    NaturalLanguageOutcome::Resolved(
                        ResolvedCommand {
                            request_id: self.command.request_id,
                            argv: self.command.argv,
                        },
                    ),
                ),
            ),
            Err(error) => block_with(
                self.command.request_id,
                PipelineFailure::PolicyAudit(error),
            ),
        }
    }
}

impl Blocked {
    /// The request to mark.
    pub fn request_id(&self) -> (id: &str)
        ensures
            id@ == self@.request_id,
    {
        self.request_id.as_str()
    }

    /// Ends once the request was marked; `Err` holds the message where that failed.
    pub fn marked(self, marking: Result<(), String>) -> (step: PipelineStep)
        ensures
            step@ == blocked_step(self@, marked(marking)),
            step.wf(),
    {
        let unmarked = match marking {
            Ok(()) => None,
            Err(message) => Some(Unmarked { request_id: self.request_id, message }),
        };
        PipelineStep::Done(Err(PipelineError { failure: self.failure, unmarked }))
    }
}

/// Notes a command that was executed as the correction of a prompt that nothing
/// matched, if it is the first one. Gives the words of the prompt where it was noted.
pub fn observe_manual_command(record: &mut RequestRecord, argv: &Vec<String>) -> (noted: Option<
    String,
>)
    ensures
        noted is Some <==> old(record).status == RequestStatus::Observing
            && old(record).observed_correction_argv_json is None,
        noted is Some ==> noted->0@ == old(record).raw_user_prompt@,
        final(record).correction() == correction_after(
            old(record).status,
            old(record).correction(),
            strings_json(texts(argv@)),
        ),
        noted is Some ==> json_strings(strings_json(texts(argv@))) == Ok::<
            Seq<Seq<char>>,
            Seq<char>,
        >(texts(argv@)),
        final(record).request_id == old(record).request_id,
        final(record).session_id == old(record).session_id,
        final(record).raw_user_prompt == old(record).raw_user_prompt,
        final(record).status == old(record).status,
{
    if record_observed_correction(record, argv) {
        Some(record.raw_user_prompt.clone())
    } else {
        None
    }
}

// ---------------------------------------------------------------------------
// Laws
// ---------------------------------------------------------------------------

/// A prompt for which a correction was observed is answered by it alone: neither a
/// record is opened nor the sidecar asked.
pub proof fn law_observed_corrections_answer_alone(
    prompt: Seq<char>,
    request_id: Seq<char>,
    argv_json: Seq<char>,
    argv: Seq<Seq<char>>,
)
    requires
        json_strings(argv_json) == Ok::<Seq<Seq<char>>, Seq<char>>(argv),
    ensures
        correction_step(prompt, Ok(Some((request_id, argv_json)))) == PipelineModel::Done(
            Ok(
                OutcomeModel::LearnFromObservedCorrection { request_id, suggested_argv: argv },
            ),
        ),
{
}

/// A recorded request that fails a check is always marked as blocked before its error
/// is reported: no check ends in an error by itself.
pub proof fn law_failed_requests_are_blocked_first(
    query: QueryModel,
    answer: Result<ProposalModel, IpcFault>,
    candidate: CandidateModel,
    template: Result<TrustedTemplate, String>,
    command: CompiledModel,
    verdict: Result<(), PathFault>,
    row: Option<PolicyRow>,
    policy: PolicyModel,
    inherited: Set<Seq<char>>,
    host: Set<Seq<char>>,
)
    ensures
        !is_error(answered_step(query, answer)),
        !is_error(template_step(candidate, template)),
        !is_error(path_step(command, verdict)),
        !is_error(policy_step(command, row)),
        !is_error(audit_step(command, policy, inherited, host)),
{
}

/// The step reports an error.
pub open spec fn is_error(step: PipelineModel) -> bool {
    step is Done && step->Done_0 is Err
}

/// A prompt that the sidecar has no template for is not blocked: nothing unsafe was
/// attempted, and the request is marked as observed.
pub proof fn law_unmatched_prompts_are_observed(query: QueryModel, proposal: ProposalModel)
    requires
        proposal.intent.candidate is None,
    ensures
        answered_step(query, Ok(proposal)) == PipelineModel::MarkObserving(query.request_id),
{
}

/// Nothing of what the sidecar says but the slots and the name of the template has any
/// part in a command: two proposals that agree in these lead to the same step.
pub proof fn law_only_candidate_and_slots_matter(
    query: QueryModel,
    first: ProposalModel,
    second: ProposalModel,
)
    requires
        first.intent.candidate == second.intent.candidate,
        first.intent.slots == second.intent.slots,
    ensures
        answered_step(query, Ok(first)) == answered_step(query, Ok(second)),
{
}

/// A command is resolved only where the audit refuses nothing of it: it runs a program
/// of its policy, holds nothing that the policy blocks, and no variable of either
/// environment is refused.
pub proof fn law_resolved_commands_passed_the_audit(
    command: CompiledModel,
    policy: PolicyModel,
    inherited: Set<Seq<char>>,
    host: Set<Seq<char>>,
)
    requires
        !(audit_step(command, policy, inherited, host) is Block),
    ensures
        audit_step(command, policy, inherited, host) == PipelineModel::Done(
            Ok(OutcomeModel::Resolved { request_id: command.request_id, argv: command.argv }),
        ),
        argv_fault(policy, command.argv) is None,
        command.argv.len() > 0,
        command.argv[0] == policy.binary_name || policy.binaries.contains(command.argv[0]),
        forall|key: Seq<char>| #[trigger]
            inherited.contains(key) || host.contains(key) ==> !refuses_variable(policy.env, key),
{
    law_passed_argv_runs_the_policy_program(policy, command.argv);
    assert forall|key: Seq<char>| #[trigger]
        inherited.contains(key) || host.contains(key) implies !refuses_variable(policy.env, key) by {
        law_passed_audit_keeps_to_the_environment(policy, command.argv, inherited, host, key);
    }
}

/// Each argument of a command is a token of the trusted template, or the value of a
/// slot that the trusted schema declares and whose rule it passed.
pub proof fn law_arguments_come_from_the_template(
    command: CompiledModel,
    tokens: Seq<Seq<char>>,
    i: int,
)
    requires
        command.wf(),
        json_strings(command.template.template_argv_json@) == Ok::<Seq<Seq<char>>, Seq<char>>(
            tokens,
        ),
        0 <= i < tokens.len(),
    ensures
        command.argv.len() == tokens.len(),
        match placeholder(tokens[i]) {
            None => command.argv[i] == tokens[i],
            Some(slot) => {
                let rules = parsed_schema(command.template.slot_schema_json@)->Ok_0;
                &&& command.slots.contains_key(slot)
                &&& rule_names(rules).contains(slot)
                &&& checked_value(rule_named(rules, slot), Json::Text(command.slots[slot]))
                    == Ok::<Seq<char>, SlotFault>(command.argv[i])
            },
        },
{
    let bound = trusted_binding(command.template, command.slots)->Ok_0;
    let rules = parsed_schema(command.template.slot_schema_json@)->Ok_0;
    let raw = text_values(command.slots);
    law_template_tokens_stay_apart(tokens, bound, i);
    law_binding_keeps_to_declared_slots(rules, raw);
    if let Some(slot) = placeholder(tokens[i]) {
        assert(raw.dom().contains(slot));
        assert(!refused_slots(rules, raw).contains(slot));
        lemma_rule_named_has_name(rules, slot);
    }
}

// ---------------------------------------------------------------------------
// Whole runs
// ---------------------------------------------------------------------------

/// What a run meets: the answer to everything that the pipeline asks for.
pub ghost struct World {
    pub correction: spec_fn(Seq<char>) -> Result<Option<(Seq<char>, Seq<char>)>, Seq<char>>,
    pub session: Result<Seq<char>, Seq<char>>,
    pub request: Result<Seq<char>, Seq<char>>,
    pub answer: spec_fn(QueryModel) -> Result<ProposalModel, IpcFault>,
    pub observing: Result<(), Seq<char>>,
    pub template: spec_fn(Seq<char>) -> Result<TrustedTemplate, String>,
    pub verdict: spec_fn(Seq<char>) -> Result<(), PathFault>,
    pub policy: spec_fn(Seq<char>) -> Option<PolicyRow>,
    pub inherited: Set<Seq<char>>,
    pub host: Set<Seq<char>>,
    pub blocking: Result<(), Seq<char>>,
}

/// How many kinds of steps may still follow.
pub open spec fn stage(step: PipelineModel) -> nat {
    match step {
        PipelineModel::FindCorrection(_) => 9,
        PipelineModel::OpenSession(_) => 8,
        PipelineModel::OpenRequest(_) => 7,
        PipelineModel::AskSidecar(_) => 6,
        PipelineModel::FetchTemplate(_) => 5,
        PipelineModel::CheckPath(_) => 4,
        PipelineModel::LoadPolicy(_) => 3,
        PipelineModel::Audit { .. } => 2,
        PipelineModel::MarkObserving(_) => 1,
        PipelineModel::Block(_) => 1,
        PipelineModel::Done(_) => 0,
    }
}

/// The number of paths that a step leaves to be checked.
pub open spec fn unchecked(step: PipelineModel) -> nat {
    match step {
        PipelineModel::CheckPath(command) => command.paths.len(),
        _ => 0,
    }
}

/// What becomes of a prompt from a step on, when a world answers. A step that checks a
/// path has one to check.
pub open spec fn run(world: World, step: PipelineModel) -> Result<OutcomeModel, ErrorModel>
    decreases stage(step), unchecked(step),
    when step is CheckPath ==> unchecked(step) > 0
{
    match step {
        PipelineModel::FindCorrection(prompt) => run(
            world,
            correction_step(prompt, (world.correction)(prompt)),
        ),
        PipelineModel::OpenSession(prompt) => run(world, session_step(prompt, world.session)),
        PipelineModel::OpenRequest(prompt) => run(world, request_step(prompt, world.request)),
        PipelineModel::AskSidecar(query) => run(
            world,
            answered_step(query, (world.answer)(query)),
        ),
        PipelineModel::MarkObserving(request_id) => run(
            world,
            observing_step(request_id, world.observing),
        ),
        PipelineModel::FetchTemplate(candidate) => run(
            world,
            template_step(candidate, (world.template)(candidate.template_id)),
        ),
        PipelineModel::CheckPath(command) => run(
            world,
            path_step(command, (world.verdict)(command.paths[0].1)),
        ),
        PipelineModel::LoadPolicy(command) => run(
            world,
            policy_step(command, (world.policy)(command.template.policy_rule_id@)),
        ),
        PipelineModel::Audit { command, policy } => run(
            world,
            audit_step(command, policy, world.inherited, world.host),
        ),
        PipelineModel::Block(blocked) => run(world, blocked_step(blocked, world.blocking)),
        PipelineModel::Done(result) => result,
    }
}

/// The query of a run that got so far as to record its request.
pub open spec fn query_of(world: World, prompt: Seq<char>) -> QueryModel {
    QueryModel { request_id: world.request->Ok_0, text: prompt }
}

/// The proposal of a run that got so far.
pub open spec fn proposal_in(world: World, prompt: Seq<char>) -> ProposalModel {
    (world.answer)(query_of(world, prompt))->Ok_0
}

/// The trusted template of a run that got so far.
pub open spec fn template_in(world: World, prompt: Seq<char>) -> TrustedTemplate {
    (world.template)(proposal_in(world, prompt).intent.candidate->0)->Ok_0
}

/// The rules of the trusted template of a run that got so far.
pub open spec fn rules_in(world: World, prompt: Seq<char>) -> Seq<RuleModel> {
    parsed_schema(template_in(world, prompt).slot_schema_json@)->Ok_0
}

/// The bound slots of a run that got so far.
pub open spec fn bound_in(world: World, prompt: Seq<char>) -> Map<Seq<char>, Seq<char>> {
    trusted_binding(
        template_in(world, prompt),
        proposal_in(world, prompt).intent.slots,
    )->Ok_0
}

proof fn lemma_bound_paths_has(
    names: Seq<Seq<char>>,
    bound: Map<Seq<char>, Seq<char>>,
    name: Seq<char>,
)
    requires
        names.contains(name),
        bound.contains_key(name),
    ensures
        bound_paths(names, bound).contains((name, bound[name])),
    decreases names.len(),
{
    let before = bound_paths(names.drop_last(), bound);
    let i = names.index_of(name);
    if names.last() == name {
        let all = bound_paths(names, bound);
        assert(all.last() == (name, bound[name]));
    } else {
        assert(names.drop_last()[i] == name);
        lemma_bound_paths_has(names.drop_last(), bound, name);
        let k = before.index_of((name, bound[name]));
        assert(bound_paths(names, bound)[k] == before[k]);
    }
}

/// A run from a command on that resolves it accepted all paths that were left, and its
/// policy refused nothing.
proof fn lemma_resolved_from_paths(
    world: World,
    command: CompiledModel,
    request_id: Seq<char>,
    argv: Seq<Seq<char>>,
)
    requires
        run(world, paths_step(command)) == Ok::<OutcomeModel, ErrorModel>(
            OutcomeModel::Resolved { request_id, argv },
        ),
    ensures
        request_id == command.request_id,
        argv == command.argv,
        forall|i: int|
            0 <= i < command.paths.len() ==> (world.verdict)((#[trigger] command.paths[i]).1) is Ok,
        ({
            let id = command.template.policy_rule_id@;
            let policy = stored_policy((world.policy)(id), id);
            &&& policy is Ok
            &&& audit_fault(policy->Ok_0, argv, world.inherited, world.host) is None
        }),
    decreases command.paths.len(),
{
    reveal_with_fuel(run, 4);
    if command.paths.len() > 0 {
        let rest = CompiledModel { paths: command.paths.drop_first(), ..command };
        assert((world.verdict)(command.paths[0].1) is Ok);
        lemma_resolved_from_paths(world, rest, request_id, argv);
        assert forall|i: int| 0 <= i < command.paths.len() implies (world.verdict)(
            (#[trigger] command.paths[i]).1,
        ) is Ok by {
            if i > 0 {
                assert(rest.paths[i - 1] == command.paths[i]);
            }
        }
    }
}

/// A prompt is resolved only by way of every check. The command is what the trusted
/// template of the request makes of the slots that passed its schema; every slot that
/// takes paths and is bound had its path accepted; and the policy of the template refuses
/// nothing of the command or of either environment.
pub proof fn law_resolved_commands_had_every_path_accepted(
    world: World,
    prompt: Seq<char>,
    request_id: Seq<char>,
    argv: Seq<Seq<char>>,
)
    requires
        run(world, PipelineModel::FindCorrection(prompt)) == Ok::<OutcomeModel, ErrorModel>(
            OutcomeModel::Resolved { request_id, argv },
        ),
    ensures
        world.request == Ok::<Seq<char>, Seq<char>>(request_id),
        (world.answer)(query_of(world, prompt)) is Ok,
        proposal_in(world, prompt).intent.candidate is Some,
        (world.template)(proposal_in(world, prompt).intent.candidate->0) is Ok,
        trusted_binding(
            template_in(world, prompt),
            proposal_in(world, prompt).intent.slots,
        ) is Ok,
        compiled_argv(template_in(world, prompt).template_argv_json@, bound_in(world, prompt))
            == Ok::<Seq<Seq<char>>, SlotFault>(argv),
        forall|i: int|
            0 <= i < rules_in(world, prompt).len() && is_path_rule(
                #[trigger] rules_in(world, prompt)[i],
            ) && bound_in(world, prompt).contains_key(rules_in(world, prompt)[i].name)
                ==> (world.verdict)(
                bound_in(world, prompt)[rules_in(world, prompt)[i].name],
            ) is Ok,
        ({
            let id = template_in(world, prompt).policy_rule_id@;
            let policy = stored_policy((world.policy)(id), id);
            &&& policy is Ok
            &&& audit_fault(policy->Ok_0, argv, world.inherited, world.host) is None
        }),
{
    reveal_with_fuel(run, 7);
    let proposal = proposal_in(world, prompt);
    let template = template_in(world, prompt);
    let rules = rules_in(world, prompt);
    let bound = bound_in(world, prompt);
    let names = path_slots(rules);
    let command = CompiledModel {
        request_id: world.request->Ok_0,
        template,
        slots: proposal.intent.slots,
        argv: compiled_argv(template.template_argv_json@, bound)->Ok_0,
        paths: bound_paths(names, bound),
    };
    assert(run(world, paths_step(command)) == run(world, PipelineModel::FindCorrection(prompt)));
    lemma_resolved_from_paths(world, command, request_id, argv);
    assert forall|i: int|
        0 <= i < rules.len() && is_path_rule(#[trigger] rules[i]) && bound.contains_key(
            rules[i].name,
        ) implies (world.verdict)(bound[rules[i].name]) is Ok by {
        lemma_path_slots_has(rules, i);
        lemma_bound_paths_has(names, bound, rules[i].name);
        let k = command.paths.index_of((rules[i].name, bound[rules[i].name]));
        assert(command.paths[k].1 == bound[rules[i].name]);
    }
}

/// A prompt with a bound path that is not accepted is never resolved.
pub proof fn law_one_refused_path_is_enough(world: World, prompt: Seq<char>, i: int)
    requires
        0 <= i < rules_in(world, prompt).len(),
        is_path_rule(rules_in(world, prompt)[i]),
        bound_in(world, prompt).contains_key(rules_in(world, prompt)[i].name),
        (world.verdict)(bound_in(world, prompt)[rules_in(world, prompt)[i].name]) is Err,
    ensures
        !(run(world, PipelineModel::FindCorrection(prompt)) matches Ok(
            OutcomeModel::Resolved { .. },
        )),
{
    if let Ok(OutcomeModel::Resolved { request_id, argv }) = run(
        world,
        PipelineModel::FindCorrection(prompt),
    ) {
        law_resolved_commands_had_every_path_accepted(world, prompt, request_id, argv);
    }
}

/// Two states keep a trusted template from being used, and no other does: in all others,
/// those of a template that was just learnt among them, the slots are bound as the schema
/// has it.
pub proof fn law_only_disabled_and_revoked_templates_bind_nothing(
    template: TrustedTemplate,
    slots: Map<Seq<char>, Seq<char>>,
    rules: Seq<RuleModel>,
    fault: SlotFault,
)
    ensures
        template.trust_state@ == "DISABLED"@ || template.trust_state@ == "REVOKED"@
            ==> trusted_binding(template, slots) == Err::<Map<Seq<char>, Seq<char>>, SlotFault>(
            SlotFault::TemplateRevoked(template.trust_state@),
        ),
        template.trust_state@ != "DISABLED"@ && template.trust_state@ != "REVOKED"@
            && parsed_schema(template.slot_schema_json@) == Ok::<Seq<RuleModel>, SlotFault>(rules)
            ==> trusted_binding(template, slots) == binding(rules, text_values(slots)),
        template.trust_state@ != "DISABLED"@ && template.trust_state@ != "REVOKED"@
            && parsed_schema(template.slot_schema_json@) == Err::<Seq<RuleModel>, SlotFault>(fault)
            ==> trusted_binding(template, slots) == Err::<Map<Seq<char>, Seq<char>>, SlotFault>(
            fault,
        ),
        (template.trust_state@ == "UNVERIFIED"@ || template.trust_state@ == "STATIC_VERIFIED"@
            || template.trust_state@ == "USER_CONFIRMED"@ || template.trust_state@
            == "PROMOTED_FASTPATH"@) && parsed_schema(template.slot_schema_json@) == Ok::<
            Seq<RuleModel>,
            SlotFault,
        >(rules) ==> trusted_binding(template, slots) == binding(rules, text_values(slots)),
{
    lemma_living_states();
}

/// The paths to be checked are the values of the path slots that are bound, in the order
/// of the slots.
pub proof fn law_bound_paths_follow_their_slots(
    names: Seq<Seq<char>>,
    name: Seq<char>,
    bound: Map<Seq<char>, Seq<char>>,
)
    ensures
        bound_paths(Seq::empty(), bound) == Seq::<(Seq<char>, Seq<char>)>::empty(),
        bound.contains_key(name) ==> bound_paths(names.push(name), bound) == bound_paths(
            names,
            bound,
        ).push((name, bound[name])),
        !bound.contains_key(name) ==> bound_paths(names.push(name), bound) == bound_paths(
            names,
            bound,
        ),
{
    assert(names.push(name).drop_last() =~= names);
}

/// A request that failed a check, as it is reported: with the failure, and where the
/// request could not be marked as blocked, with the message about that.
pub open spec fn reported(
    world: World,
    request_id: Seq<char>,
    failure: FailureModel,
) -> Result<OutcomeModel, ErrorModel> {
    Err(
        ErrorModel {
            failure,
            unmarked: if world.blocking is Ok {
                None
            } else {
                Some(UnmarkedModel { request_id, message: world.blocking->Err_0 })
            },
        },
    )
}

/// Before a request is recorded, what goes wrong is reported as it is: looking for a
/// correction, reading it, opening the session, and opening the request. A correction that
/// was observed is offered, whatever the rest of the world answers.
pub proof fn law_runs_end_before_the_request(world: World, prompt: Seq<char>)
    ensures
        (world.correction)(prompt) is Err ==> run(world, PipelineModel::FindCorrection(prompt))
            == Err::<OutcomeModel, ErrorModel>(
            ErrorModel {
                failure: FailureModel::CorrectionLookup((world.correction)(prompt)->Err_0),
                unmarked: None,
            },
        ),
        (world.correction)(prompt) matches Ok(Some((request_id, argv_json))) ==> run(
            world,
            PipelineModel::FindCorrection(prompt),
        ) == if json_strings(argv_json) is Ok {
            Ok::<OutcomeModel, ErrorModel>(
                OutcomeModel::LearnFromObservedCorrection {
                    request_id,
                    suggested_argv: json_strings(argv_json)->Ok_0,
                },
            )
        } else {
            Err(
                ErrorModel {
                    failure: FailureModel::CorrectionLookup(
                        storage_fault_text(
                            StorageFault::InvalidCorrection(json_strings(argv_json)->Err_0),
                        ),
                    ),
                    unmarked: None,
                },
            )
        },
        (world.correction)(prompt) matches Ok(None) ==> (world.session is Err ==> run(
            world,
            PipelineModel::FindCorrection(prompt),
        ) == Err::<OutcomeModel, ErrorModel>(
            ErrorModel {
                failure: FailureModel::SessionRecord(world.session->Err_0),
                unmarked: None,
            },
        )),
        (world.correction)(prompt) matches Ok(None) ==> (world.session is Ok && world.request is Err
            ==> run(world, PipelineModel::FindCorrection(prompt)) == Err::<
            OutcomeModel,
            ErrorModel,
        >(
            ErrorModel {
                failure: FailureModel::RequestRecord(world.request->Err_0),
                unmarked: None,
            },
        )),
        (world.correction)(prompt) matches Ok(None) ==> (world.session is Ok && world.request is Ok
            ==> run(world, PipelineModel::FindCorrection(prompt)) == run(
            world,
            PipelineModel::AskSidecar(
                QueryModel { request_id: world.request->Ok_0, text: prompt },
            ),
        )),
{
    reveal_with_fuel(run, 4);
}

/// Once a request is recorded, the sidecar is asked for it. Its failure blocks the request;
/// where it has no template, the request is observed, unless it cannot be marked so; and
/// its template is read from the trusted storage, unless it has a blank name.
pub proof fn law_runs_go_on_with_the_template_of_the_sidecar(
    world: World,
    query: QueryModel,
    proposal: ProposalModel,
    template_id: Seq<char>,
)
    requires
        (world.answer)(query) is Ok ==> (world.answer)(query) == Ok::<ProposalModel, IpcFault>(
            proposal,
        ),
        proposal.intent.candidate is Some ==> proposal.intent.candidate == Some(template_id),
    ensures
        (world.answer)(query) is Err ==> run(world, PipelineModel::AskSidecar(query)) == reported(
            world,
            query.request_id,
            FailureModel::Sidecar((world.answer)(query)->Err_0),
        ),
        (world.answer)(query) is Ok && proposal.intent.candidate is None && world.observing is Ok
            ==> run(world, PipelineModel::AskSidecar(query)) == Ok::<OutcomeModel, ErrorModel>(
            OutcomeModel::Observing { request_id: query.request_id },
        ),
        (world.answer)(query) is Ok && proposal.intent.candidate is None && world.observing is Err
            ==> run(world, PipelineModel::AskSidecar(query)) == Err::<OutcomeModel, ErrorModel>(
            ErrorModel {
                failure: FailureModel::MarkObserving {
                    request_id: query.request_id,
                    message: world.observing->Err_0,
                },
                unmarked: None,
            },
        ),
        (world.answer)(query) is Ok && proposal.intent.candidate is Some && is_blank(template_id)
            ==> run(world, PipelineModel::AskSidecar(query)) == reported(
            world,
            query.request_id,
            FailureModel::TemplateFetch(StorageFault::EmptyTemplateId),
        ),
        (world.answer)(query) is Ok && proposal.intent.candidate is Some && !is_blank(template_id)
            && (world.template)(template_id) is Err ==> run(world, PipelineModel::AskSidecar(query))
            == reported(
            world,
            query.request_id,
            FailureModel::TemplateFetch(
                StorageFault::TemplateFetch {
                    template_id,
                    message: (world.template)(template_id)->Err_0@,
                },
            ),
        ),
        (world.answer)(query) is Ok && proposal.intent.candidate is Some ==> run(
            world,
            PipelineModel::AskSidecar(query),
        ) == run(
            world,
            PipelineModel::FetchTemplate(
                CandidateModel {
                    request_id: query.request_id,
                    template_id,
                    slots: proposal.intent.slots,
                },
            ),
        ),
{
    reveal_with_fuel(run, 5);
}

/// The checks behind a trusted template decide in their order: the schema on the slots, the
/// compilation, the first path that is not accepted, the policy, and the audit. A command
/// that passes them all is resolved, with the arguments that the template makes.
pub proof fn law_runs_resolve_what_passes_every_check(
    world: World,
    candidate: CandidateModel,
    template: TrustedTemplate,
    k: int,
)
    requires
        !is_blank(candidate.template_id),
        (world.template)(candidate.template_id) == Ok::<TrustedTemplate, String>(template),
        template_passes(candidate, template) ==> 0 <= k <= paths_of(candidate, template).len(),
        template_passes(candidate, template) ==> forall|i: int|
            0 <= i < k ==> (world.verdict)((#[trigger] paths_of(candidate, template)[i]).1) is Ok,
        template_passes(candidate, template) && k < paths_of(candidate, template).len() ==> (
        world.verdict)(paths_of(candidate, template)[k].1) is Err,
    ensures
        ({
            let bound = trusted_binding(template, candidate.slots);
            let argv = compiled_argv(template.template_argv_json@, bound->Ok_0);
            let policy = stored_policy(
                (world.policy)(template.policy_rule_id@),
                template.policy_rule_id@,
            );
            let fault = audit_fault(policy->Ok_0, argv->Ok_0, world.inherited, world.host);
            run(world, PipelineModel::FetchTemplate(candidate)) == if bound is Err {
                reported(
                    world,
                    candidate.request_id,
                    FailureModel::SlotBinding(bound->Err_0),
                )
            } else if argv is Err {
                reported(
                    world,
                    candidate.request_id,
                    FailureModel::TemplateCompilation(argv->Err_0),
                )
            } else if k < paths_of(candidate, template).len() {
                reported(
                    world,
                    candidate.request_id,
                    FailureModel::PathSlot {
                        slot: paths_of(candidate, template)[k].0,
                        fault: (world.verdict)(paths_of(candidate, template)[k].1)->Err_0,
                    },
                )
            } else if policy is Err {
                reported(world, candidate.request_id, FailureModel::PolicyLoad(policy->Err_0))
            } else if fault is Some {
                reported(world, candidate.request_id, FailureModel::PolicyAudit(fault->0))
            } else {
                Ok(
                    OutcomeModel::Resolved {
                        request_id: candidate.request_id,
                        argv: argv->Ok_0,
                    },
                )
            }
        }),
{
    reveal_with_fuel(run, 3);
    let bound = trusted_binding(template, candidate.slots);
    let argv = compiled_argv(template.template_argv_json@, bound->Ok_0);
    if bound is Ok && argv is Ok {
        let command = CompiledModel {
            request_id: candidate.request_id,
            template,
            slots: candidate.slots,
            argv: argv->Ok_0,
            paths: paths_of(candidate, template),
        };
        assert(template_step(candidate, (world.template)(candidate.template_id)) == paths_step(
            command,
        ));
        lemma_checks_of_paths(world, command, k);
    }
}

/// The slots are bound by the template, and the command is compiled.
pub open spec fn template_passes(candidate: CandidateModel, template: TrustedTemplate) -> bool {
    &&& trusted_binding(template, candidate.slots) is Ok
    &&& compiled_argv(
        template.template_argv_json@,
        trusted_binding(template, candidate.slots)->Ok_0,
    ) is Ok
}

/// The bound path slots of a template, each with its path.
pub open spec fn paths_of(candidate: CandidateModel, template: TrustedTemplate) -> Seq<
    (Seq<char>, Seq<char>),
> {
    bound_paths(
        path_slots(parsed_schema(template.slot_schema_json@)->Ok_0),
        trusted_binding(template, candidate.slots)->Ok_0,
    )
}

proof fn lemma_checks_of_paths(world: World, command: CompiledModel, k: int)
    requires
        0 <= k <= command.paths.len(),
        forall|i: int|
            0 <= i < k ==> (world.verdict)((#[trigger] command.paths[i]).1) is Ok,
        k < command.paths.len() ==> (world.verdict)(command.paths[k].1) is Err,
    ensures
        ({
            let policy = stored_policy(
                (world.policy)(command.template.policy_rule_id@),
                command.template.policy_rule_id@,
            );
            let fault = audit_fault(policy->Ok_0, command.argv, world.inherited, world.host);
            run(world, paths_step(command)) == if k < command.paths.len() {
                reported(
                    world,
                    command.request_id,
                    FailureModel::PathSlot {
                        slot: command.paths[k].0,
                        fault: (world.verdict)(command.paths[k].1)->Err_0,
                    },
                )
            } else if policy is Err {
                reported(world, command.request_id, FailureModel::PolicyLoad(policy->Err_0))
            } else if fault is Some {
                reported(world, command.request_id, FailureModel::PolicyAudit(fault->0))
            } else {
                Ok(OutcomeModel::Resolved { request_id: command.request_id, argv: command.argv })
            }
        }),
    decreases command.paths.len(),
{
    reveal_with_fuel(run, 5);
    if command.paths.len() > 0 && k > 0 {
        let rest = CompiledModel { paths: command.paths.drop_first(), ..command };
        assert((world.verdict)(command.paths[0].1) is Ok);
        assert forall|i: int| 0 <= i < k - 1 implies (world.verdict)(
            (#[trigger] rest.paths[i]).1,
        ) is Ok by {
            assert(rest.paths[i] == command.paths[i + 1]);
        }
        lemma_checks_of_paths(world, rest, k - 1);
    }
}

/// What is reported of a prompt without an outcome names the check that failed, with what it
/// reports.
pub proof fn law_failures_are_reported(
    message: Seq<char>,
    fault: IpcFault,
    request_id: Seq<char>,
    template_fetch_fault: StorageFault,
    slot_binding_fault: SlotFault,
    template_compilation_fault: SlotFault,
    path_schema_fault: SlotFault,
    slot: Seq<char>,
    path_slot_fault: PathFault,
    policy_load_fault: PolicyFault,
    policy_audit_fault: PolicyFault,
)
    ensures
        failure_text(FailureModel::CorrectionLookup(message))
            == "failed to check for a previously observed correction: "@ + message,
        failure_text(FailureModel::SessionRecord(message))
            == "failed to record session before natural-language lookup: "@ + message,
        failure_text(FailureModel::RequestRecord(message))
            == "failed to record request before natural-language lookup: "@ + message,
        failure_text(FailureModel::Sidecar(fault))
            == "failed to reach the sidecar for natural-language interpretation: "@
            + ipc_fault_text(fault),
        failure_text(FailureModel::MarkObserving { request_id, message })
            == "sidecar found no matching template; failed to mark request_id="@ + request_id
            + " OBSERVING: "@ + message,
        failure_text(FailureModel::TemplateFetch(template_fetch_fault))
            == "failed to reload the trusted template named by the sidecar: "@
            + storage_fault_text(template_fetch_fault),
        failure_text(FailureModel::SlotBinding(slot_binding_fault))
            == "sidecar slots failed trusted schema validation: "@
            + slot_fault_text(slot_binding_fault),
        failure_text(FailureModel::TemplateCompilation(template_compilation_fault))
            == "trusted template could not be compiled into a final command: "@
            + slot_fault_text(template_compilation_fault),
        failure_text(FailureModel::PathSchema(path_schema_fault))
            == "a path-like slot escaped the workspace boundary: "@
            + slot_fault_text(path_schema_fault),
        failure_text(FailureModel::PathSlot { slot, fault: path_slot_fault })
            == "a path-like slot escaped the workspace boundary: path slot '"@ + slot
            + "' failed workspace boundary validation: "@ + path_fault_text(path_slot_fault),
        failure_text(FailureModel::PolicyLoad(policy_load_fault))
            == "failed to load the trusted policy rule for this template: "@
            + policy_fault_text(policy_load_fault),
        failure_text(FailureModel::PolicyAudit(policy_audit_fault))
            == "compiled command failed the trusted policy audit: "@
            + policy_fault_text(policy_audit_fault),
{
}

/// Where a request that failed a check could not be marked either, both are reported: what
/// the audit refused inside its own report, every other check by its name, with the request
/// and the message about the marking.
pub proof fn law_unmarked_requests_are_reported(
    fault: SlotFault,
    path_fault: PathFault,
    policy_fault: PolicyFault,
    slot: Seq<char>,
    failure: FailureModel,
    request_id: Seq<char>,
    message: Seq<char>,
)
    ensures
        error_text(ErrorModel { failure, unmarked: None }) == failure_text(failure),
        error_text(
            ErrorModel {
                failure: FailureModel::SlotBinding(fault),
                unmarked: Some(UnmarkedModel { request_id, message }),
            },
        ) == "slot validation failed with "@ + slot_fault_text(fault)
            + "; failed to mark request_id="@ + request_id + " SECURITY_BLOCKED: "@ + message,
        error_text(
            ErrorModel {
                failure: FailureModel::TemplateCompilation(fault),
                unmarked: Some(UnmarkedModel { request_id, message }),
            },
        ) == "template compilation failed with "@ + slot_fault_text(fault)
            + "; failed to mark request_id="@ + request_id + " SECURITY_BLOCKED: "@ + message,
        error_text(
            ErrorModel {
                failure: FailureModel::PathSchema(fault),
                unmarked: Some(UnmarkedModel { request_id, message }),
            },
        ) == "path validation failed with "@ + slot_fault_text(fault)
            + "; failed to mark request_id="@ + request_id + " SECURITY_BLOCKED: "@ + message,
        error_text(
            ErrorModel {
                failure: FailureModel::PathSlot { slot, fault: path_fault },
                unmarked: Some(UnmarkedModel { request_id, message }),
            },
        ) == "path validation failed with path slot '"@ + slot
            + "' failed workspace boundary validation"@ + "; failed to mark request_id="@
            + request_id + " SECURITY_BLOCKED: "@ + message,
        error_text(
            ErrorModel {
                failure: FailureModel::PolicyAudit(policy_fault),
                unmarked: Some(UnmarkedModel { request_id, message }),
            },
        ) == "compiled command failed the trusted policy audit: "@ + (
        "failed to mark request SECURITY_BLOCKED: "@ + ("policy error was "@ + policy_fault_text(
            policy_fault,
        ) + "; status update failed with "@ + message)),
        failure is Sidecar || failure is TemplateFetch || failure is PolicyLoad ==> error_text(
            ErrorModel { failure, unmarked: Some(UnmarkedModel { request_id, message }) },
        ) == failure_text(failure) + "; failed to mark request_id="@ + request_id
            + " SECURITY_BLOCKED: "@ + message,
{
}

/// A request is recorded in the session that was found or opened for it, and asked for under
/// its own id, always with the words of the prompt.
pub proof fn law_requests_are_recorded_in_their_session(
    prompt: Seq<char>,
    session_id: Seq<char>,
    request_id: Seq<char>,
)
    ensures
        correction_step(prompt, Ok(None)) == PipelineModel::OpenSession(prompt),
        session_step(prompt, Ok(session_id)) == PipelineModel::OpenRequest(
            SessionPromptModel { session_id, text: prompt },
        ),
        request_step(SessionPromptModel { session_id, text: prompt }, Ok(request_id))
            == PipelineModel::AskSidecar(QueryModel { request_id, text: prompt }),
{
}

}
