//! Learning: how a corrected command becomes a template.
use crate::ids::{is_random_id, random_id};
use crate::json::{encode_strings, json_strings, strings_json};
use crate::policy::{
    argv_fault, audit_argv_policy, destructive_arg, is_flag_arg,
    law_passed_argv_is_free_of_blocked_risks, law_passed_argv_keeps_to_the_flags,
    law_passed_argv_runs_the_policy_program, load_policy_rule, network_arg, policy_fault_text,
    privilege_arg, stored_policy, PolicyError, PolicyFault, PolicyModel, PolicyRow, PolicyRule,
    RiskLevel,
};
use crate::shell::shell_words_of;
use crate::storage::{
    learned, mark_refused_learning, mark_request_learned, refused_learning, tokenize_command_line,
    LearnedTemplate, RequestStatus, StorageError, StorageFault,
};
use crate::text::{is_blank, text_is_blank, texts};
use crate::validate::{lemma_living_states, template_binding, text_binding};
use vstd::prelude::*;

verus! {

// ---------------------------------------------------------------------------
// Errors
// ---------------------------------------------------------------------------

/// Why a corrected command was not learned.
#[derive(Debug, PartialEq, Eq)]
pub enum LearnError {
    EmptyRequestId,
    Tokenize { request_id: String, message: String },
    EmptyCommand,
    RuleLookup { argv: Vec<String>, binary: String, subcommand: String, message: String },
    NoPolicyRule { argv: Vec<String>, binary: String, subcommand: String, message: String },
    PolicyLoad { rule_id: String, error: PolicyError },
    PolicyViolation { argv: Vec<String>, rule_id: String, error: PolicyError },
    Unmarked { request_id: String, error: PolicyError, message: String },
    RequestMissing { request_id: String, message: String },
    Storage(String),
}

/// What a [`LearnError`] says.
pub ghost enum LearnFault {
    EmptyRequestId,
    Tokenize { request_id: Seq<char>, message: Seq<char> },
    EmptyCommand,
    RuleLookup {
        argv: Seq<Seq<char>>,
        binary: Seq<char>,
        subcommand: Seq<char>,
        message: Seq<char>,
    },
    NoPolicyRule {
        argv: Seq<Seq<char>>,
        binary: Seq<char>,
        subcommand: Seq<char>,
        message: Seq<char>,
    },
    PolicyLoad { rule_id: Seq<char>, fault: PolicyFault },
    PolicyViolation { argv: Seq<Seq<char>>, rule_id: Seq<char>, fault: PolicyFault },
    Unmarked { request_id: Seq<char>, fault: PolicyFault, message: Seq<char> },
    RequestMissing { request_id: Seq<char>, message: Seq<char> },
    Storage(Seq<char>),
}

impl View for LearnError {
    type V = LearnFault;

    open spec fn view(&self) -> LearnFault {
        match self {
            LearnError::EmptyRequestId => LearnFault::EmptyRequestId,
            LearnError::Tokenize { request_id, message } => LearnFault::Tokenize {
                request_id: request_id@,
                message: message@,
            },
            LearnError::EmptyCommand => LearnFault::EmptyCommand,
            LearnError::RuleLookup { argv, binary, subcommand, message } => {
                LearnFault::RuleLookup {
                    argv: texts(argv@),
                    binary: binary@,
                    subcommand: subcommand@,
                    message: message@,
                }
            },
            LearnError::NoPolicyRule { argv, binary, subcommand, message } => {
                LearnFault::NoPolicyRule {
                    argv: texts(argv@),
                    binary: binary@,
                    subcommand: subcommand@,
                    message: message@,
                }
            },
            LearnError::PolicyLoad { rule_id, error } => LearnFault::PolicyLoad {
                rule_id: rule_id@,
                fault: error@,
            },
            LearnError::PolicyViolation { argv, rule_id, error } => LearnFault::PolicyViolation {
                argv: texts(argv@),
                rule_id: rule_id@,
                fault: error@,
            },
            LearnError::Unmarked { request_id, error, message } => LearnFault::Unmarked {
                request_id: request_id@,
                fault: error@,
                message: message@,
            },
            LearnError::RequestMissing { request_id, message } => LearnFault::RequestMissing {
                request_id: request_id@,
                message: message@,
            },
            LearnError::Storage(message) => LearnFault::Storage(message@),
        }
    }
}

/// The text that `format!("{:?}", ..)` of std makes of a list of texts.
pub uninterp spec fn list_debug_text(list: Seq<Seq<char>>) -> Seq<char>;

/// `format!("{:?}", ..)` of std on a list of texts. Its result is named, since std leaves
/// the escapes that it writes to itself: it depends on nothing but the texts.
#[verifier::external_body]
fn debug_list(list: &Vec<String>) -> (text: String)
    ensures
        text@ == list_debug_text(texts(list@)),
{
    format!("{:?}", list)
}

/// The text that reports a fault to the user.
pub open spec fn learn_fault_text(fault: LearnFault) -> Seq<char> {
    match fault {
        LearnFault::EmptyRequestId => "request_id must not be empty"@,
        LearnFault::Tokenize { request_id, message } => {
            "failed to tokenize corrected command for request_id="@ + request_id + ": "@ + message
        },
        LearnFault::EmptyCommand => "corrected command must not be empty"@,
        LearnFault::RuleLookup { argv, binary, subcommand, message } => {
            "no policy rule matches learned command "@ + list_debug_text(argv)
                + ": failed to query policy rule for binary="@ + binary + " subcommand="@
                + subcommand + ": "@ + message
        },
        LearnFault::NoPolicyRule { argv, binary, subcommand, message } => {
            "no policy rule matches learned command "@ + list_debug_text(argv)
                + ": policy rule not found for binary="@ + binary + " subcommand="@ + subcommand
                + ": "@ + message
        },
        LearnFault::PolicyLoad { rule_id, fault } => "failed to load policy rule "@ + rule_id
            + " while auditing learned command: "@ + policy_fault_text(fault),
        LearnFault::PolicyViolation { argv, rule_id, fault } => {
            "corrected command argv "@ + list_debug_text(argv) + " violates policy "@ + rule_id
                + ": "@ + policy_fault_text(fault)
        },
        LearnFault::Unmarked { request_id, fault, message } => {
            "corrected command failed policy audit with "@ + policy_fault_text(fault)
                + "; failed to mark request_id="@ + request_id + " SECURITY_BLOCKED: "@ + message
        },
        LearnFault::RequestMissing { request_id, message } => "request_id="@ + request_id
            + " is missing or expired: "@ + message,
        LearnFault::Storage(message) => message,
    }
}

impl LearnError {
    /// The text that reports the error to the user.
    pub fn message(&self) -> (text: String)
        ensures
            text@ == learn_fault_text(self@),
    {
        match self {
            LearnError::EmptyRequestId => "request_id must not be empty".to_owned(),
            LearnError::Tokenize { request_id, message } => {
                "failed to tokenize corrected command for request_id=".to_owned().concat(
                    request_id.as_str(),
                ).concat(": ").concat(message.as_str())
            },
            LearnError::EmptyCommand => "corrected command must not be empty".to_owned(),
            LearnError::RuleLookup { argv, binary, subcommand, message } => {
                "no policy rule matches learned command ".to_owned().concat(
                    debug_list(argv).as_str(),
                ).concat(": failed to query policy rule for binary=").concat(
                    binary.as_str(),
                ).concat(" subcommand=").concat(subcommand.as_str()).concat(": ").concat(
                    message.as_str(),
                )
            },
            LearnError::NoPolicyRule { argv, binary, subcommand, message } => {
                "no policy rule matches learned command ".to_owned().concat(
                    debug_list(argv).as_str(),
                ).concat(": policy rule not found for binary=").concat(binary.as_str()).concat(
                    " subcommand=",
                ).concat(subcommand.as_str()).concat(": ").concat(message.as_str())
            },
            LearnError::PolicyLoad { rule_id, error } => {
                "failed to load policy rule ".to_owned().concat(rule_id.as_str()).concat(
                    " while auditing learned command: ",
                ).concat(error.message().as_str())
            },
            LearnError::PolicyViolation { argv, rule_id, error } => {
                "corrected command argv ".to_owned().concat(debug_list(argv).as_str()).concat(
                    " violates policy ",
                ).concat(rule_id.as_str()).concat(": ").concat(error.message().as_str())
            },
            LearnError::Unmarked { request_id, error, message } => {
                "corrected command failed policy audit with ".to_owned().concat(
                    error.message().as_str(),
                ).concat("; failed to mark request_id=").concat(request_id.as_str()).concat(
                    " SECURITY_BLOCKED: ",
                ).concat(message.as_str())
            },
            LearnError::RequestMissing { request_id, message } => {
                "request_id=".to_owned().concat(request_id.as_str()).concat(
                    " is missing or expired: ",
                ).concat(message.as_str())
            },
            LearnError::Storage(message) => message.clone(),
        }
    }
}

// ---------------------------------------------------------------------------
// The steps
// ---------------------------------------------------------------------------

/// What a request that is still valid says of the place where it was made.
#[derive(Debug, Clone, PartialEq, Eq)]
pub struct RequestLearningContext {
    pub request_id: String,
    pub raw_user_prompt: String,
    pub canonical_cwd: String,
    pub canonical_git_root: Option<String>,
}

/// A learned template as it is stored.
#[derive(Debug, PartialEq, Eq)]
pub struct LearnedRow {
    pub doc_id: String,
    pub source_type: String,
    pub binary_name: String,
    pub subcommand_path: String,
    pub intent_description: String,
    pub template_argv_json: String,
    pub slot_schema_json: String,
    pub policy_rule_id: String,
    pub project_root_hash: String,
    pub scope_mode: String,
    pub trust_state: String,
    pub created_from_request_id: String,
}

/// A corrected command for which a policy is being looked for.
#[derive(Debug, PartialEq, Eq)]
pub struct Correction {
    request_id: String,
    argv: Vec<String>,
}

/// What a [`Correction`] says.
pub ghost struct CorrectionModel {
    pub request_id: Seq<char>,
    pub argv: Seq<Seq<char>>,
}

impl View for Correction {
    type V = CorrectionModel;

    closed spec fn view(&self) -> CorrectionModel {
        CorrectionModel { request_id: self.request_id@, argv: texts(self.argv@) }
    }
}

impl CorrectionModel {
    /// The request has an id, and the command has a program.
    pub open spec fn wf(self) -> bool {
        !is_blank(self.request_id) && self.argv.len() > 0
    }

    /// The program of the command.
    pub open spec fn binary(self) -> Seq<char> {
        self.argv[0]
    }

    /// The word behind the program, if there is one.
    pub open spec fn subcommand(self) -> Seq<char> {
        if self.argv.len() > 1 {
            self.argv[1]
        } else {
            Seq::empty()
        }
    }
}

/// A corrected command with the id of the policy that governs it.
#[derive(Debug, PartialEq, Eq)]
pub struct Governed {
    correction: Correction,
    rule_id: String,
}

/// What a [`Governed`] command says.
pub ghost struct GovernedModel {
    pub correction: CorrectionModel,
    pub rule_id: Seq<char>,
}

impl View for Governed {
    type V = GovernedModel;

    closed spec fn view(&self) -> GovernedModel {
        GovernedModel { correction: self.correction@, rule_id: self.rule_id@ }
    }
}

/// A corrected command that its policy lets through.
#[derive(Debug, PartialEq, Eq)]
pub struct Audited {
    governed: Governed,
    policy: PolicyRule,
}

impl Audited {
    /// The command that was let through.
    pub closed spec fn governed(&self) -> GovernedModel {
        self.governed@
    }

    /// The policy that it was held to.
    pub closed spec fn policy(&self) -> PolicyModel {
        self.policy@
    }

    /// The policy refuses nothing of the command.
    pub open spec fn wf(&self) -> bool {
        &&& self.governed().correction.wf()
        &&& argv_fault(self.policy(), self.governed().correction.argv) is None
    }
}

/// A corrected command that its policy refuses.
#[derive(Debug, PartialEq, Eq)]
pub struct Refused {
    governed: Governed,
    error: PolicyError,
}

impl Refused {
    /// The command that was refused.
    pub closed spec fn governed(&self) -> GovernedModel {
        self.governed@
    }

    /// What the policy refused of it.
    pub closed spec fn fault(&self) -> PolicyFault {
        self.error@
    }
}

/// A learned template that is ready to be stored.
#[derive(Debug, PartialEq, Eq)]
pub struct Learning {
    request_id: String,
    row: LearnedRow,
    argv: Vec<String>,
    policy: PolicyRule,
}

impl Learning {
    /// The request that is corrected.
    pub closed spec fn request_id(&self) -> Seq<char> {
        self.request_id@
    }

    /// The row to store.
    pub closed spec fn row(&self) -> LearnedRow {
        self.row
    }

    /// The argument list of the template.
    pub closed spec fn argv(&self) -> Seq<Seq<char>> {
        texts(self.argv@)
    }

    /// The policy that the template was held to.
    pub closed spec fn policy(&self) -> PolicyModel {
        self.policy@
    }

    /// Nothing is stored that the policy refuses: the argument list of the template
    /// passed, and it is the one that the stored text is read back as.
    pub open spec fn wf(&self) -> bool {
        &&& argv_fault(self.policy(), self.argv()) is None
        &&& json_strings(self.row().template_argv_json@) == Ok::<Seq<Seq<char>>, Seq<char>>(
            self.argv(),
        )
    }
}

/// What learning asks of the storage next, or its outcome.
#[derive(Debug, PartialEq, Eq)]
pub enum LearnStep {
    /// Look for the policy of the program and its subcommand.
    FindExactRule(Correction),
    /// Look for the policy of the program alone.
    FindBinaryRule(Correction),
    /// Read the policy.
    LoadRule(Governed),
    /// Give the request the state of [`Refused::marking`].
    MarkBlocked(Refused),
    /// Read the context of the request, if it is still valid.
    LoadContext(Audited),
    /// Store the row of [`Learning::learned_row`] and give the request the state of
    /// [`Learning::marking`], both or neither.
    Save(Learning),
    /// The template was learned, or it was not.
    Done(Result<LearnedTemplate, LearnError>),
}

/// The words of a corrected command, or why there are none to learn.
pub open spec fn correction_of(request_id: Seq<char>, command: Seq<char>) -> Result<
    CorrectionModel,
    LearnFault,
> {
    if is_blank(request_id) {
        Err(LearnFault::EmptyRequestId)
    } else {
        match shell_words_of(command) {
            Err(message) => Err(
                LearnFault::Tokenize {
                    request_id,
                    message: "failed to parse corrected command as POSIX shell words: "@ + message,
                },
            ),
            Ok(argv) => if argv.len() == 0 {
                Err(LearnFault::EmptyCommand)
            } else {
                Ok(CorrectionModel { request_id, argv })
            },
        }
    }
}

/// The learning ends with this fault.
pub open spec fn fails_with(step: LearnStep, fault: LearnFault) -> bool {
    step is Done && step->Done_0 is Err && step->Done_0->Err_0@ == fault
}

/// Begins to learn a corrected command for a request. Nothing is asked of the storage
/// unless the command has words.
pub fn learn_from_request(request_id: &str, corrected_command: &str) -> (step: LearnStep)
    ensures
        match correction_of(request_id@, corrected_command@) {
            Ok(correction) => step is FindExactRule && step->FindExactRule_0@ == correction,
            Err(fault) => fails_with(step, fault),
        },
        step is FindExactRule ==> step->FindExactRule_0@.wf(),
{
    if text_is_blank(request_id) {
        return LearnStep::Done(Err(LearnError::EmptyRequestId));
    }
    match tokenize_command_line(corrected_command) {
        Err(message) => LearnStep::Done(
            Err(LearnError::Tokenize { request_id: request_id.to_owned(), message }),
        ),
        Ok(argv) => correct_request(request_id, argv),
    }
}

/// Begins to learn an argument list for a request.
pub fn correct_request(request_id: &str, argv: Vec<String>) -> (step: LearnStep)
    ensures
        if is_blank(request_id@) {
            fails_with(step, LearnFault::EmptyRequestId)
        } else if argv@.len() == 0 {
            fails_with(step, LearnFault::EmptyCommand)
        } else {
            step is FindExactRule && step->FindExactRule_0@ == (CorrectionModel {
                request_id: request_id@,
                argv: texts(argv@),
            }) && step->FindExactRule_0@.wf()
        },
{
    if text_is_blank(request_id) {
        return LearnStep::Done(Err(LearnError::EmptyRequestId));
    }
    if argv.len() == 0 {
        return LearnStep::Done(Err(LearnError::EmptyCommand));
    }
    LearnStep::FindExactRule(Correction { request_id: request_id.to_owned(), argv })
}

impl Correction {
    /// The program whose policy is looked for.
    pub fn binary(&self) -> (name: &str)
        requires
            self@.wf(),
        ensures
            name@ == self@.binary(),
    {
        self.argv[0].as_str()
    }

    /// The subcommand whose policy is looked for.
    pub fn subcommand(&self) -> (name: &str)
        ensures
            name@ == self@.subcommand(),
    {
        if self.argv.len() > 1 {
            self.argv[1].as_str()
        } else {
            proof {
                reveal_strlit("");
                assert(""@ =~= Seq::<char>::empty());
            }
            ""
        }
    }

    /// Goes on once the policy of the program and its subcommand was looked for. A
    /// policy for exactly these comes before one for the program alone.
    pub fn exact_rule(self, found: Result<Option<String>, String>) -> (step: LearnStep)
        requires
            self@.wf(),
        ensures
            match found {
                Err(message) => fails_with(
                    step,
                    LearnFault::RuleLookup {
                        argv: self@.argv,
                        binary: self@.binary(),
                        subcommand: self@.subcommand(),
                        message: message@,
                    },
                ),
                Ok(Some(rule_id)) => step is LoadRule && step->LoadRule_0@ == (GovernedModel {
                    correction: self@,
                    rule_id: rule_id@,
                }),
                Ok(None) => step == LearnStep::FindBinaryRule(self),
            },
    {
        match found {
            Err(message) => {
                let binary = self.binary().to_owned();
                let subcommand = self.subcommand().to_owned();
                LearnStep::Done(
                    Err(LearnError::RuleLookup { argv: self.argv, binary, subcommand, message }),
                )
            },
            Ok(Some(rule_id)) => LearnStep::LoadRule(Governed { correction: self, rule_id }),
            Ok(None) => LearnStep::FindBinaryRule(self),
        }
    }

    /// Goes on once the policy of the program alone was looked for; `Err` holds the message
    /// where there is none, or where the storage could not tell.
    pub fn binary_rule(self, found: Result<String, String>) -> (step: LearnStep)
        requires
            self@.wf(),
        ensures
            match found {
                Ok(rule_id) => step is LoadRule && step->LoadRule_0@ == (GovernedModel {
                    correction: self@,
                    rule_id: rule_id@,
                }),
                Err(message) => fails_with(
                    step,
                    LearnFault::NoPolicyRule {
                        argv: self@.argv,
                        binary: self@.binary(),
                        subcommand: self@.subcommand(),
                        message: message@,
                    },
                ),
            },
    {
        match found {
            Ok(rule_id) => LearnStep::LoadRule(Governed { correction: self, rule_id }),
            Err(message) => {
                let binary = self.binary().to_owned();
                let subcommand = self.subcommand().to_owned();
                LearnStep::Done(
                    Err(LearnError::NoPolicyRule { argv: self.argv, binary, subcommand, message }),
                )
            },
        }
    }
}

impl Governed {
    /// The policy that governs the command.
    pub fn rule_id(&self) -> (id: &str)
        ensures
            id@ == self@.rule_id,
    {
        self.rule_id.as_str()
    }

    /// Goes on once the policy was read: the command is held to it before anything is
    /// stored.
    pub fn rule_loaded(self, row: Option<PolicyRow>) -> (step: LearnStep)
        requires
            self@.correction.wf(),
        ensures
            match stored_policy(row, self@.rule_id) {
                Err(fault) => fails_with(
                    step,
                    LearnFault::PolicyLoad { rule_id: self@.rule_id, fault },
                ),
                Ok(policy) => match argv_fault(policy, self@.correction.argv) {
                    Some(fault) => step is MarkBlocked && step->MarkBlocked_0.governed() == self@
                        && step->MarkBlocked_0.fault() == fault,
                    None => step is LoadContext && step->LoadContext_0.wf()
                        && step->LoadContext_0.governed() == self@
                        && step->LoadContext_0.policy() == policy,
                },
            },
    {
        match load_policy_rule(row, self.rule_id.as_str()) {
            Err(error) => LearnStep::Done(
                Err(LearnError::PolicyLoad { rule_id: self.rule_id, error }),
            ),
            Ok(policy) => match audit_argv_policy(&policy, &self.correction.argv) {
                Err(error) => LearnStep::MarkBlocked(Refused { governed: self, error }),
                Ok(()) => LearnStep::LoadContext(Audited { governed: self, policy }),
            },
        }
    }
}

impl Audited {
    /// The request that is corrected.
    pub fn request_id(&self) -> (id: &str)
        ensures
            id@ == self.governed().correction.request_id,
    {
        self.governed.correction.request_id.as_str()
    }

    /// Goes on once the context of the request was read; `Err` holds the message where the
    /// request is missing or expired, or where the storage could not tell.
    pub fn context_found(self, context: Result<RequestLearningContext, String>) -> (step: LearnStep)
        requires
            self.wf(),
        ensures
            match context {
                Err(message) => fails_with(
                    step,
                    LearnFault::RequestMissing {
                        request_id: self.governed().correction.request_id,
                        message: message@,
                    },
                ),
                Ok(context) => step is Save && step->Save_0.argv() == self.governed().correction.argv
                    && step->Save_0.request_id() == self.governed().correction.request_id
                    && step->Save_0.policy() == self.policy()
                    && is_row_for(step->Save_0.row(), self.governed(), context)
                    && step->Save_0.wf(),
            },
    {
        let context = match context {
            Ok(context) => context,
            Err(message) => {
                return LearnStep::Done(
                    Err(
                        LearnError::RequestMissing {
                            request_id: self.governed.correction.request_id,
                            message,
                        },
                    ),
                );
            },
        };
        let anchor = match context.canonical_git_root {
            Some(root) => root,
            None => context.canonical_cwd,
        };
        let id = random_id();
        let row = LearnedRow {
            doc_id: "learned_".to_owned().concat(id.as_str()),
            source_type: "USER_TEMPLATE".to_owned(),
            binary_name: self.governed.correction.binary().to_owned(),
            subcommand_path: self.governed.correction.subcommand().to_owned(),
            intent_description: context.raw_user_prompt,
            template_argv_json: encode_strings(&self.governed.correction.argv),
            slot_schema_json: "[]".to_owned(),
            policy_rule_id: self.governed.rule_id,
            project_root_hash: "learned:".to_owned().concat(anchor.as_str()),
            scope_mode: "PROJECT".to_owned(),
            trust_state: "UNVERIFIED".to_owned(),
            created_from_request_id: context.request_id,
        };
        assert(is_learned_id(row.doc_id@)) by {
            assert(is_random_id(id@) && row.doc_id@ == "learned_"@ + id@);
        }
        LearnStep::Save(
            Learning {
                request_id: self.governed.correction.request_id,
                row,
                argv: self.governed.correction.argv,
                policy: self.policy,
            },
        )
    }
}

/// The id of a learned template.
pub open spec fn is_learned_id(doc_id: Seq<char>) -> bool {
    exists|id: Seq<char>| is_random_id(id) && doc_id == "learned_"@ + id
}

/// The place that a learned template belongs to: the repository of the request, or the
/// directory where there is none.
pub open spec fn anchor_of(context: RequestLearningContext) -> Seq<char> {
    match context.canonical_git_root {
        Some(root) => root@,
        None => context.canonical_cwd@,
    }
}

/// The row stores a command that was learned in a context: an unverified template of
/// the user, without slots, whose arguments are read back as they were.
pub open spec fn is_row_for(
    row: LearnedRow,
    governed: GovernedModel,
    context: RequestLearningContext,
) -> bool {
    &&& is_learned_id(row.doc_id@)
    &&& row.source_type@ == "USER_TEMPLATE"@
    &&& row.binary_name@ == governed.correction.binary()
    &&& row.subcommand_path@ == governed.correction.subcommand()
    &&& row.intent_description@ == context.raw_user_prompt@
    &&& row.template_argv_json@ == strings_json(governed.correction.argv)
    &&& json_strings(row.template_argv_json@) == Ok::<Seq<Seq<char>>, Seq<char>>(
        governed.correction.argv,
    )
    &&& row.slot_schema_json@ == "[]"@
    &&& row.policy_rule_id@ == governed.rule_id
    &&& row.project_root_hash@ == "learned:"@ + anchor_of(context)
    &&& row.scope_mode@ == "PROJECT"@
    &&& row.trust_state@ == "UNVERIFIED"@
    &&& row.created_from_request_id@ == context.request_id@
}

impl Refused {
    /// The request to mark.
    pub fn request_id(&self) -> (id: &str)
        ensures
            id@ == self.governed().correction.request_id,
    {
        self.governed.correction.request_id.as_str()
    }

    /// The state to give the request, whose state is `current`: it is blocked, also while
    /// it is observed.
    pub fn marking(&self, current: Option<RequestStatus>) -> (result: Result<
        RequestStatus,
        StorageError,
    >)
        ensures
            match result {
                Ok(status) => refused_learning(self.governed().correction.request_id, current)
                    == Ok::<RequestStatus, StorageFault>(status) && status
                    == RequestStatus::SecurityBlocked,
                Err(error) => refused_learning(self.governed().correction.request_id, current)
                    == Err::<RequestStatus, StorageFault>(error@),
            },
    {
        mark_refused_learning(self.governed.correction.request_id.as_str(), current)
    }

    /// Ends once the request was marked; `Err` holds the message where that failed.
    pub fn marked(self, marking: Result<(), String>) -> (step: LearnStep)
        ensures
            match marking {
                Ok(()) => fails_with(
                    step,
                    LearnFault::PolicyViolation {
                        argv: self.governed().correction.argv,
                        rule_id: self.governed().rule_id,
                        fault: self.fault(),
                    },
                ),
                Err(message) => fails_with(
                    step,
                    LearnFault::Unmarked {
                        request_id: self.governed().correction.request_id,
                        fault: self.fault(),
                        message: message@,
                    },
                ),
            },
    {
        match marking {
            Ok(()) => LearnStep::Done(
                Err(
                    LearnError::PolicyViolation {
                        argv: self.governed.correction.argv,
                        rule_id: self.governed.rule_id,
                        error: self.error,
                    },
                ),
            ),
            Err(message) => LearnStep::Done(
                Err(
                    LearnError::Unmarked {
                        request_id: self.governed.correction.request_id,
                        error: self.error,
                        message,
                    },
                ),
            ),
        }
    }
}

impl Learning {
    /// The row to store.
    pub fn learned_row(&self) -> (row: &LearnedRow)
        ensures
            *row == self.row(),
    {
        &self.row
    }

    /// The request that is corrected.
    pub fn corrected_request(&self) -> (id: &str)
        ensures
            id@ == self.request_id(),
    {
        self.request_id.as_str()
    }

    /// The state to give the request, whose state is `current`, together with the row: it
    /// is approved.
    pub fn marking(&self, current: Option<RequestStatus>) -> (status: Option<RequestStatus>)
        ensures
            status == learned(current),
    {
        mark_request_learned(current)
    }

    /// Ends once the row was stored and the request marked; `Err` holds the message where
    /// that failed.
    pub fn saved(self, saving: Result<(), String>) -> (step: LearnStep)
        ensures
            match saving {
                Ok(()) => step is Done && step->Done_0 is Ok && step->Done_0->Ok_0.doc_id@
                    == self.row().doc_id@ && texts(step->Done_0->Ok_0.argv@) == self.argv(),
                Err(message) => fails_with(step, LearnFault::Storage(message@)),
            },
    {
        match saving {
            Ok(()) => LearnStep::Done(
                Ok(LearnedTemplate { doc_id: self.row.doc_id, argv: self.argv }),
            ),
            Err(message) => LearnStep::Done(Err(LearnError::Storage(message))),
        }
    }
}

// ---------------------------------------------------------------------------
// Laws
// ---------------------------------------------------------------------------

/// What is learned from the command line of an argument list are these arguments: the
/// line is split into the words that it was made of.
pub proof fn law_command_lines_teach_their_arguments(
    request_id: Seq<char>,
    line: Seq<char>,
    argv: Seq<Seq<char>>,
)
    requires
        !is_blank(request_id),
        argv.len() > 0,
        shell_words_of(line) == Ok::<Seq<Seq<char>>, Seq<char>>(argv),
    ensures
        correction_of(request_id, line) == Ok::<CorrectionModel, LearnFault>(
            CorrectionModel { request_id, argv },
        ),
{
}

/// A template that is ready to be stored passed the policy that governs it: it runs the
/// program of the policy, and the policy refuses none of its arguments.
pub proof fn law_stored_templates_passed_their_policy(learning: Learning, i: int)
    requires
        learning.wf(),
        1 <= i < learning.argv().len(),
    ensures
        learning.argv()[0] == learning.policy().binary_name
            || learning.policy().binaries.contains(learning.argv()[0]),
        !learning.policy().flags.blocked.contains(learning.argv()[i]),
        is_flag_arg(learning.argv()[i]) && learning.policy().flags.allowed.len() > 0
            ==> learning.policy().flags.allowed.contains(learning.argv()[i]),
        learning.policy().privilege == RiskLevel::Block ==> !privilege_arg(learning.argv()[i]),
        learning.policy().package_manager == RiskLevel::Block
            && !learning.policy().allow_network_args ==> !network_arg(learning.argv()[i]),
        learning.policy().destructive == RiskLevel::Block ==> !destructive_arg(learning.argv()[i]),
{
    law_passed_argv_runs_the_policy_program(learning.policy(), learning.argv());
    law_passed_argv_keeps_to_the_flags(learning.policy(), learning.argv(), i);
    law_passed_argv_is_free_of_blocked_risks(learning.policy(), learning.argv(), i);
}

/// A blank request is refused before its command is looked at; then a command line that
/// cannot be split; then one without words. The program is the first word, and what counts
/// as its subcommand is the second, or nothing where there is none.
pub proof fn law_corrections_are_split_into_words(
    request_id: Seq<char>,
    command: Seq<char>,
    argv: Seq<Seq<char>>,
)
    ensures
        is_blank(request_id) ==> correction_of(request_id, command) == Err::<
            CorrectionModel,
            LearnFault,
        >(LearnFault::EmptyRequestId),
        !is_blank(request_id) && shell_words_of(command) is Err ==> correction_of(
            request_id,
            command,
        ) == Err::<CorrectionModel, LearnFault>(
            LearnFault::Tokenize {
                request_id,
                message: "failed to parse corrected command as POSIX shell words: "@
                    + shell_words_of(command)->Err_0,
            },
        ),
        !is_blank(request_id) && shell_words_of(command) == Ok::<Seq<Seq<char>>, Seq<char>>(
            Seq::empty(),
        ) ==> correction_of(request_id, command) == Err::<CorrectionModel, LearnFault>(
            LearnFault::EmptyCommand,
        ),
        argv.len() > 0 ==> (CorrectionModel { request_id, argv }).binary() == argv[0],
        argv.len() > 1 ==> (CorrectionModel { request_id, argv }).subcommand() == argv[1],
        argv.len() == 1 ==> (CorrectionModel { request_id, argv }).subcommand() == Seq::<
            char,
        >::empty(),
{
}

/// What is stored of a learnt command: a template of the user for the project that the
/// request was made in, without slots and not yet verified, described by the words of the
/// request. The project is the repository, or the directory where there is none.
pub proof fn law_learned_rows_hold_the_command(
    row: LearnedRow,
    governed: GovernedModel,
    context: RequestLearningContext,
)
    requires
        is_row_for(row, governed, context),
        governed.correction.argv.len() > 0,
    ensures
        row.source_type@ == "USER_TEMPLATE"@,
        row.binary_name@ == governed.correction.argv[0],
        governed.correction.argv.len() > 1 ==> row.subcommand_path@ == governed.correction.argv[1],
        governed.correction.argv.len() == 1 ==> row.subcommand_path@.len() == 0,
        row.intent_description@ == context.raw_user_prompt@,
        json_strings(row.template_argv_json@) == Ok::<Seq<Seq<char>>, Seq<char>>(
            governed.correction.argv,
        ),
        row.slot_schema_json@ == "[]"@,
        row.policy_rule_id@ == governed.rule_id,
        context.canonical_git_root is Some ==> row.project_root_hash@ == "learned:"@
            + context.canonical_git_root->0@,
        context.canonical_git_root is None ==> row.project_root_hash@ == "learned:"@
            + context.canonical_cwd@,
        row.scope_mode@ == "PROJECT"@,
        row.trust_state@ == "UNVERIFIED"@,
        row.created_from_request_id@ == context.request_id@,
        row.doc_id@.len() > 8,
        row.doc_id@.take(8) == "learned_"@,
{
    reveal_strlit("learned_");
    let id = choose|id: Seq<char>| is_random_id(id) && row.doc_id@ == "learned_"@ + id;
    assert(row.doc_id@.take(8) =~= "learned_"@);
}

/// A learnt template can be used: the state that it is stored in leaves the binding of
/// slots to its schema alone.
pub proof fn law_learned_templates_can_be_used(
    row: LearnedRow,
    governed: GovernedModel,
    context: RequestLearningContext,
    raw: Seq<char>,
)
    requires
        is_row_for(row, governed, context),
    ensures
        template_binding(row.trust_state@, row.slot_schema_json@, raw) == text_binding(
            row.slot_schema_json@,
            raw,
        ),
{
    lemma_living_states();
}

/// What is reported of a command that was not learnt names the request, the command or the
/// rule that it is about, with the message about it.
pub proof fn law_faults_of_learning_are_reported(
    request_id: Seq<char>,
    message: Seq<char>,
    argv: Seq<Seq<char>>,
    binary: Seq<char>,
    subcommand: Seq<char>,
    rule_id: Seq<char>,
    fault: PolicyFault,
)
    ensures
        learn_fault_text(LearnFault::EmptyRequestId) == "request_id must not be empty"@,
        learn_fault_text(LearnFault::Tokenize { request_id, message })
            == "failed to tokenize corrected command for request_id="@ + request_id + ": "@
            + message,
        learn_fault_text(LearnFault::EmptyCommand) == "corrected command must not be empty"@,
        learn_fault_text(LearnFault::RuleLookup { argv, binary, subcommand, message })
            == "no policy rule matches learned command "@ + list_debug_text(argv)
            + ": failed to query policy rule for binary="@ + binary + " subcommand="@ + subcommand
            + ": "@ + message,
        learn_fault_text(LearnFault::NoPolicyRule { argv, binary, subcommand, message })
            == "no policy rule matches learned command "@ + list_debug_text(argv)
            + ": policy rule not found for binary="@ + binary + " subcommand="@ + subcommand
            + ": "@ + message,
        learn_fault_text(LearnFault::PolicyLoad { rule_id, fault })
            == "failed to load policy rule "@ + rule_id + " while auditing learned command: "@
            + policy_fault_text(fault),
        learn_fault_text(LearnFault::PolicyViolation { argv, rule_id, fault })
            == "corrected command argv "@ + list_debug_text(argv) + " violates policy "@ + rule_id
            + ": "@ + policy_fault_text(fault),
        learn_fault_text(LearnFault::Unmarked { request_id, fault, message })
            == "corrected command failed policy audit with "@ + policy_fault_text(fault)
            + "; failed to mark request_id="@ + request_id + " SECURITY_BLOCKED: "@ + message,
        learn_fault_text(LearnFault::RequestMissing { request_id, message }) == "request_id="@
            + request_id + " is missing or expired: "@ + message,
        learn_fault_text(LearnFault::Storage(message)) == message,
{
}

}
