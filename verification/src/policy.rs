//! Policy: what a trusted rule allows of an argument list and of an environment.
use crate::json::{
    complain_of_flag, complain_of_lists, field, flag_or_false, flag_record_complaint, is_record,
    json_text, law_values_are_read_by_their_kind, lists_complaint, member, parse_json,
    read_flag_or_false, read_texts_or_none, texts_or_none, Json, JsonValue,
};
use crate::path_validate::{preview_text, sanitize_terminal_preview_token};
use crate::text::{
    begins_with, first_of, is_blank, is_first_of, is_space, lemma_first_of, list_has, same_text, split_words,
    starts_with_char, text_is_blank, text_less, texts, words,
};
use crate::text_map::{ascending, TextMap};
use vstd::prelude::*;

verus! {

// ---------------------------------------------------------------------------
// Errors
// ---------------------------------------------------------------------------

/// Why a policy could not be loaded, or what it refuses.
#[derive(Debug, Clone, PartialEq, Eq)]
pub enum PolicyError {
    InvalidJson { field: &'static str, message: String },
    EmptyArgv,
    BinaryMismatch { expected: String, actual: String },
    SubcommandMismatch,
    FlagNotAllowlisted(String),
    FlagBlocked(String),
    EnvNotAllowlisted(String),
    PrivilegeRisk(String),
    NetworkRisk(String),
    DestructiveRisk(String),
    DataFlagFileRead(String, String),
    RuleNotFound(String),
    RequestStatusUpdate(String),
}

/// What a [`PolicyError`] says.
pub ghost enum PolicyFault {
    InvalidJson { field: Seq<char>, message: Seq<char> },
    EmptyArgv,
    BinaryMismatch { expected: Seq<char>, actual: Seq<char> },
    SubcommandMismatch,
    FlagNotAllowlisted(Seq<char>),
    FlagBlocked(Seq<char>),
    EnvNotAllowlisted(Seq<char>),
    PrivilegeRisk(Seq<char>),
    NetworkRisk(Seq<char>),
    DestructiveRisk(Seq<char>),
    DataFlagFileRead(Seq<char>, Seq<char>),
    RuleNotFound(Seq<char>),
    RequestStatusUpdate(Seq<char>),
}

impl View for PolicyError {
    type V = PolicyFault;

    open spec fn view(&self) -> PolicyFault {
        match self {
            PolicyError::InvalidJson { field, message } => PolicyFault::InvalidJson {
                field: field@,
                message: message@,
            },
            PolicyError::EmptyArgv => PolicyFault::EmptyArgv,
            PolicyError::BinaryMismatch { expected, actual } => PolicyFault::BinaryMismatch {
                expected: expected@,
                actual: actual@,
            },
            PolicyError::SubcommandMismatch => PolicyFault::SubcommandMismatch,
            PolicyError::FlagNotAllowlisted(flag) => PolicyFault::FlagNotAllowlisted(flag@),
            PolicyError::FlagBlocked(flag) => PolicyFault::FlagBlocked(flag@),
            PolicyError::EnvNotAllowlisted(key) => PolicyFault::EnvNotAllowlisted(key@),
            PolicyError::PrivilegeRisk(arg) => PolicyFault::PrivilegeRisk(arg@),
            PolicyError::NetworkRisk(arg) => PolicyFault::NetworkRisk(arg@),
            PolicyError::DestructiveRisk(arg) => PolicyFault::DestructiveRisk(arg@),
            PolicyError::DataFlagFileRead(flag, value) => PolicyFault::DataFlagFileRead(
                flag@,
                value@,
            ),
            PolicyError::RuleNotFound(rule_id) => PolicyFault::RuleNotFound(rule_id@),
            PolicyError::RequestStatusUpdate(message) => PolicyFault::RequestStatusUpdate(message@),
        }
    }
}

/// The text that reports a fault to the user.
pub open spec fn policy_fault_text(fault: PolicyFault) -> Seq<char> {
    match fault {
        PolicyFault::InvalidJson { field, message } => "policy rule JSON is invalid in "@ + field
            + ": "@ + message,
        PolicyFault::EmptyArgv => "compiled argv is empty"@,
        PolicyFault::BinaryMismatch { expected, actual } => "binary "@ + actual
            + " does not match policy binary "@ + expected,
        PolicyFault::SubcommandMismatch => "subcommand path does not match policy"@,
        PolicyFault::FlagNotAllowlisted(flag) => "flag is not allowlisted: "@ + flag,
        PolicyFault::FlagBlocked(flag) => "flag is explicitly blocked: "@ + flag,
        PolicyFault::EnvNotAllowlisted(key) => "environment variable is not allowlisted: "@ + key,
        PolicyFault::PrivilegeRisk(arg) => "privilege alteration argument blocked: "@ + arg,
        PolicyFault::NetworkRisk(arg) => "network operation argument blocked: "@ + arg,
        PolicyFault::DestructiveRisk(arg) => "recursive destructive argument blocked: "@ + arg,
        PolicyFault::DataFlagFileRead(flag, value) => {
            "data-flag argument reads a local file for exfiltration: "@ + flag + " "@ + value
        },
        PolicyFault::RuleNotFound(rule_id) => "policy rule not found: "@ + rule_id,
        PolicyFault::RequestStatusUpdate(message) => {
            "failed to mark request SECURITY_BLOCKED: "@ + message
        },
    }
}

impl PolicyError {
    /// The text that reports the error to the user.
    pub fn message(&self) -> (text: String)
        ensures
            text@ == policy_fault_text(self@),
    {
        match self {
            PolicyError::InvalidJson { field, message } => {
                "policy rule JSON is invalid in ".to_owned().concat(*field).concat(": ").concat(
                    message.as_str(),
                )
            },
            PolicyError::EmptyArgv => "compiled argv is empty".to_owned(),
            PolicyError::BinaryMismatch { expected, actual } => {
                "binary ".to_owned().concat(actual.as_str()).concat(
                    " does not match policy binary ",
                ).concat(expected.as_str())
            },
            PolicyError::SubcommandMismatch => "subcommand path does not match policy".to_owned(),
            PolicyError::FlagNotAllowlisted(flag) => {
                "flag is not allowlisted: ".to_owned().concat(flag.as_str())
            },
            PolicyError::FlagBlocked(flag) => {
                "flag is explicitly blocked: ".to_owned().concat(flag.as_str())
            },
            PolicyError::EnvNotAllowlisted(key) => {
                "environment variable is not allowlisted: ".to_owned().concat(key.as_str())
            },
            PolicyError::PrivilegeRisk(arg) => {
                "privilege alteration argument blocked: ".to_owned().concat(arg.as_str())
            },
            PolicyError::NetworkRisk(arg) => {
                "network operation argument blocked: ".to_owned().concat(arg.as_str())
            },
            PolicyError::DestructiveRisk(arg) => {
                "recursive destructive argument blocked: ".to_owned().concat(arg.as_str())
            },
            PolicyError::DataFlagFileRead(flag, value) => {
                "data-flag argument reads a local file for exfiltration: ".to_owned().concat(
                    flag.as_str(),
                ).concat(" ").concat(value.as_str())
            },
            PolicyError::RuleNotFound(rule_id) => {
                "policy rule not found: ".to_owned().concat(rule_id.as_str())
            },
            PolicyError::RequestStatusUpdate(message) => {
                "failed to mark request SECURITY_BLOCKED: ".to_owned().concat(message.as_str())
            },
        }
    }
}

// ---------------------------------------------------------------------------
// Rules
// ---------------------------------------------------------------------------

/// Whether a policy lets a class of risky arguments through.
#[derive(Debug, Clone, Copy, PartialEq, Eq, Structural)]
pub enum RiskLevel {
    Allow,
    Block,
}

/// The programs that a policy lets run besides its own binary.
#[derive(Debug, Clone, PartialEq, Eq)]
pub struct ExecutablePathPolicy {
    pub allowed_binaries: Vec<String>,
}

/// The environment variables that a policy lets a program inherit.
#[derive(Debug, Clone, PartialEq, Eq)]
pub struct EnvPolicy {
    pub allow: Vec<String>,
    pub block: Vec<String>,
}

/// The flags that a policy lets through.
#[derive(Debug, Clone, PartialEq, Eq)]
pub struct PositionalPolicy {
    pub allowed_flags: Vec<String>,
    pub blocked_flags: Vec<String>,
}

/// What a policy says of arguments that name places.
#[derive(Debug, Clone, PartialEq, Eq)]
pub struct PathSlotPolicy {
    pub allow_network_args: bool,
}

/// A trusted policy rule.
#[derive(Debug, Clone, PartialEq, Eq)]
pub struct PolicyRule {
    pub rule_id: String,
    pub binary_name: String,
    pub subcommand_path: String,
    pub executable_path_policy: ExecutablePathPolicy,
    pub env_policy: EnvPolicy,
    pub positional_policy: PositionalPolicy,
    pub path_slot_policy: PathSlotPolicy,
    pub package_manager_risk_level: RiskLevel,
    pub privilege_risk_level: RiskLevel,
    pub destructive_recursive_level: RiskLevel,
}

/// The columns of a stored policy rule.
#[derive(Debug, Clone, PartialEq, Eq)]
pub struct PolicyRow {
    pub rule_id: String,
    pub binary_name: String,
    pub subcommand_path: String,
    pub executable_path_policy_json: String,
    pub env_variable_inheritance_json: String,
    pub positional_argument_rules_json: String,
    pub path_slot_policies_json: String,
    pub package_manager_risk_level: String,
    pub privilege_risk_level: String,
    pub destructive_recursive_level: String,
}

/// A list of names that are let through and one of names that are not.
pub ghost struct Listing {
    pub allowed: Seq<Seq<char>>,
    pub blocked: Seq<Seq<char>>,
}

/// What a [`PolicyRule`] says.
pub ghost struct PolicyModel {
    pub rule_id: Seq<char>,
    pub binary_name: Seq<char>,
    pub subcommand_path: Seq<char>,
    pub binaries: Seq<Seq<char>>,
    pub env: Listing,
    pub flags: Listing,
    pub allow_network_args: bool,
    pub package_manager: RiskLevel,
    pub privilege: RiskLevel,
    pub destructive: RiskLevel,
}

impl View for ExecutablePathPolicy {
    type V = Seq<Seq<char>>;

    open spec fn view(&self) -> Seq<Seq<char>> {
        texts(self.allowed_binaries@)
    }
}

impl View for EnvPolicy {
    type V = Listing;

    open spec fn view(&self) -> Listing {
        Listing { allowed: texts(self.allow@), blocked: texts(self.block@) }
    }
}

impl View for PositionalPolicy {
    type V = Listing;

    open spec fn view(&self) -> Listing {
        Listing { allowed: texts(self.allowed_flags@), blocked: texts(self.blocked_flags@) }
    }
}

impl View for PathSlotPolicy {
    type V = bool;

    open spec fn view(&self) -> bool {
        self.allow_network_args
    }
}

impl View for PolicyRule {
    type V = PolicyModel;

    open spec fn view(&self) -> PolicyModel {
        PolicyModel {
            rule_id: self.rule_id@,
            binary_name: self.binary_name@,
            subcommand_path: self.subcommand_path@,
            binaries: self.executable_path_policy@,
            env: self.env_policy@,
            flags: self.positional_policy@,
            allow_network_args: self.path_slot_policy@,
            package_manager: self.package_manager_risk_level,
            privilege: self.privilege_risk_level,
            destructive: self.destructive_recursive_level,
        }
    }
}

/// A listing without names: it lets everything through.
pub open spec fn empty_listing() -> Listing {
    Listing { allowed: Seq::empty(), blocked: Seq::empty() }
}

impl Default for ExecutablePathPolicy {
    fn default() -> (policy: Self)
        ensures
            policy@ == Seq::<Seq<char>>::empty(),
    {
        let policy = ExecutablePathPolicy { allowed_binaries: Vec::new() };
        assert(policy@ =~= Seq::<Seq<char>>::empty());
        policy
    }
}

impl Default for EnvPolicy {
    fn default() -> (policy: Self)
        ensures
            policy@ == empty_listing(),
    {
        let policy = EnvPolicy { allow: Vec::new(), block: Vec::new() };
        assert(policy@.allowed =~= Seq::<Seq<char>>::empty());
        assert(policy@.blocked =~= Seq::<Seq<char>>::empty());
        policy
    }
}

impl Default for PositionalPolicy {
    fn default() -> (policy: Self)
        ensures
            policy@ == empty_listing(),
    {
        let policy = PositionalPolicy { allowed_flags: Vec::new(), blocked_flags: Vec::new() };
        assert(policy@.allowed =~= Seq::<Seq<char>>::empty());
        assert(policy@.blocked =~= Seq::<Seq<char>>::empty());
        policy
    }
}

impl Default for PathSlotPolicy {
    fn default() -> (policy: Self)
        ensures
            !policy@,
    {
        PathSlotPolicy { allow_network_args: false }
    }
}

// ---------------------------------------------------------------------------
// The audit
// ---------------------------------------------------------------------------

/// The argument asks for other privileges.
pub open spec fn privilege_arg(arg: Seq<char>) -> bool {
    ||| arg == "sudo"@
    ||| arg == "su"@
    ||| arg == "doas"@
    ||| arg == "--privileged"@
    ||| arg == "--user=root"@
    ||| arg == "--as-root"@
}

/// The argument names a place on the network, or asks for one.
pub open spec fn network_arg(arg: Seq<char>) -> bool {
    ||| "http://"@.is_prefix_of(arg)
    ||| "https://"@.is_prefix_of(arg)
    ||| arg == "--network"@
    ||| arg == "--net"@
    ||| arg == "--publish"@
    ||| arg == "-p"@
}

/// The argument asks for something that destroys whole trees.
pub open spec fn destructive_arg(arg: Seq<char>) -> bool {
    ||| arg == "-rf"@
    ||| arg == "-fr"@
    ||| arg == "--recursive"@
    ||| arg == "--force"@
}

/// The argument after this one is data that is sent away.
pub open spec fn data_flag(arg: Seq<char>) -> bool {
    ||| arg == "-d"@
    ||| arg == "--data"@
    ||| arg == "--data-raw"@
    ||| arg == "--data-binary"@
    ||| arg == "--data-urlencode"@
    ||| arg == "-F"@
    ||| arg == "--form"@
}

/// The value stands for the contents of a local file.
pub open spec fn file_reference(value: Seq<char>) -> bool {
    value.len() > 0 && value[0] == '@'
}

/// The argument is a flag.
pub open spec fn is_flag_arg(arg: Seq<char>) -> bool {
    arg.len() > 0 && arg[0] == '-'
}

/// What a policy refuses of the argument at a position, if anything.
pub open spec fn arg_fault(policy: PolicyModel, args: Seq<Seq<char>>, i: int) -> Option<PolicyFault> {
    let arg = args[i];
    if policy.flags.blocked.contains(arg) {
        Some(PolicyFault::FlagBlocked(arg))
    } else if is_flag_arg(arg) && policy.flags.allowed.len() > 0 && !policy.flags.allowed.contains(
        arg,
    ) {
        Some(PolicyFault::FlagNotAllowlisted(arg))
    } else if policy.privilege == RiskLevel::Block && privilege_arg(arg) {
        Some(PolicyFault::PrivilegeRisk(arg))
    } else if policy.package_manager == RiskLevel::Block && !policy.allow_network_args
        && network_arg(arg) {
        Some(PolicyFault::NetworkRisk(arg))
    } else if policy.destructive == RiskLevel::Block && destructive_arg(arg) {
        Some(PolicyFault::DestructiveRisk(arg))
    } else if data_flag(arg) && i + 1 < args.len() && file_reference(args[i + 1]) {
        Some(PolicyFault::DataFlagFileRead(arg, args[i + 1]))
    } else {
        None
    }
}

/// What a policy refuses of the arguments from a position on: the first of them that
/// it refuses.
pub open spec fn args_fault(policy: PolicyModel, args: Seq<Seq<char>>, from: nat) -> Option<
    PolicyFault,
>
    decreases args.len() - from,
{
    if from >= args.len() {
        None
    } else {
        match arg_fault(policy, args, from as int) {
            Some(fault) => Some(fault),
            None => args_fault(policy, args, from + 1),
        }
    }
}

/// What a policy refuses of an argument list: its program, its subcommands, or one of
/// the arguments behind the program.
pub open spec fn argv_fault(policy: PolicyModel, argv: Seq<Seq<char>>) -> Option<PolicyFault> {
    if argv.len() == 0 {
        Some(PolicyFault::EmptyArgv)
    } else if argv[0] != policy.binary_name && !policy.binaries.contains(argv[0]) {
        Some(PolicyFault::BinaryMismatch { expected: policy.binary_name, actual: argv[0] })
    } else if !words(policy.subcommand_path).is_prefix_of(argv.drop_first()) {
        Some(PolicyFault::SubcommandMismatch)
    } else {
        args_fault(policy, argv.drop_first(), 0)
    }
}

/// The policy does not let a program inherit the variable.
pub open spec fn refuses_variable(env: Listing, key: Seq<char>) -> bool {
    env.blocked.contains(key) || (env.allowed.len() > 0 && !env.allowed.contains(key))
}

/// The variables that the policy does not let a program inherit.
pub open spec fn refused_variables(env: Listing, keys: Set<Seq<char>>) -> Set<Seq<char>> {
    Set::new(|key: Seq<char>| keys.contains(key) && refuses_variable(env, key))
}

/// What a policy refuses of an environment: the first of its variables, in the order
/// of their names, that it refuses.
pub open spec fn env_fault(policy: PolicyModel, keys: Set<Seq<char>>) -> Option<PolicyFault> {
    if refused_variables(policy.env, keys).is_empty() {
        None
    } else {
        Some(PolicyFault::EnvNotAllowlisted(first_of(refused_variables(policy.env, keys))))
    }
}

/// What a policy refuses of an argument list, of the environment it is to inherit and
/// of the environment of the host.
pub open spec fn audit_fault(
    policy: PolicyModel,
    argv: Seq<Seq<char>>,
    inherited: Set<Seq<char>>,
    host: Set<Seq<char>>,
) -> Option<PolicyFault> {
    if argv_fault(policy, argv) is Some {
        argv_fault(policy, argv)
    } else if env_fault(policy, inherited) is Some {
        env_fault(policy, inherited)
    } else {
        env_fault(policy, host)
    }
}

fn is_privilege_arg(arg: &str) -> (b: bool)
    ensures
        b == privilege_arg(arg@),
{
    same_text(arg, "sudo") || same_text(arg, "su") || same_text(arg, "doas") || same_text(
        arg,
        "--privileged",
    ) || same_text(arg, "--user=root") || same_text(arg, "--as-root")
}

fn is_network_arg(arg: &str) -> (b: bool)
    ensures
        b == network_arg(arg@),
{
    begins_with(arg, "http://") || begins_with(arg, "https://") || same_text(arg, "--network")
        || same_text(arg, "--net") || same_text(arg, "--publish") || same_text(arg, "-p")
}

fn is_destructive_recursive_arg(arg: &str) -> (b: bool)
    ensures
        b == destructive_arg(arg@),
{
    same_text(arg, "-rf") || same_text(arg, "-fr") || same_text(arg, "--recursive") || same_text(
        arg,
        "--force",
    )
}

fn is_data_flag(arg: &str) -> (b: bool)
    ensures
        b == data_flag(arg@),
{
    same_text(arg, "-d") || same_text(arg, "--data") || same_text(arg, "--data-raw") || same_text(
        arg,
        "--data-binary",
    ) || same_text(arg, "--data-urlencode") || same_text(arg, "-F") || same_text(arg, "--form")
}

fn is_local_file_reference(value: &str) -> (b: bool)
    ensures
        b == file_reference(value@),
{
    starts_with_char(value, '@')
}

/// Audits the argument at a position behind the program.
fn audit_arg(policy: &PolicyRule, argv: &Vec<String>, index: usize) -> (result: Result<
    (),
    PolicyError,
>)
    requires
        1 <= index < argv@.len(),
    ensures
        match arg_fault(policy@, texts(argv@).drop_first(), index - 1) {
            Some(fault) => result is Err && result->Err_0@ == fault,
            None => result is Ok,
        },
{
    let ghost args = texts(argv@).drop_first();
    assert(args[index - 1] == argv@[index as int]@);
    let arg = &argv[index];
    if list_has(&policy.positional_policy.blocked_flags, arg.as_str()) {
        return Err(PolicyError::FlagBlocked(arg.clone()));
    }
    if starts_with_char(arg.as_str(), '-') && policy.positional_policy.allowed_flags.len() > 0
        && !list_has(&policy.positional_policy.allowed_flags, arg.as_str()) {
        return Err(PolicyError::FlagNotAllowlisted(arg.clone()));
    }
    if policy.privilege_risk_level == RiskLevel::Block && is_privilege_arg(arg.as_str()) {
        return Err(PolicyError::PrivilegeRisk(arg.clone()));
    }
    if policy.package_manager_risk_level == RiskLevel::Block
        && !policy.path_slot_policy.allow_network_args && is_network_arg(arg.as_str()) {
        return Err(PolicyError::NetworkRisk(arg.clone()));
    }
    if policy.destructive_recursive_level == RiskLevel::Block && is_destructive_recursive_arg(
        arg.as_str(),
    ) {
        return Err(PolicyError::DestructiveRisk(arg.clone()));
    }
    if is_data_flag(arg.as_str()) && index < argv.len() - 1 {
        assert(args[index as int] == argv@[index + 1]@);
        let value = &argv[index + 1];
        if is_local_file_reference(value.as_str()) {
            return Err(PolicyError::DataFlagFileRead(arg.clone(), value.clone()));
        }
    }
    Ok(())
}

/// Whether the subcommands stand in the argument list, right behind the program.
fn follows_subcommands(argv: &Vec<String>, subcommands: &Vec<String>) -> (b: bool)
    requires
        argv@.len() > 0,
    ensures
        b == texts(subcommands@).is_prefix_of(texts(argv@).drop_first()),
{
    let ghost args = texts(argv@).drop_first();
    let ghost wanted = texts(subcommands@);
    if subcommands.len() > argv.len() - 1 {
        return false;
    }
    let mut i: usize = 0;
    while i < subcommands.len()
        invariant
            args == texts(argv@).drop_first(),
            wanted == texts(subcommands@),
            i <= subcommands@.len(),
            subcommands@.len() < argv@.len(),
            forall|j: int| 0 <= j < i ==> #[trigger] wanted[j] == args[j],
        decreases subcommands@.len() - i,
    {
        assert(wanted[i as int] == subcommands@[i as int]@);
        assert(args[i as int] == argv@[i + 1]@);
        if !same_text(subcommands[i].as_str(), argv[i + 1].as_str()) {
            assert(wanted[i as int] != args.take(wanted.len() as int)[i as int]);
            return false;
        }
        i += 1;
    }
    assert(args.take(wanted.len() as int) =~= wanted);
    true
}

fn audit_argv(policy: &PolicyRule, argv: &Vec<String>) -> (result: Result<(), PolicyError>)
    ensures
        match argv_fault(policy@, texts(argv@)) {
            Some(fault) => result is Err && result->Err_0@ == fault,
            None => result is Ok,
        },
{
    if argv.len() == 0 {
        return Err(PolicyError::EmptyArgv);
    }
    let binary = &argv[0];
    assert(texts(argv@)[0] == binary@);
    if !same_text(binary.as_str(), policy.binary_name.as_str()) && !list_has(
        &policy.executable_path_policy.allowed_binaries,
        binary.as_str(),
    ) {
        return Err(
            PolicyError::BinaryMismatch {
                expected: policy.binary_name.clone(),
                actual: binary.clone(),
            },
        );
    }
    let subcommands = split_words(policy.subcommand_path.as_str());
    if !follows_subcommands(argv, &subcommands) {
        return Err(PolicyError::SubcommandMismatch);
    }
    let ghost args = texts(argv@).drop_first();
    let mut i: usize = 1;
    while i < argv.len()
        invariant
            args == texts(argv@).drop_first(),
            1 <= i <= argv@.len(),
            args_fault(policy@, args, 0) == args_fault(policy@, args, (i - 1) as nat),
            argv_fault(policy@, texts(argv@)) == args_fault(policy@, args, 0),
        decreases argv@.len() - i,
    {
        match audit_arg(policy, argv, i) {
            Ok(()) => {},
            Err(error) => {
                return Err(error);
            },
        }
        i += 1;
    }
    Ok(())
}

/// Audits an argument list alone, without an environment: there is none yet when a
/// corrected command is about to be learned.
pub fn audit_argv_policy(policy: &PolicyRule, argv: &Vec<String>) -> (result: Result<
    (),
    PolicyError,
>)
    ensures
        match argv_fault(policy@, texts(argv@)) {
            Some(fault) => result is Err && result->Err_0@ == fault,
            None => result is Ok,
        },
{
    audit_argv(policy, argv)
}

/// Audits the variables of an environment.
pub fn audit_environment(policy: &PolicyRule, env_map: &TextMap<String>) -> (result: Result<
    (),
    PolicyError,
>)
    requires
        env_map.wf(),
    ensures
        match env_fault(policy@, env_map@.dom()) {
            Some(fault) => result is Err && result->Err_0@ == fault,
            None => result is Ok,
        },
{
    let ghost env = policy@.env;
    let ghost keys = env_map.keys();
    let ghost refused = refused_variables(env, env_map@.dom());
    proof {
        env_map.lemma_keys();
    }
    let n = env_map.len();
    let mut i: usize = 0;
    while i < n
        invariant
            env == policy@.env,
            env_map.wf(),
            keys == env_map.keys(),
            keys.to_set() == env_map@.dom(),
            ascending(keys),
            refused == refused_variables(env, env_map@.dom()),
            n == keys.len(),
            i <= n,
            forall|j: int| 0 <= j < i ==> !refused.contains(#[trigger] keys[j]),
        decreases n - i,
    {
        let key = env_map.entry_at(i).0;
        if list_has(&policy.env_policy.block, key.as_str()) || (policy.env_policy.allow.len() > 0
            && !list_has(&policy.env_policy.allow, key.as_str())) {
            proof {
                assert(refused.contains(key@));
                assert forall|other: Seq<char>| #[trigger] refused.contains(other) implies other
                    == key@ || text_less(key@, other) by {
                    assert(keys.to_set().contains(other));
                    let j = keys.index_of(other);
                    assert(keys[j] == other);
                    if j > i {
                        assert(text_less(keys[i as int], keys[j]));
                    }
                }
                assert(is_first_of(refused, key@));
                lemma_first_of(refused, key@);
            }
            return Err(PolicyError::EnvNotAllowlisted(key.clone()));
        }
        i += 1;
    }
    proof {
        assert forall|key: Seq<char>| !refused.contains(key) by {
            if refused.contains(key) {
                assert(keys.to_set().contains(key));
                let j = keys.index_of(key);
                assert(keys[j] == key);
            }
        }
        assert(refused =~= Set::empty());
    }
    Ok(())
}

/// Audits an argument list, the environment that it is to inherit and the environment
/// of the host.
pub fn audit_policy(
    policy: &PolicyRule,
    argv: &Vec<String>,
    inherited_env: &TextMap<String>,
    host_env: &TextMap<String>,
) -> (result: Result<(), PolicyError>)
    requires
        inherited_env.wf(),
        host_env.wf(),
    ensures
        match audit_fault(policy@, texts(argv@), inherited_env@.dom(), host_env@.dom()) {
            Some(fault) => result is Err && result->Err_0@ == fault,
            None => result is Ok,
        },
{
    match audit_argv(policy, argv) {
        Ok(()) => {},
        Err(error) => {
            return Err(error);
        },
    }
    match audit_environment(policy, inherited_env) {
        Ok(()) => {},
        Err(error) => {
            return Err(error);
        },
    }
    audit_environment(policy, host_env)
}

/// The fault to report where a request that failed an audit could not be marked.
pub open spec fn unmarked_fault(fault: PolicyFault, message: Seq<char>) -> PolicyFault {
    PolicyFault::RequestStatusUpdate(
        "policy error was "@ + policy_fault_text(fault) + "; status update failed with "@ + message,
    )
}

impl PolicyError {
    /// The error to report where the request of this one could not be marked.
    pub fn unmarked(&self, message: &str) -> (error: PolicyError)
        ensures
            error@ == unmarked_fault(self@, message@),
    {
        PolicyError::RequestStatusUpdate(
            "policy error was ".to_owned().concat(self.message().as_str()).concat(
                "; status update failed with ",
            ).concat(message),
        )
    }
}

/// What a policy refused of the command of a recorded request. The request has to be
/// marked before the error is reported.
#[derive(Debug, PartialEq, Eq)]
pub struct BlockedRequest {
    error: PolicyError,
}

impl View for BlockedRequest {
    type V = PolicyFault;

    closed spec fn view(&self) -> PolicyFault {
        self.error@
    }
}

impl BlockedRequest {
    /// The error to report, once the request was marked. The marking is `Err` with a
    /// message where it failed.
    pub fn settle(self, marking: Result<(), String>) -> (error: PolicyError)
        ensures
            match marking {
                Ok(()) => error@ == self@,
                Err(message) => error@ == unmarked_fault(self@, message@),
            },
    {
        match marking {
            Ok(()) => self.error,
            Err(message) => self.error.unmarked(message.as_str()),
        }
    }
}

/// Audits the command of a recorded request. What it refuses comes back as a
/// [`BlockedRequest`], which gives its error away only against the outcome of marking
/// the request.
pub fn audit_policy_for_request(
    policy: &PolicyRule,
    argv: &Vec<String>,
    inherited_env: &TextMap<String>,
    host_env: &TextMap<String>,
) -> (result: Result<(), BlockedRequest>)
    requires
        inherited_env.wf(),
        host_env.wf(),
    ensures
        match audit_fault(policy@, texts(argv@), inherited_env@.dom(), host_env@.dom()) {
            Some(fault) => result is Err && result->Err_0@ == fault,
            None => result is Ok,
        },
{
    match audit_policy(policy, argv, inherited_env, host_env) {
        Ok(()) => Ok(()),
        Err(error) => Err(BlockedRequest { error }),
    }
}

/// Makes each token of an argument list safe to show on a terminal.
pub fn sanitize_preview_tokens(argv: &Vec<String>) -> (shown: Vec<String>)
    ensures
        texts(shown@) == texts(argv@).map_values(|token: Seq<char>| preview_text(token)),
{
    let mut shown: Vec<String> = Vec::new();
    let mut i: usize = 0;
    while i < argv.len()
        invariant
            i <= argv@.len(),
            shown@.len() == i,
            forall|j: int| 0 <= j < i ==> (#[trigger] shown@[j])@ == preview_text(argv@[j]@),
        decreases argv@.len() - i,
    {
        shown.push(sanitize_terminal_preview_token(argv[i].as_str()));
        i += 1;
    }
    assert(texts(shown@) =~= texts(argv@).map_values(|token: Seq<char>| preview_text(token)));
    shown
}

// ---------------------------------------------------------------------------
// Stored rules
// ---------------------------------------------------------------------------

/// The JSON of a column. A blank column and an empty array stand for the defaults.
pub open spec fn column_json(column: Seq<char>) -> Result<Option<Json>, Seq<char>> {
    if is_blank(column) {
        Ok(None)
    } else {
        match json_text(column) {
            Ok(json) => if json == Json::Array(Seq::empty()) {
                Ok(None)
            } else {
                Ok(Some(json))
            },
            Err(message) => Err(message),
        }
    }
}

/// The allowed binaries that a JSON value writes.
pub open spec fn binaries_of(json: Json) -> Option<Seq<Seq<char>>> {
    if is_record(json, 1) {
        texts_or_none(member(json, 0, "allowed_binaries"@))
    } else {
        None
    }
}

/// The listing that a JSON value writes under two keys.
pub open spec fn listing_of(json: Json, allowed: Seq<char>, blocked: Seq<char>) -> Option<Listing> {
    match (texts_or_none(member(json, 0, allowed)), texts_or_none(member(json, 1, blocked))) {
        (Some(allowed), Some(blocked)) => if is_record(json, 2) {
            Some(Listing { allowed, blocked })
        } else {
            None
        },
        _ => None,
    }
}

/// The permission for network arguments that a JSON value writes.
pub open spec fn network_permission_of(json: Json) -> Option<bool> {
    if is_record(json, 1) {
        flag_or_false(member(json, 0, "allow_network_args"@))
    } else {
        None
    }
}

/// What a column holds, once its JSON is read: the default, or what the JSON writes. The
/// complaint says what is wrong where it writes nothing of the kind.
pub open spec fn column_value<T>(
    field: Seq<char>,
    json: Result<Option<Json>, Seq<char>>,
    default: T,
    read: spec_fn(Json) -> Option<T>,
    complaint: spec_fn(Json) -> Seq<char>,
) -> Result<T, PolicyFault> {
    match json {
        Err(message) => Err(PolicyFault::InvalidJson { field, message }),
        Ok(None) => Ok(default),
        Ok(Some(json)) => match read(json) {
            Some(value) => Ok(value),
            None => Err(PolicyFault::InvalidJson { field, message: complaint(json) }),
        },
    }
}

/// The allowed binaries of a column.
pub open spec fn binaries_column(column: Seq<char>) -> Result<Seq<Seq<char>>, PolicyFault> {
    column_value(
        "executable_path_policy_json"@,
        column_json(column),
        Seq::empty(),
        |json: Json| binaries_of(json),
        |json: Json|
            lists_complaint(
                json,
                "ExecutablePathPolicy"@,
                "allowed_binaries"@,
                "allowed_binaries"@,
            ),
    )
}

/// The environment listing of a column.
pub open spec fn env_column(column: Seq<char>) -> Result<Listing, PolicyFault> {
    column_value(
        "env_variable_inheritance_json"@,
        column_json(column),
        empty_listing(),
        |json: Json| listing_of(json, "allow"@, "block"@),
        |json: Json| lists_complaint(json, "EnvPolicy"@, "allow"@, "block"@),
    )
}

/// The flag listing of a column.
pub open spec fn flags_column(column: Seq<char>) -> Result<Listing, PolicyFault> {
    column_value(
        "positional_argument_rules_json"@,
        column_json(column),
        empty_listing(),
        |json: Json| listing_of(json, "allowed_flags"@, "blocked_flags"@),
        |json: Json|
            lists_complaint(json, "PositionalPolicy"@, "allowed_flags"@, "blocked_flags"@),
    )
}

/// The permission for network arguments of a column.
pub open spec fn network_column(column: Seq<char>) -> Result<bool, PolicyFault> {
    column_value(
        "path_slot_policies_json"@,
        column_json(column),
        false,
        |json: Json| network_permission_of(json),
        |json: Json|
            flag_record_complaint(json, "PathSlotPolicy"@, "allow_network_args"@),
    )
}

/// The risk level of a column: anything but `ALLOW` blocks.
pub open spec fn risk_column(column: Seq<char>) -> RiskLevel {
    if column == "ALLOW"@ {
        RiskLevel::Allow
    } else {
        RiskLevel::Block
    }
}

/// The policy that a stored rule writes, or the first column that is wrong.
pub open spec fn row_policy(row: PolicyRow) -> Result<PolicyModel, PolicyFault> {
    let binaries = binaries_column(row.executable_path_policy_json@);
    let env = env_column(row.env_variable_inheritance_json@);
    let flags = flags_column(row.positional_argument_rules_json@);
    let network = network_column(row.path_slot_policies_json@);
    if binaries is Err {
        Err(binaries->Err_0)
    } else if env is Err {
        Err(env->Err_0)
    } else if flags is Err {
        Err(flags->Err_0)
    } else if network is Err {
        Err(network->Err_0)
    } else {
        Ok(
            PolicyModel {
                rule_id: row.rule_id@,
                binary_name: row.binary_name@,
                subcommand_path: row.subcommand_path@,
                binaries: binaries->Ok_0,
                env: env->Ok_0,
                flags: flags->Ok_0,
                allow_network_args: network->Ok_0,
                package_manager: risk_column(row.package_manager_risk_level@),
                privilege: risk_column(row.privilege_risk_level@),
                destructive: risk_column(row.destructive_recursive_level@),
            },
        )
    }
}

/// The policy of a stored rule, or why there is none.
pub open spec fn stored_policy(row: Option<PolicyRow>, rule_id: Seq<char>) -> Result<
    PolicyModel,
    PolicyFault,
> {
    match row {
        Some(row) => row_policy(row),
        None => Err(PolicyFault::RuleNotFound(rule_id)),
    }
}

/// Reads the JSON of a column.
fn read_column(column: &str) -> (result: Result<Option<JsonValue>, String>)
    ensures
        match result {
            Ok(Some(json)) => column_json(column@) == Ok::<Option<Json>, Seq<char>>(Some(json@)),
            Ok(None) => column_json(column@) == Ok::<Option<Json>, Seq<char>>(None),
            Err(message) => column_json(column@) == Err::<Option<Json>, Seq<char>>(message@),
        },
{
    if text_is_blank(column) {
        return Ok(None);
    }
    match parse_json(column) {
        Ok(json) => {
            if let JsonValue::Array(items) = &json {
                if items.len() == 0 {
                    assert(json@->Array_0 =~= Seq::<Json>::empty());
                    return Ok(None);
                }
                assert(json@->Array_0.len() > 0);
            }
            Ok(Some(json))
        },
        Err(message) => Err(message),
    }
}

impl ExecutablePathPolicy {
    /// Reads the policy that a JSON value writes.
    pub fn from_json(json: &JsonValue) -> (policy: Option<Self>)
        ensures
            match policy {
                Some(policy) => binaries_of(json@) == Some(policy@),
                None => binaries_of(json@) is None,
            },
    {
        if !json.is_record(1) {
            return None;
        }
        match read_texts_or_none(json.member(0, "allowed_binaries")) {
            Some(allowed_binaries) => Some(ExecutablePathPolicy { allowed_binaries }),
            None => None,
        }
    }
}

impl EnvPolicy {
    /// Reads the policy that a JSON value writes.
    pub fn from_json(json: &JsonValue) -> (policy: Option<Self>)
        ensures
            match policy {
                Some(policy) => listing_of(json@, "allow"@, "block"@) == Some(policy@),
                None => listing_of(json@, "allow"@, "block"@) is None,
            },
    {
        if !json.is_record(2) {
            return None;
        }
        match (read_texts_or_none(json.member(0, "allow")), read_texts_or_none(
            json.member(1, "block"),
        )) {
            (Some(allow), Some(block)) => Some(EnvPolicy { allow, block }),
            _ => None,
        }
    }
}

impl PositionalPolicy {
    /// Reads the policy that a JSON value writes.
    pub fn from_json(json: &JsonValue) -> (policy: Option<Self>)
        ensures
            match policy {
                Some(policy) => listing_of(json@, "allowed_flags"@, "blocked_flags"@) == Some(
                    policy@,
                ),
                None => listing_of(json@, "allowed_flags"@, "blocked_flags"@) is None,
            },
    {
        if !json.is_record(2) {
            return None;
        }
        match (read_texts_or_none(json.member(0, "allowed_flags")), read_texts_or_none(
            json.member(1, "blocked_flags"),
        )) {
            (Some(allowed_flags), Some(blocked_flags)) => Some(
                PositionalPolicy { allowed_flags, blocked_flags },
            ),
            _ => None,
        }
    }
}

impl PathSlotPolicy {
    /// Reads the policy that a JSON value writes.
    pub fn from_json(json: &JsonValue) -> (policy: Option<Self>)
        ensures
            match policy {
                Some(policy) => network_permission_of(json@) == Some(policy@),
                None => network_permission_of(json@) is None,
            },
    {
        if !json.is_record(1) {
            return None;
        }
        match read_flag_or_false(json.member(0, "allow_network_args")) {
            Some(allow_network_args) => Some(PathSlotPolicy { allow_network_args }),
            None => None,
        }
    }
}

fn read_executable_path_policy(column: &str) -> (result: Result<ExecutablePathPolicy, PolicyError>)
    ensures
        match result {
            Ok(policy) => binaries_column(column@) == Ok::<Seq<Seq<char>>, PolicyFault>(policy@),
            Err(error) => binaries_column(column@) == Err::<Seq<Seq<char>>, PolicyFault>(error@),
        },
{
    let field: &'static str = "executable_path_policy_json";
    match read_column(column) {
        Err(message) => Err(PolicyError::InvalidJson { field, message }),
        Ok(None) => Ok(ExecutablePathPolicy::default()),
        Ok(Some(json)) => match ExecutablePathPolicy::from_json(&json) {
            Some(policy) => Ok(policy),
            None => {
                let message = complain_of_lists(
                    column,
                    "ExecutablePathPolicy",
                    "allowed_binaries",
                    "allowed_binaries",
                );
                Err(PolicyError::InvalidJson { field, message })
            },
        },
    }
}

fn read_env_policy(column: &str) -> (result: Result<EnvPolicy, PolicyError>)
    ensures
        match result {
            Ok(policy) => env_column(column@) == Ok::<Listing, PolicyFault>(policy@),
            Err(error) => env_column(column@) == Err::<Listing, PolicyFault>(error@),
        },
{
    let field: &'static str = "env_variable_inheritance_json";
    match read_column(column) {
        Err(message) => Err(PolicyError::InvalidJson { field, message }),
        Ok(None) => Ok(EnvPolicy::default()),
        Ok(Some(json)) => match EnvPolicy::from_json(&json) {
            Some(policy) => Ok(policy),
            None => {
                let message = complain_of_lists(column, "EnvPolicy", "allow", "block");
                Err(PolicyError::InvalidJson { field, message })
            },
        },
    }
}

fn read_positional_policy(column: &str) -> (result: Result<PositionalPolicy, PolicyError>)
    ensures
        match result {
            Ok(policy) => flags_column(column@) == Ok::<Listing, PolicyFault>(policy@),
            Err(error) => flags_column(column@) == Err::<Listing, PolicyFault>(error@),
        },
{
    let field: &'static str = "positional_argument_rules_json";
    match read_column(column) {
        Err(message) => Err(PolicyError::InvalidJson { field, message }),
        Ok(None) => Ok(PositionalPolicy::default()),
        Ok(Some(json)) => match PositionalPolicy::from_json(&json) {
            Some(policy) => Ok(policy),
            None => {
                let message = complain_of_lists(
                    column,
                    "PositionalPolicy",
                    "allowed_flags",
                    "blocked_flags",
                );
                Err(PolicyError::InvalidJson { field, message })
            },
        },
    }
}

fn read_path_slot_policy(column: &str) -> (result: Result<PathSlotPolicy, PolicyError>)
    ensures
        match result {
            Ok(policy) => network_column(column@) == Ok::<bool, PolicyFault>(policy@),
            Err(error) => network_column(column@) == Err::<bool, PolicyFault>(error@),
        },
{
    let field: &'static str = "path_slot_policies_json";
    match read_column(column) {
        Err(message) => Err(PolicyError::InvalidJson { field, message }),
        Ok(None) => Ok(PathSlotPolicy::default()),
        Ok(Some(json)) => match PathSlotPolicy::from_json(&json) {
            Some(policy) => Ok(policy),
            None => {
                let message = complain_of_flag(column, "PathSlotPolicy", "allow_network_args");
                Err(PolicyError::InvalidJson { field, message })
            },
        },
    }
}

fn parse_risk_level(column: &str) -> (level: RiskLevel)
    ensures
        level == risk_column(column@),
{
    if same_text(column, "ALLOW") {
        RiskLevel::Allow
    } else {
        RiskLevel::Block
    }
}

/// Loads the policy of a stored rule, which is `None` where there is no rule of that
/// id.
pub fn load_policy_rule(row: Option<PolicyRow>, rule_id: &str) -> (result: Result<
    PolicyRule,
    PolicyError,
>)
    ensures
        match result {
            Ok(policy) => stored_policy(row, rule_id@) == Ok::<PolicyModel, PolicyFault>(policy@),
            Err(error) => stored_policy(row, rule_id@) == Err::<PolicyModel, PolicyFault>(error@),
        },
{
    let row = match row {
        Some(row) => row,
        None => {
            return Err(PolicyError::RuleNotFound(rule_id.to_owned()));
        },
    };
    let executable_path_policy = match read_executable_path_policy(
        row.executable_path_policy_json.as_str(),
    ) {
        Ok(policy) => policy,
        Err(error) => {
            return Err(error);
        },
    };
    let env_policy = match read_env_policy(row.env_variable_inheritance_json.as_str()) {
        Ok(policy) => policy,
        Err(error) => {
            return Err(error);
        },
    };
    let positional_policy = match read_positional_policy(
        row.positional_argument_rules_json.as_str(),
    ) {
        Ok(policy) => policy,
        Err(error) => {
            return Err(error);
        },
    };
    let path_slot_policy = match read_path_slot_policy(row.path_slot_policies_json.as_str()) {
        Ok(policy) => policy,
        Err(error) => {
            return Err(error);
        },
    };
    let package_manager_risk_level = parse_risk_level(row.package_manager_risk_level.as_str());
    let privilege_risk_level = parse_risk_level(row.privilege_risk_level.as_str());
    let destructive_recursive_level = parse_risk_level(row.destructive_recursive_level.as_str());
    Ok(
        PolicyRule {
            rule_id: row.rule_id,
            binary_name: row.binary_name,
            subcommand_path: row.subcommand_path,
            executable_path_policy,
            env_policy,
            positional_policy,
            path_slot_policy,
            package_manager_risk_level,
            privilege_risk_level,
            destructive_recursive_level,
        },
    )
}

/// What is refused when a command is held to a stored rule, be it the rule itself.
pub open spec fn stored_audit_fault(
    row: Option<PolicyRow>,
    rule_id: Seq<char>,
    argv: Seq<Seq<char>>,
    inherited: Set<Seq<char>>,
    host: Set<Seq<char>>,
) -> Option<PolicyFault> {
    match stored_policy(row, rule_id) {
        Err(fault) => Some(fault),
        Ok(policy) => audit_fault(policy, argv, inherited, host),
    }
}

/// Loads a stored rule and audits the command of a recorded request against it. A rule
/// that cannot be loaded blocks the request like one that refuses the command.
pub fn audit_stored_policy(
    row: Option<PolicyRow>,
    rule_id: &str,
    argv: &Vec<String>,
    inherited_env: &TextMap<String>,
    host_env: &TextMap<String>,
) -> (result: Result<(), BlockedRequest>)
    requires
        inherited_env.wf(),
        host_env.wf(),
    ensures
        match stored_audit_fault(
            row,
            rule_id@,
            texts(argv@),
            inherited_env@.dom(),
            host_env@.dom(),
        ) {
            Some(fault) => result is Err && result->Err_0@ == fault,
            None => result is Ok,
        },
{
    match load_policy_rule(row, rule_id) {
        Ok(policy) => audit_policy_for_request(&policy, argv, inherited_env, host_env),
        Err(error) => Err(BlockedRequest { error }),
    }
}

// ---------------------------------------------------------------------------
// Laws
// ---------------------------------------------------------------------------

proof fn lemma_no_arg_fault(policy: PolicyModel, args: Seq<Seq<char>>, from: nat, i: int)
    requires
        args_fault(policy, args, from) is None,
        from <= i < args.len(),
    ensures
        arg_fault(policy, args, i) is None,
    decreases i - from,
{
    if from < i {
        lemma_no_arg_fault(policy, args, from + 1, i);
    }
}

/// An argument list that passes runs the policy's binary or one that it lists, and its
/// subcommands are the ones of the policy.
pub proof fn law_passed_argv_runs_the_policy_program(policy: PolicyModel, argv: Seq<Seq<char>>)
    requires
        argv_fault(policy, argv) is None,
    ensures
        argv.len() > 0,
        argv[0] == policy.binary_name || policy.binaries.contains(argv[0]),
        words(policy.subcommand_path).is_prefix_of(argv.drop_first()),
{
}

/// An argument list that passes holds no blocked flag behind its program, and no flag
/// outside the list of allowed ones where the policy has such a list.
pub proof fn law_passed_argv_keeps_to_the_flags(
    policy: PolicyModel,
    argv: Seq<Seq<char>>,
    i: int,
)
    requires
        argv_fault(policy, argv) is None,
        1 <= i < argv.len(),
    ensures
        !policy.flags.blocked.contains(argv[i]),
        is_flag_arg(argv[i]) && policy.flags.allowed.len() > 0 ==> policy.flags.allowed.contains(
            argv[i],
        ),
{
    lemma_no_arg_fault(policy, argv.drop_first(), 0, i - 1);
}

/// An argument list that passes holds no argument of a class of risks that the policy
/// blocks, and sends no local file away as the data of a flag.
pub proof fn law_passed_argv_is_free_of_blocked_risks(
    policy: PolicyModel,
    argv: Seq<Seq<char>>,
    i: int,
)
    requires
        argv_fault(policy, argv) is None,
        1 <= i < argv.len(),
    ensures
        policy.privilege == RiskLevel::Block ==> !privilege_arg(argv[i]),
        policy.package_manager == RiskLevel::Block && !policy.allow_network_args ==> !network_arg(
            argv[i],
        ),
        policy.destructive == RiskLevel::Block ==> !destructive_arg(argv[i]),
        data_flag(argv[i]) && i + 1 < argv.len() ==> !file_reference(argv[i + 1]),
{
    lemma_no_arg_fault(policy, argv.drop_first(), 0, i - 1);
}

/// An audit that passes leaves no variable to inherit, and none of the host, that the
/// policy blocks, nor one outside the list of allowed ones where the policy has such a
/// list.
pub proof fn law_passed_audit_keeps_to_the_environment(
    policy: PolicyModel,
    argv: Seq<Seq<char>>,
    inherited: Set<Seq<char>>,
    host: Set<Seq<char>>,
    key: Seq<char>,
)
    requires
        audit_fault(policy, argv, inherited, host) is None,
        inherited.contains(key) || host.contains(key),
    ensures
        argv_fault(policy, argv) is None,
        !policy.env.blocked.contains(key),
        policy.env.allowed.len() > 0 ==> policy.env.allowed.contains(key),
{
    assert(!refused_variables(policy.env, inherited).contains(key));
    assert(!refused_variables(policy.env, host).contains(key));
}

/// A policy whose subcommand path is blank constrains no subcommand: it covers every
/// argument list of its program that passes the checks on arguments.
pub proof fn law_blank_subcommand_path_covers_the_program(
    policy: PolicyModel,
    argv: Seq<Seq<char>>,
)
    requires
        is_blank(policy.subcommand_path),
        argv.len() > 0,
        argv[0] == policy.binary_name,
    ensures
        argv_fault(policy, argv) == args_fault(policy, argv.drop_first(), 0),
{
    lemma_blank_has_no_words(policy.subcommand_path);
    assert(argv.drop_first().take(0) =~= Seq::<Seq<char>>::empty());
}

/// The risk level lets through at least what the other does.
pub open spec fn no_stricter(level: RiskLevel, other: RiskLevel) -> bool {
    level == other || level == RiskLevel::Allow
}

/// Every name of the first list stands in the second.
pub open spec fn is_contained(list: Seq<Seq<char>>, other: Seq<Seq<char>>) -> bool {
    forall|name: Seq<char>| #[trigger] list.contains(name) ==> other.contains(name)
}

/// A list of allowed names lets through at least what another does. A list without names
/// lets everything through.
pub open spec fn allows_more(allowed: Seq<Seq<char>>, other: Seq<Seq<char>>) -> bool {
    allowed.len() == 0 || (other.len() > 0 && is_contained(other, allowed))
}

/// The first policy is as strict on argument lists as the second, or looser: it may run
/// more programs, block fewer flags, allow more of them, and block fewer risks.
pub open spec fn is_looser(policy: PolicyModel, other: PolicyModel) -> bool {
    &&& policy.binary_name == other.binary_name
    &&& policy.subcommand_path == other.subcommand_path
    &&& is_contained(other.binaries, policy.binaries)
    &&& is_contained(policy.flags.blocked, other.flags.blocked)
    &&& allows_more(policy.flags.allowed, other.flags.allowed)
    &&& other.allow_network_args ==> policy.allow_network_args
    &&& no_stricter(policy.package_manager, other.package_manager)
    &&& no_stricter(policy.privilege, other.privilege)
    &&& no_stricter(policy.destructive, other.destructive)
}

proof fn lemma_looser_args(
    policy: PolicyModel,
    other: PolicyModel,
    args: Seq<Seq<char>>,
    from: nat,
)
    requires
        is_looser(policy, other),
        args_fault(other, args, from) is None,
    ensures
        args_fault(policy, args, from) is None,
    decreases args.len() - from,
{
    if from < args.len() {
        let arg = args[from as int];
        assert(policy.flags.blocked.contains(arg) ==> other.flags.blocked.contains(arg));
        assert(other.flags.allowed.contains(arg) ==> allows_more(
            policy.flags.allowed,
            other.flags.allowed,
        ));
        assert(arg_fault(policy, args, from as int) is None);
        lemma_looser_args(policy, other, args, from + 1);
    }
}

/// Loosening a policy never turns an argument list that passes into one that is refused.
pub proof fn law_looser_policies_pass_as_much(
    policy: PolicyModel,
    other: PolicyModel,
    argv: Seq<Seq<char>>,
)
    requires
        is_looser(policy, other),
        argv_fault(other, argv) is None,
    ensures
        argv_fault(policy, argv) is None,
{
    assert(other.binaries.contains(argv[0]) ==> policy.binaries.contains(argv[0]));
    lemma_looser_args(policy, other, argv.drop_first(), 0);
}

proof fn lemma_blank_has_no_words(s: Seq<char>)
    requires
        is_blank(s),
    ensures
        words(s) == Seq::<Seq<char>>::empty(),
    decreases s.len(),
{
    if s.len() > 0 {
        let rest = s.drop_first();
        assert forall|i: int| 0 <= i < rest.len() implies is_space(#[trigger] rest[i]) by {
            assert(rest[i] == s[i + 1]);
        }
        lemma_blank_has_no_words(rest);
        assert(is_space(s[0]));
    }
}

// ---------------------------------------------------------------------------
// Laws of the audit
// ---------------------------------------------------------------------------

/// The arguments that change privileges are these six words.
pub proof fn law_privilege_arguments(arg: Seq<char>)
    ensures
        privilege_arg(arg) <==> seq![
            "sudo"@,
            "su"@,
            "doas"@,
            "--privileged"@,
            "--user=root"@,
            "--as-root"@,
        ].contains(arg),
{
    let names = seq!["sudo"@, "su"@, "doas"@, "--privileged"@, "--user=root"@, "--as-root"@];
    assert(names[0] == "sudo"@);
    assert(names[1] == "su"@);
    assert(names[2] == "doas"@);
    assert(names[3] == "--privileged"@);
    assert(names[4] == "--user=root"@);
    assert(names[5] == "--as-root"@);
}

/// The arguments that go to the network are addresses of the two schemes, whatever stands
/// behind the two slashes, and these four words.
pub proof fn law_network_arguments(arg: Seq<char>)
    ensures
        network_arg(arg) <==> {
            ||| seq!["--network"@, "--net"@, "--publish"@, "-p"@].contains(arg)
            ||| arg.len() >= 7 && arg.take(7) == seq!['h', 't', 't', 'p', ':', '/', '/']
            ||| arg.len() >= 8 && arg.take(8) == seq!['h', 't', 't', 'p', 's', ':', '/', '/']
        },
{
    let names = seq!["--network"@, "--net"@, "--publish"@, "-p"@];
    assert(names[0] == "--network"@);
    assert(names[1] == "--net"@);
    assert(names[2] == "--publish"@);
    assert(names[3] == "-p"@);
    reveal_strlit("http://");
    reveal_strlit("https://");
    assert("http://"@ =~= seq!['h', 't', 't', 'p', ':', '/', '/']);
    assert("https://"@ =~= seq!['h', 't', 't', 'p', 's', ':', '/', '/']);
    if arg.len() >= 7 {
        assert(arg.take(7) =~= arg.subrange(0, 7));
    }
    if arg.len() >= 8 {
        assert(arg.take(8) =~= arg.subrange(0, 8));
    }
}

/// The arguments that destroy whole trees are these four words.
pub proof fn law_destructive_arguments(arg: Seq<char>)
    ensures
        destructive_arg(arg) <==> seq!["-rf"@, "-fr"@, "--recursive"@, "--force"@].contains(arg),
{
    let names = seq!["-rf"@, "-fr"@, "--recursive"@, "--force"@];
    assert(names[0] == "-rf"@);
    assert(names[1] == "-fr"@);
    assert(names[2] == "--recursive"@);
    assert(names[3] == "--force"@);
}

/// The arguments that send the one behind them away are these seven words.
pub proof fn law_data_arguments(arg: Seq<char>)
    ensures
        data_flag(arg) <==> seq![
            "-d"@,
            "--data"@,
            "--data-raw"@,
            "--data-binary"@,
            "--data-urlencode"@,
            "-F"@,
            "--form"@,
        ].contains(arg),
{
    let names = seq![
        "-d"@,
        "--data"@,
        "--data-raw"@,
        "--data-binary"@,
        "--data-urlencode"@,
        "-F"@,
        "--form"@,
    ];
    assert(names[0] == "-d"@);
    assert(names[1] == "--data"@);
    assert(names[2] == "--data-raw"@);
    assert(names[3] == "--data-binary"@);
    assert(names[4] == "--data-urlencode"@);
    assert(names[5] == "-F"@);
    assert(names[6] == "--form"@);
}

/// An argument list that passes keeps every argument behind the program that begins with a
/// hyphen to the list of allowed flags, where there is one.
pub proof fn law_arguments_with_a_hyphen_are_allowlisted(
    policy: PolicyModel,
    argv: Seq<Seq<char>>,
    i: int,
)
    requires
        argv_fault(policy, argv) is None,
        1 <= i < argv.len(),
        argv[i].len() > 0,
        argv[i][0] == '-',
        policy.flags.allowed.len() > 0,
    ensures
        policy.flags.allowed.contains(argv[i]),
{
    law_argument_lists_pass_argument_by_argument(policy, argv);
    assert(argument_passes(policy, argv, i));
}

/// What one argument behind the program must satisfy, with the one that follows it.
pub open spec fn argument_passes(policy: PolicyModel, argv: Seq<Seq<char>>, i: int) -> bool {
    &&& !policy.flags.blocked.contains(argv[i])
    &&& policy.flags.allowed.len() > 0 && argv[i].len() > 0 && argv[i][0] == '-'
        ==> policy.flags.allowed.contains(argv[i])
    &&& policy.privilege == RiskLevel::Block ==> !privilege_arg(argv[i])
    &&& policy.package_manager == RiskLevel::Block && !policy.allow_network_args ==> !network_arg(
        argv[i],
    )
    &&& policy.destructive == RiskLevel::Block ==> !destructive_arg(argv[i])
    &&& data_flag(argv[i]) && i + 1 < argv.len() ==> argv[i + 1].len() == 0 || argv[i + 1][0] != '@'
}

/// An argument list passes exactly where it has a program, the program is the one of the
/// policy or one that it allows, the words of the subcommand path follow it, and each
/// argument behind the program passes.
pub proof fn law_argument_lists_pass_argument_by_argument(
    policy: PolicyModel,
    argv: Seq<Seq<char>>,
)
    ensures
        argv_fault(policy, argv) is None <==> {
            &&& argv.len() > 0
            &&& argv[0] == policy.binary_name || policy.binaries.contains(argv[0])
            &&& words(policy.subcommand_path).len() < argv.len()
            &&& forall|j: int|
                0 <= j < words(policy.subcommand_path).len() ==> #[trigger] words(
                    policy.subcommand_path,
                )[j] == argv[j + 1]
            &&& forall|i: int| 1 <= i < argv.len() ==> #[trigger] argument_passes(policy, argv, i)
        },
{
    if argv.len() > 0 {
        let args = argv.drop_first();
        let wanted = words(policy.subcommand_path);
        if wanted.len() <= args.len() && forall|j: int|
            0 <= j < wanted.len() ==> #[trigger] wanted[j] == argv[j + 1] {
            assert(args.take(wanted.len() as int) =~= wanted);
        }
        if wanted.is_prefix_of(args) {
            assert forall|j: int| 0 <= j < wanted.len() implies #[trigger] wanted[j] == argv[j + 1] by {
                assert(args.take(wanted.len() as int)[j] == args[j]);
            }
        }
        lemma_args_pass(policy, argv, 0);
    }
}

proof fn lemma_args_pass(policy: PolicyModel, argv: Seq<Seq<char>>, from: nat)
    requires
        argv.len() > 0,
    ensures
        args_fault(policy, argv.drop_first(), from) is None <==> forall|i: int|
            from < i < argv.len() ==> #[trigger] argument_passes(policy, argv, i),
    decreases argv.len() - from,
{
    let args = argv.drop_first();
    if from < args.len() {
        lemma_args_pass(policy, argv, from + 1);
        let i = from + 1;
        assert(args[from as int] == argv[i as int]);
        if i < args.len() {
            assert(args[i as int] == argv[i as int + 1]);
        }
        assert(arg_fault(policy, args, from as int) is None <==> argument_passes(
            policy,
            argv,
            i as int,
        ));
    }
}

/// What is refused of an argument list is told by its first fault: no program, another
/// program, other subcommands, or the first argument that does not pass, for the first of
/// the reasons in their order.
pub proof fn law_argument_lists_are_refused_for_their_first_fault(
    policy: PolicyModel,
    argv: Seq<Seq<char>>,
    k: int,
)
    ensures
        argv_fault(policy, Seq::empty()) == Some(PolicyFault::EmptyArgv),
        argv.len() > 0 && argv[0] != policy.binary_name && !policy.binaries.contains(argv[0])
            ==> argv_fault(policy, argv) == Some(
            PolicyFault::BinaryMismatch { expected: policy.binary_name, actual: argv[0] },
        ),
        argv.len() > 0 && (argv[0] == policy.binary_name || policy.binaries.contains(argv[0]))
            && !words(policy.subcommand_path).is_prefix_of(argv.drop_first()) ==> argv_fault(
            policy,
            argv,
        ) == Some(PolicyFault::SubcommandMismatch),
        argv.len() > 0 && (argv[0] == policy.binary_name || policy.binaries.contains(argv[0]))
            && words(policy.subcommand_path).is_prefix_of(argv.drop_first()) && 1 <= k < argv.len() && (
        forall|i: int| 1 <= i < k ==> #[trigger] argument_passes(policy, argv, i)) && !argument_passes(
            policy,
            argv,
            k,
        ) ==> argv_fault(policy, argv) == Some(
            if policy.flags.blocked.contains(argv[k]) {
                PolicyFault::FlagBlocked(argv[k])
            } else if policy.flags.allowed.len() > 0 && argv[k].len() > 0 && argv[k][0] == '-'
                && !policy.flags.allowed.contains(argv[k]) {
                PolicyFault::FlagNotAllowlisted(argv[k])
            } else if policy.privilege == RiskLevel::Block && privilege_arg(argv[k]) {
                PolicyFault::PrivilegeRisk(argv[k])
            } else if policy.package_manager == RiskLevel::Block && !policy.allow_network_args
                && network_arg(argv[k]) {
                PolicyFault::NetworkRisk(argv[k])
            } else if policy.destructive == RiskLevel::Block && destructive_arg(argv[k]) {
                PolicyFault::DestructiveRisk(argv[k])
            } else {
                PolicyFault::DataFlagFileRead(argv[k], argv[k + 1])
            },
        ),
{
    if argv.len() > 0 && 1 <= k < argv.len() && (forall|i: int|
        1 <= i < k ==> #[trigger] argument_passes(policy, argv, i)) && !argument_passes(
        policy,
        argv,
        k,
    ) {
        lemma_first_refused(policy, argv, 0, k);
    }
}

proof fn lemma_first_refused(policy: PolicyModel, argv: Seq<Seq<char>>, from: nat, k: int)
    requires
        from < k < argv.len(),
        forall|i: int| 1 <= i < k ==> #[trigger] argument_passes(policy, argv, i),
        !argument_passes(policy, argv, k),
    ensures
        args_fault(policy, argv.drop_first(), from) == arg_fault(policy, argv.drop_first(), k - 1),
        arg_fault(policy, argv.drop_first(), k - 1) is Some,
    decreases k - from,
{
    let args = argv.drop_first();
    let i = from + 1;
    assert(args[from as int] == argv[i as int]);
    assert(args[k - 1] == argv[k]);
    if k < args.len() {
        assert(args[k] == argv[k + 1]);
    }
    if i < args.len() {
        assert(args[i as int] == argv[i as int + 1]);
    }
    if i < k {
        assert(argument_passes(policy, argv, i as int));
        lemma_first_refused(policy, argv, i, k);
    }
}

/// An environment passes exactly where none of its variables is blocked and each is in the
/// list of allowed ones, where there is one. Else the first that does not pass, in the
/// order of the names, is reported.
pub proof fn law_environments_pass_variable_by_variable(
    policy: PolicyModel,
    keys: Set<Seq<char>>,
    key: Seq<char>,
)
    ensures
        env_fault(policy, keys) is None <==> forall|name: Seq<char>| #[trigger]
            keys.contains(name) ==> !policy.env.blocked.contains(name) && (policy.env.allowed.len()
                == 0 || policy.env.allowed.contains(name)),
        keys.contains(key) && (policy.env.blocked.contains(key) || (policy.env.allowed.len() > 0
            && !policy.env.allowed.contains(key))) && (forall|name: Seq<char>| #[trigger]
            keys.contains(name) && name != key && (policy.env.blocked.contains(name) || (
            policy.env.allowed.len() > 0 && !policy.env.allowed.contains(name))) ==> text_less(
                key,
                name,
            )) ==> env_fault(policy, keys) == Some(PolicyFault::EnvNotAllowlisted(key)),
{
    let refused = refused_variables(policy.env, keys);
    if env_fault(policy, keys) is None {
        assert forall|name: Seq<char>| #[trigger]
            keys.contains(name) implies !policy.env.blocked.contains(name) && (
        policy.env.allowed.len() == 0 || policy.env.allowed.contains(name)) by {
            assert(!refused.contains(name));
        }
    } else {
        if forall|name: Seq<char>| #[trigger]
            keys.contains(name) ==> !policy.env.blocked.contains(name) && (policy.env.allowed.len()
                == 0 || policy.env.allowed.contains(name)) {
            assert(refused =~= Set::empty());
        }
    }
    if keys.contains(key) && refuses_variable(policy.env, key) && (forall|name: Seq<char>| #[trigger]
        keys.contains(name) && name != key && (policy.env.blocked.contains(name) || (
        policy.env.allowed.len() > 0 && !policy.env.allowed.contains(name))) ==> text_less(
            key,
            name,
        )) {
        assert(refused.contains(key));
        assert forall|name: Seq<char>| #[trigger] refused.contains(name) implies name == key
            || text_less(key, name) by {
            assert(keys.contains(name));
        }
        lemma_first_of(refused, key);
    }
}

/// An audit looks at the argument list, then at the environment to inherit, then at that of
/// the host, and reports the first fault of the first that has one.
pub proof fn law_audits_look_at_three_things_in_order(
    policy: PolicyModel,
    argv: Seq<Seq<char>>,
    inherited: Set<Seq<char>>,
    host: Set<Seq<char>>,
)
    ensures
        audit_fault(policy, argv, inherited, host) is None <==> argv_fault(policy, argv) is None
            && env_fault(policy, inherited) is None && env_fault(policy, host) is None,
        argv_fault(policy, argv) is Some ==> audit_fault(policy, argv, inherited, host)
            == argv_fault(policy, argv),
        argv_fault(policy, argv) is None && env_fault(policy, inherited) is Some ==> audit_fault(
            policy,
            argv,
            inherited,
            host,
        ) == env_fault(policy, inherited),
        argv_fault(policy, argv) is None && env_fault(policy, inherited) is None ==> audit_fault(
            policy,
            argv,
            inherited,
            host,
        ) == env_fault(policy, host),
{
}

// ---------------------------------------------------------------------------
// Laws of stored rules
// ---------------------------------------------------------------------------

/// The list of texts under a key, which is empty where the key is left out.
pub open spec fn lists(found: Option<Json>, list: Seq<Seq<char>>) -> bool {
    match found {
        None => list == Seq::<Seq<char>>::empty(),
        Some(json) => json == Json::Array(list.map_values(|text: Seq<char>| Json::Text(text))),
    }
}

/// A blank column and one with an empty array stand for a policy that names nothing, and a
/// column that is no JSON is refused with the message about it.
pub proof fn law_blank_columns_name_nothing(column: Seq<char>)
    ensures
        is_blank(column) || json_text(column) == Ok::<Json, Seq<char>>(Json::Array(Seq::empty()))
            ==> {
            &&& binaries_column(column) == Ok::<Seq<Seq<char>>, PolicyFault>(Seq::empty())
            &&& env_column(column) == Ok::<Listing, PolicyFault>(
                Listing { allowed: Seq::empty(), blocked: Seq::empty() },
            )
            &&& flags_column(column) == Ok::<Listing, PolicyFault>(
                Listing { allowed: Seq::empty(), blocked: Seq::empty() },
            )
            &&& network_column(column) == Ok::<bool, PolicyFault>(false)
        },
        !is_blank(column) && json_text(column) is Err ==> {
            let message = json_text(column)->Err_0;
            &&& binaries_column(column) == Err::<Seq<Seq<char>>, PolicyFault>(
                PolicyFault::InvalidJson { field: "executable_path_policy_json"@, message },
            )
            &&& env_column(column) == Err::<Listing, PolicyFault>(
                PolicyFault::InvalidJson { field: "env_variable_inheritance_json"@, message },
            )
            &&& flags_column(column) == Err::<Listing, PolicyFault>(
                PolicyFault::InvalidJson { field: "positional_argument_rules_json"@, message },
            )
            &&& network_column(column) == Err::<bool, PolicyFault>(
                PolicyFault::InvalidJson { field: "path_slot_policies_json"@, message },
            )
        },
{
}

/// An object in a column names what stands under the keys of its policy, and what it leaves
/// out is empty or false.
pub proof fn law_columns_are_read_by_their_keys(
    column: Seq<char>,
    entries: Seq<(Seq<char>, Json)>,
    allowed: Seq<Seq<char>>,
    blocked: Seq<Seq<char>>,
    flag: bool,
)
    requires
        !is_blank(column),
        json_text(column) == Ok::<Json, Seq<char>>(Json::Object(entries)),
    ensures
        binaries_column(column) == Ok::<Seq<Seq<char>>, PolicyFault>(allowed) <==> lists(
            field(entries, "allowed_binaries"@),
            allowed,
        ),
        env_column(column) == Ok::<Listing, PolicyFault>(Listing { allowed, blocked }) <==> lists(
            field(entries, "allow"@),
            allowed,
        ) && lists(field(entries, "block"@), blocked),
        flags_column(column) == Ok::<Listing, PolicyFault>(Listing { allowed, blocked }) <==> lists(
            field(entries, "allowed_flags"@),
            allowed,
        ) && lists(field(entries, "blocked_flags"@), blocked),
        network_column(column) == Ok::<bool, PolicyFault>(flag) <==> match field(
            entries,
            "allow_network_args"@,
        ) {
            None => !flag,
            Some(json) => json == Json::Bool(flag),
        },
{
    lemma_lists(field(entries, "allowed_binaries"@), allowed);
    lemma_lists(field(entries, "allow"@), allowed);
    lemma_lists(field(entries, "block"@), blocked);
    lemma_lists(field(entries, "allowed_flags"@), allowed);
    lemma_lists(field(entries, "blocked_flags"@), blocked);
}

proof fn lemma_lists(found: Option<Json>, list: Seq<Seq<char>>)
    ensures
        texts_or_none(found) == Some(list) <==> lists(found, list),
{
    if let Some(json) = found {
        law_values_are_read_by_their_kind(json, Seq::empty(), true, 0, list);
    }
}

/// A stored rule is read column by column. Each of its names and levels goes where it
/// belongs; a level is let through only by the word for it; and the first column that is
/// wrong is reported. Without a row there is no rule.
pub proof fn law_stored_rules_are_read_column_by_column(
    row: PolicyRow,
    rule_id: Seq<char>,
    policy: PolicyModel,
)
    ensures
        stored_policy(None, rule_id) == Err::<PolicyModel, PolicyFault>(
            PolicyFault::RuleNotFound(rule_id),
        ),
        stored_policy(Some(row), rule_id) == Ok::<PolicyModel, PolicyFault>(policy) <==> {
            &&& policy.rule_id == row.rule_id@
            &&& policy.binary_name == row.binary_name@
            &&& policy.subcommand_path == row.subcommand_path@
            &&& binaries_column(row.executable_path_policy_json@) == Ok::<
                Seq<Seq<char>>,
                PolicyFault,
            >(policy.binaries)
            &&& env_column(row.env_variable_inheritance_json@) == Ok::<Listing, PolicyFault>(
                policy.env,
            )
            &&& flags_column(row.positional_argument_rules_json@) == Ok::<Listing, PolicyFault>(
                policy.flags,
            )
            &&& network_column(row.path_slot_policies_json@) == Ok::<bool, PolicyFault>(
                policy.allow_network_args,
            )
            &&& policy.package_manager == RiskLevel::Allow <==> row.package_manager_risk_level@
                == "ALLOW"@
            &&& policy.privilege == RiskLevel::Allow <==> row.privilege_risk_level@ == "ALLOW"@
            &&& policy.destructive == RiskLevel::Allow <==> row.destructive_recursive_level@
                == "ALLOW"@
        },
        stored_policy(Some(row), rule_id) is Err ==> stored_policy(Some(row), rule_id)->Err_0
            == if binaries_column(row.executable_path_policy_json@) is Err {
            binaries_column(row.executable_path_policy_json@)->Err_0
        } else if env_column(row.env_variable_inheritance_json@) is Err {
            env_column(row.env_variable_inheritance_json@)->Err_0
        } else if flags_column(row.positional_argument_rules_json@) is Err {
            flags_column(row.positional_argument_rules_json@)->Err_0
        } else {
            network_column(row.path_slot_policies_json@)->Err_0
        },
{
}

/// What is reported of a refused command names what was refused.
pub proof fn law_faults_of_policies_are_reported(
    field: Seq<char>,
    message: Seq<char>,
    expected: Seq<char>,
    actual: Seq<char>,
    flag: Seq<char>,
    key: Seq<char>,
    arg: Seq<char>,
    value: Seq<char>,
    rule_id: Seq<char>,
)
    ensures
        policy_fault_text(PolicyFault::InvalidJson { field, message })
            == "policy rule JSON is invalid in "@ + field + ": "@ + message,
        policy_fault_text(PolicyFault::EmptyArgv) == "compiled argv is empty"@,
        policy_fault_text(PolicyFault::BinaryMismatch { expected, actual }) == "binary "@ + actual
            + " does not match policy binary "@ + expected,
        policy_fault_text(PolicyFault::SubcommandMismatch)
            == "subcommand path does not match policy"@,
        policy_fault_text(PolicyFault::FlagNotAllowlisted(flag)) == "flag is not allowlisted: "@
            + flag,
        policy_fault_text(PolicyFault::FlagBlocked(flag)) == "flag is explicitly blocked: "@ + flag,
        policy_fault_text(PolicyFault::EnvNotAllowlisted(key))
            == "environment variable is not allowlisted: "@ + key,
        policy_fault_text(PolicyFault::PrivilegeRisk(arg))
            == "privilege alteration argument blocked: "@ + arg,
        policy_fault_text(PolicyFault::NetworkRisk(arg)) == "network operation argument blocked: "@
            + arg,
        policy_fault_text(PolicyFault::DestructiveRisk(arg))
            == "recursive destructive argument blocked: "@ + arg,
        policy_fault_text(PolicyFault::DataFlagFileRead(flag, value))
            == "data-flag argument reads a local file for exfiltration: "@ + flag + " "@ + value,
        policy_fault_text(PolicyFault::RuleNotFound(rule_id)) == "policy rule not found: "@
            + rule_id,
        policy_fault_text(PolicyFault::RequestStatusUpdate(message))
            == "failed to mark request SECURITY_BLOCKED: "@ + message,
{
}

/// An array in a column names what stands at the positions of its policy, and may end
/// before the last of them.
pub proof fn law_columns_are_read_by_position(
    column: Seq<char>,
    items: Seq<Json>,
    allowed: Seq<Seq<char>>,
    blocked: Seq<Seq<char>>,
    flag: bool,
)
    requires
        !is_blank(column),
        json_text(column) == Ok::<Json, Seq<char>>(Json::Array(items)),
        items.len() > 0,
    ensures
        binaries_column(column) == Ok::<Seq<Seq<char>>, PolicyFault>(allowed) <==> items.len() == 1
            && lists(Some(items[0]), allowed),
        env_column(column) == Ok::<Listing, PolicyFault>(Listing { allowed, blocked }) <==> lists(
            Some(items[0]),
            allowed,
        ) && (items.len() == 1 && lists(None, blocked) || items.len() == 2 && lists(
            Some(items[1]),
            blocked,
        )),
        flags_column(column) == Ok::<Listing, PolicyFault>(Listing { allowed, blocked }) <==> lists(
            Some(items[0]),
            allowed,
        ) && (items.len() == 1 && lists(None, blocked) || items.len() == 2 && lists(
            Some(items[1]),
            blocked,
        )),
        network_column(column) == Ok::<bool, PolicyFault>(flag) <==> items.len() == 1 && items[0]
            == Json::Bool(flag),
{
    assert(items != Seq::<Json>::empty());
    lemma_lists(Some(items[0]), allowed);
    lemma_lists(None, blocked);
    if items.len() > 1 {
        lemma_lists(Some(items[1]), blocked);
    }
}

/// A column whose JSON writes nothing of its kind is refused, with its own name and what is
/// wrong with it.
pub proof fn law_wrong_columns_are_named(column: Seq<char>, json: Json)
    requires
        !is_blank(column),
        json_text(column) == Ok::<Json, Seq<char>>(json),
    ensures
        !(json is Object) && !(json is Array) ==> binaries_column(column) is Err && env_column(
            column,
        ) is Err && flags_column(column) is Err && network_column(column) is Err,
        binaries_column(column) is Err ==> binaries_column(column)->Err_0 == (
        PolicyFault::InvalidJson {
            field: "executable_path_policy_json"@,
            message: lists_complaint(
                json,
                "ExecutablePathPolicy"@,
                "allowed_binaries"@,
                "allowed_binaries"@,
            ),
        }),
        env_column(column) is Err ==> env_column(column)->Err_0 == (PolicyFault::InvalidJson {
            field: "env_variable_inheritance_json"@,
            message: lists_complaint(json, "EnvPolicy"@, "allow"@, "block"@),
        }),
        flags_column(column) is Err ==> flags_column(column)->Err_0 == (PolicyFault::InvalidJson {
            field: "positional_argument_rules_json"@,
            message: lists_complaint(
                json,
                "PositionalPolicy"@,
                "allowed_flags"@,
                "blocked_flags"@,
            ),
        }),
        network_column(column) is Err ==> network_column(column)->Err_0 == (
        PolicyFault::InvalidJson {
            field: "path_slot_policies_json"@,
            message: flag_record_complaint(json, "PathSlotPolicy"@, "allow_network_args"@),
        }),
{
}

/// A command is held to a stored rule: it is refused where there is no rule, where the rule
/// cannot be read, and where its policy refuses it.
pub proof fn law_commands_are_held_to_stored_rules(
    row: Option<PolicyRow>,
    rule_id: Seq<char>,
    argv: Seq<Seq<char>>,
    inherited: Set<Seq<char>>,
    host: Set<Seq<char>>,
)
    ensures
        stored_audit_fault(None, rule_id, argv, inherited, host) == Some(
            PolicyFault::RuleNotFound(rule_id),
        ),
        stored_policy(row, rule_id) is Err ==> stored_audit_fault(
            row,
            rule_id,
            argv,
            inherited,
            host,
        ) == Some(stored_policy(row, rule_id)->Err_0),
        stored_policy(row, rule_id) is Ok ==> stored_audit_fault(
            row,
            rule_id,
            argv,
            inherited,
            host,
        ) == audit_fault(stored_policy(row, rule_id)->Ok_0, argv, inherited, host),
{
}

}
