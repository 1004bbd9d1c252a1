//! Storage: the life of a recorded request, and what goes into each record.
use crate::environment::SessionContext;
use crate::ids::{is_random_id, random_id};
use crate::json::{decode_strings, encode_strings, json_strings, strings_json};
use crate::number::{i64_to_text, int_text};
use crate::paths::{join_path, joined_path};
use crate::runtime_dir::{dirs_of, ensure_private_storage, rest_step, PrivateStep, RestModel};
use crate::shell::{shell_words_of, split_line};
use crate::text::{is_blank, same_text, text_is_blank, texts};
use vstd::prelude::*;

verus! {

/// How long a writer waits for the database, in milliseconds.
pub const SQLITE_BUSY_TIMEOUT_MS: u64 = 5_000;

/// How long a session record is valid, as a modifier of the current time.
pub const SESSION_LIFETIME: &'static str = "+8 hours";

/// How long a new request is valid, as a modifier of the current time.
pub const REQUEST_LIFETIME: &'static str = "+15 minutes";

/// How long a request that is being observed is valid, as a modifier of the current
/// time.
pub const OBSERVING_LIFETIME: &'static str = "+30 days";

// ---------------------------------------------------------------------------
// Records
// ---------------------------------------------------------------------------

/// A trusted command template.
#[derive(Debug, Clone, PartialEq, Eq)]
pub struct TrustedTemplate {
    pub doc_id: String,
    pub template_argv_json: String,
    pub slot_schema_json: String,
    pub policy_rule_id: String,
    pub trust_state: String,
}

/// A template that was learned from a correction.
#[derive(Debug, Clone, PartialEq, Eq)]
pub struct LearnedTemplate {
    pub doc_id: String,
    pub argv: Vec<String>,
}

/// A request that waits for a correction.
#[derive(Debug, Clone, PartialEq, Eq)]
pub struct ObservingRequest {
    pub request_id: String,
    pub raw_user_prompt: String,
}

/// A correction that was observed for a request.
#[derive(Debug, Clone, PartialEq, Eq)]
pub struct ObservedCorrection {
    pub request_id: String,
    pub argv: Vec<String>,
}

/// The state of a request.
#[derive(Debug, Clone, Copy, PartialEq, Eq, Structural)]
pub enum RequestStatus {
    Pending,
    Approved,
    Rejected,
    SecurityBlocked,
    Observing,
}

/// A recorded request.
#[derive(Debug, Clone, PartialEq, Eq)]
pub struct RequestRecord {
    pub request_id: String,
    pub session_id: String,
    pub raw_user_prompt: String,
    pub status: RequestStatus,
    pub observed_correction_argv_json: Option<String>,
}

/// A session as it is stored.
#[derive(Debug, Clone, PartialEq, Eq)]
pub struct SessionRow {
    pub session_id: String,
    pub context: SessionContext,
}

/// The record of a terminal's session: one that is still valid is used again.
#[derive(Debug, Clone, PartialEq, Eq)]
pub enum SessionRecord {
    Existing(String),
    New(SessionRow),
}

// ---------------------------------------------------------------------------
// Errors
// ---------------------------------------------------------------------------

/// Why a record was not changed or not read.
#[derive(Debug, Clone, PartialEq, Eq)]
pub enum StorageError {
    EmptyRequestId,
    EmptyTemplateId,
    TemplateFetch { template_id: String, message: String },
    NotTransitioned { request_id: String, target: RequestStatus },
    WindowNotPositive,
    InvalidCorrection(String),
    ForeignKeysInactive,
    BusyTimeout(i64),
    NoDataDirectory,
}

/// What a [`StorageError`] says.
pub ghost enum StorageFault {
    EmptyRequestId,
    EmptyTemplateId,
    TemplateFetch { template_id: Seq<char>, message: Seq<char> },
    NotTransitioned { request_id: Seq<char>, target: RequestStatus },
    WindowNotPositive,
    InvalidCorrection(Seq<char>),
    ForeignKeysInactive,
    BusyTimeout(i64),
    NoDataDirectory,
}

impl View for StorageError {
    type V = StorageFault;

    open spec fn view(&self) -> StorageFault {
        match self {
            StorageError::EmptyRequestId => StorageFault::EmptyRequestId,
            StorageError::EmptyTemplateId => StorageFault::EmptyTemplateId,
            StorageError::TemplateFetch { template_id, message } => StorageFault::TemplateFetch {
                template_id: template_id@,
                message: message@,
            },
            StorageError::NotTransitioned { request_id, target } => StorageFault::NotTransitioned {
                request_id: request_id@,
                target: *target,
            },
            StorageError::WindowNotPositive => StorageFault::WindowNotPositive,
            StorageError::InvalidCorrection(message) => StorageFault::InvalidCorrection(message@),
            StorageError::ForeignKeysInactive => StorageFault::ForeignKeysInactive,
            StorageError::BusyTimeout(actual) => StorageFault::BusyTimeout(*actual),
            StorageError::NoDataDirectory => StorageFault::NoDataDirectory,
        }
    }
}

/// The text that reports a fault to the user.
pub open spec fn storage_fault_text(fault: StorageFault) -> Seq<char> {
    match fault {
        StorageFault::EmptyRequestId => "request_id must not be empty"@,
        StorageFault::EmptyTemplateId => "candidate_template_id must not be empty"@,
        StorageFault::TemplateFetch { template_id, message } => {
            "failed to fetch trusted template and slot schema for candidate_template_id="@
                + template_id + ": "@ + message
        },
        StorageFault::NotTransitioned { request_id, target } => "request_id="@ + request_id
            + " was not transitioned to "@ + status_text(target)
            + "; request missing or already terminal"@,
        StorageFault::WindowNotPositive => "window_minutes must be positive"@,
        StorageFault::InvalidCorrection(message) => {
            "failed to decode observed correction argv JSON: "@ + message
        },
        StorageFault::ForeignKeysInactive => "SQLite foreign key enforcement did not activate"@,
        StorageFault::BusyTimeout(actual) => "SQLite busy_timeout is "@ + int_text(actual as int)
            + "ms; expected 5000ms"@,
        StorageFault::NoDataDirectory => {
            "could not determine data directory; set SEMANTIC_CLI_AGENT_HOME"@
        },
    }
}

impl StorageError {
    /// The text that reports the error to the user.
    pub fn message(&self) -> (text: String)
        ensures
            text@ == storage_fault_text(self@),
    {
        match self {
            StorageError::EmptyRequestId => "request_id must not be empty".to_owned(),
            StorageError::EmptyTemplateId => "candidate_template_id must not be empty".to_owned(),
            StorageError::TemplateFetch { template_id, message } => {
                "failed to fetch trusted template and slot schema for candidate_template_id=".to_owned().concat(
                template_id.as_str()).concat(": ").concat(message.as_str())
            },
            StorageError::NotTransitioned { request_id, target } => {
                "request_id=".to_owned().concat(request_id.as_str()).concat(
                    " was not transitioned to ",
                ).concat(target.as_text()).concat("; request missing or already terminal")
            },
            StorageError::WindowNotPositive => "window_minutes must be positive".to_owned(),
            StorageError::InvalidCorrection(message) => {
                "failed to decode observed correction argv JSON: ".to_owned().concat(
                    message.as_str(),
                )
            },
            StorageError::ForeignKeysInactive => {
                "SQLite foreign key enforcement did not activate".to_owned()
            },
            StorageError::BusyTimeout(actual) => {
                "SQLite busy_timeout is ".to_owned().concat(i64_to_text(*actual).as_str()).concat(
                    "ms; expected 5000ms",
                )
            },
            StorageError::NoDataDirectory => {
                "could not determine data directory; set SEMANTIC_CLI_AGENT_HOME".to_owned()
            },
        }
    }
}

// ---------------------------------------------------------------------------
// The life of a request
// ---------------------------------------------------------------------------

/// How a state is stored.
pub open spec fn status_text(status: RequestStatus) -> Seq<char> {
    match status {
        RequestStatus::Pending => "PENDING"@,
        RequestStatus::Approved => "APPROVED"@,
        RequestStatus::Rejected => "REJECTED"@,
        RequestStatus::SecurityBlocked => "SECURITY_BLOCKED"@,
        RequestStatus::Observing => "OBSERVING"@,
    }
}

/// The state that a stored text stands for.
pub open spec fn status_of(text: Seq<char>) -> Option<RequestStatus> {
    if text == "PENDING"@ {
        Some(RequestStatus::Pending)
    } else if text == "APPROVED"@ {
        Some(RequestStatus::Approved)
    } else if text == "REJECTED"@ {
        Some(RequestStatus::Rejected)
    } else if text == "SECURITY_BLOCKED"@ {
        Some(RequestStatus::SecurityBlocked)
    } else if text == "OBSERVING"@ {
        Some(RequestStatus::Observing)
    } else {
        None
    }
}

impl RequestStatus {
    /// How the state is stored.
    pub fn as_text(&self) -> (text: &'static str)
        ensures
            text@ == status_text(*self),
    {
        match self {
            RequestStatus::Pending => "PENDING",
            RequestStatus::Approved => "APPROVED",
            RequestStatus::Rejected => "REJECTED",
            RequestStatus::SecurityBlocked => "SECURITY_BLOCKED",
            RequestStatus::Observing => "OBSERVING",
        }
    }

    /// The state that a stored text stands for.
    pub fn from_text(text: &str) -> (status: Option<RequestStatus>)
        ensures
            status == status_of(text@),
    {
        if same_text(text, "PENDING") {
            Some(RequestStatus::Pending)
        } else if same_text(text, "APPROVED") {
            Some(RequestStatus::Approved)
        } else if same_text(text, "REJECTED") {
            Some(RequestStatus::Rejected)
        } else if same_text(text, "SECURITY_BLOCKED") {
            Some(RequestStatus::SecurityBlocked)
        } else if same_text(text, "OBSERVING") {
            Some(RequestStatus::Observing)
        } else {
            None
        }
    }
}

/// A request may be marked so: approved before or after it was rejected, observed while
/// it is pending, and blocked until it is blocked or observed.
pub open spec fn may_become(current: RequestStatus, target: RequestStatus) -> bool {
    match target {
        RequestStatus::Approved => current == RequestStatus::Pending || current
            == RequestStatus::Rejected,
        RequestStatus::Observing => current == RequestStatus::Pending,
        RequestStatus::SecurityBlocked => current == RequestStatus::Pending || current
            == RequestStatus::Approved || current == RequestStatus::Rejected,
        RequestStatus::Pending | RequestStatus::Rejected => false,
    }
}

/// The state of a request whose correction was refused: it is blocked, whatever it was
/// before, unless it is blocked already.
pub open spec fn refused_learning(request_id: Seq<char>, current: Option<RequestStatus>) -> Result<
    RequestStatus,
    StorageFault,
> {
    if is_blank(request_id) {
        Err(StorageFault::EmptyRequestId)
    } else if current is Some && current->0 != RequestStatus::SecurityBlocked {
        Ok(RequestStatus::SecurityBlocked)
    } else {
        Err(
            StorageFault::NotTransitioned { request_id, target: RequestStatus::SecurityBlocked },
        )
    }
}

/// The state of a request whose correction was learned: it is approved, whatever it was
/// before.
pub open spec fn learned(current: Option<RequestStatus>) -> Option<RequestStatus> {
    match current {
        Some(_) => Some(RequestStatus::Approved),
        None => None,
    }
}

/// The state of a request once it was asked to be marked, where `current` is `None` for
/// a request that is not recorded.
pub open spec fn marked(
    request_id: Seq<char>,
    current: Option<RequestStatus>,
    target: RequestStatus,
) -> Result<RequestStatus, StorageFault> {
    if is_blank(request_id) {
        Err(StorageFault::EmptyRequestId)
    } else if current is Some && may_become(current->0, target) {
        Ok(target)
    } else {
        Err(StorageFault::NotTransitioned { request_id, target })
    }
}

fn mark_request(request_id: &str, current: Option<RequestStatus>, target: RequestStatus) -> (result:
    Result<RequestStatus, StorageError>)
    ensures
        match result {
            Ok(status) => marked(request_id@, current, target) == Ok::<
                RequestStatus,
                StorageFault,
            >(status),
            Err(error) => marked(request_id@, current, target) == Err::<
                RequestStatus,
                StorageFault,
            >(error@),
        },
{
    if text_is_blank(request_id) {
        return Err(StorageError::EmptyRequestId);
    }
    let allowed = match current {
        None => false,
        Some(current) => match target {
            RequestStatus::Approved => current == RequestStatus::Pending || current
                == RequestStatus::Rejected,
            RequestStatus::Observing => current == RequestStatus::Pending,
            RequestStatus::SecurityBlocked => current == RequestStatus::Pending || current
                == RequestStatus::Approved || current == RequestStatus::Rejected,
            RequestStatus::Pending | RequestStatus::Rejected => false,
        },
    };
    if allowed {
        Ok(target)
    } else {
        Err(StorageError::NotTransitioned { request_id: request_id.to_owned(), target })
    }
}

/// Marks a request as approved, after its command was executed.
pub fn mark_request_approved(request_id: &str, current: Option<RequestStatus>) -> (result: Result<
    RequestStatus,
    StorageError,
>)
    ensures
        match result {
            Ok(status) => marked(request_id@, current, RequestStatus::Approved) == Ok::<
                RequestStatus,
                StorageFault,
            >(status),
            Err(error) => marked(request_id@, current, RequestStatus::Approved) == Err::<
                RequestStatus,
                StorageFault,
            >(error@),
        },
{
    mark_request(request_id, current, RequestStatus::Approved)
}

/// Marks a request as observed: nothing matched it, and nothing unsafe was attempted.
pub fn mark_request_observing(request_id: &str, current: Option<RequestStatus>) -> (result: Result<
    RequestStatus,
    StorageError,
>)
    ensures
        match result {
            Ok(status) => marked(request_id@, current, RequestStatus::Observing) == Ok::<
                RequestStatus,
                StorageFault,
            >(status),
            Err(error) => marked(request_id@, current, RequestStatus::Observing) == Err::<
                RequestStatus,
                StorageFault,
            >(error@),
        },
{
    mark_request(request_id, current, RequestStatus::Observing)
}

/// Marks a request as blocked.
pub fn mark_request_security_blocked(request_id: &str, current: Option<RequestStatus>) -> (result:
    Result<RequestStatus, StorageError>)
    ensures
        match result {
            Ok(status) => marked(request_id@, current, RequestStatus::SecurityBlocked) == Ok::<
                RequestStatus,
                StorageFault,
            >(status),
            Err(error) => marked(request_id@, current, RequestStatus::SecurityBlocked) == Err::<
                RequestStatus,
                StorageFault,
            >(error@),
        },
{
    mark_request(request_id, current, RequestStatus::SecurityBlocked)
}

/// Marks a request as blocked because the policy refuses its correction. That takes a
/// request that is observed as well: an observed correction can be refused.
pub fn mark_refused_learning(request_id: &str, current: Option<RequestStatus>) -> (result: Result<
    RequestStatus,
    StorageError,
>)
    ensures
        result is Ok <==> !is_blank(request_id@) && current is Some && current->0
            != RequestStatus::SecurityBlocked,
        match result {
            Ok(status) => refused_learning(request_id@, current) == Ok::<
                RequestStatus,
                StorageFault,
            >(status) && status == RequestStatus::SecurityBlocked,
            Err(error) => refused_learning(request_id@, current) == Err::<
                RequestStatus,
                StorageFault,
            >(error@),
        },
{
    if text_is_blank(request_id) {
        return Err(StorageError::EmptyRequestId);
    }
    let target = RequestStatus::SecurityBlocked;
    match current {
        Some(current) if current != RequestStatus::SecurityBlocked => Ok(target),
        _ => Err(StorageError::NotTransitioned { request_id: request_id.to_owned(), target }),
    }
}

/// Marks a request as approved because its correction was learned.
pub fn mark_request_learned(current: Option<RequestStatus>) -> (status: Option<RequestStatus>)
    ensures
        status == learned(current),
{
    match current {
        Some(_) => Some(RequestStatus::Approved),
        None => None,
    }
}

/// The words of a command line.
pub fn tokenize_command_line(input: &str) -> (result: Result<Vec<String>, String>)
    ensures
        match shell_words_of(input@) {
            Ok(words) => result is Ok && texts(result->Ok_0@) == words,
            Err(message) => result is Err && result->Err_0@
                == "failed to parse corrected command as POSIX shell words: "@ + message,
        },
{
    match split_line(input) {
        Ok(words) => Ok(words),
        Err(message) => Err(
            "failed to parse corrected command as POSIX shell words: ".to_owned().concat(
                message.as_str(),
            ),
        ),
    }
}

/// Makes a new record of a session.
pub fn insert_session_record(context: SessionContext) -> (row: SessionRow)
    ensures
        is_random_id(row.session_id@),
        row.context == context,
{
    SessionRow { session_id: random_id(), context }
}

/// Uses the record of this terminal that is still valid, or makes a new one.
pub fn find_or_create_session_record(existing: Option<String>, context: SessionContext) -> (record:
    SessionRecord)
    ensures
        match existing {
            Some(session_id) => record == SessionRecord::Existing(session_id),
            None => record is New && is_random_id(record->New_0.session_id@)
                && record->New_0.context == context,
        },
{
    match existing {
        Some(session_id) => SessionRecord::Existing(session_id),
        None => SessionRecord::New(insert_session_record(context)),
    }
}

/// Where the program keeps its data.
#[derive(Debug, Clone, PartialEq, Eq)]
pub struct StorageConfig {
    pub base_dir: String,
    pub db_path: String,
}

/// The variables of the environment that say where data is kept.
#[derive(Debug, Clone, PartialEq, Eq)]
pub struct DataHomes {
    pub agent_home: Option<String>,
    pub xdg_data_home: Option<String>,
    pub home: Option<String>,
    pub local_app_data: Option<String>,
}

/// The directory for data that the variables lead to: the one of the program itself, or
/// the one for data, below the home of the user where nothing else is set.
pub open spec fn data_dir(homes: DataHomes) -> Option<Seq<char>> {
    if homes.agent_home is Some {
        Some(homes.agent_home->0@)
    } else if homes.xdg_data_home is Some {
        Some(joined_path(homes.xdg_data_home->0@, "semantic-cli-agent"@))
    } else if homes.home is Some {
        Some(
            joined_path(
                joined_path(joined_path(homes.home->0@, ".local"@), "share"@),
                "semantic-cli-agent"@,
            ),
        )
    } else if homes.local_app_data is Some {
        Some(joined_path(homes.local_app_data->0@, "semantic-cli-agent"@))
    } else {
        None
    }
}

fn default_base_dir(homes: &DataHomes) -> (dir: Option<String>)
    requires
        homes.agent_home is None,
    ensures
        match dir {
            Some(dir) => data_dir(*homes) == Some(dir@),
            None => data_dir(*homes) is None,
        },
{
    if let Some(path) = &homes.xdg_data_home {
        return Some(join_path(path.as_str(), "semantic-cli-agent"));
    }
    if let Some(path) = &homes.home {
        let local = join_path(path.as_str(), ".local");
        let share = join_path(local.as_str(), "share");
        return Some(join_path(share.as_str(), "semantic-cli-agent"));
    }
    if let Some(path) = &homes.local_app_data {
        return Some(join_path(path.as_str(), "semantic-cli-agent"));
    }
    None
}

impl StorageConfig {
    /// Finds out where the program keeps its data.
    pub fn discover(homes: DataHomes) -> (result: Result<StorageConfig, StorageError>)
        ensures
            match result {
                Ok(config) => data_dir(homes) == Some(config.base_dir@) && config.db_path@
                    == joined_path(config.base_dir@, "cli-agent.db"@),
                Err(error) => data_dir(homes) is None && error@ == StorageFault::NoDataDirectory,
            },
    {
        match &homes.agent_home {
            Some(path) => Ok(StorageConfig::from_base_dir(path.clone())),
            None => match default_base_dir(&homes) {
                Some(dir) => Ok(StorageConfig::from_base_dir(dir)),
                None => Err(StorageError::NoDataDirectory),
            },
        }
    }

    /// Keeps the data in a directory.
    pub fn from_base_dir(base_dir: String) -> (config: StorageConfig)
        ensures
            config.base_dir@ == base_dir@,
            config.db_path@ == joined_path(base_dir@, "cli-agent.db"@),
    {
        let db_path = join_path(base_dir.as_str(), "cli-agent.db");
        StorageConfig { base_dir, db_path }
    }

    /// The socket of the sidecar.
    pub fn socket_path(&self) -> (path: String)
        ensures
            path@ == joined_path(self.base_dir@, "sidecar.sock"@),
    {
        join_path(self.base_dir.as_str(), "sidecar.sock")
    }

    /// Begins to make the directory private, and then the file of the database.
    pub fn prepare_filesystem(&self) -> (step: PrivateStep)
        ensures
            step@ == rest_step(
                RestModel {
                    dirs: seq![self.base_dir@] + dirs_of(self.db_path@),
                    file: Some(self.db_path@),
                },
            ),
            step@.wf(),
    {
        ensure_private_storage(self.base_dir.as_str(), self.db_path.as_str())
    }
}

/// Opens the record of a prompt: it is pending, and no correction was observed for it.
pub fn insert_request_record(session_id: &str, raw_user_prompt: &str) -> (record: RequestRecord)
    ensures
        is_random_id(record.request_id@),
        record.session_id@ == session_id@,
        record.raw_user_prompt@ == raw_user_prompt@,
        record.status == RequestStatus::Pending,
        record.observed_correction_argv_json is None,
{
    RequestRecord {
        request_id: random_id(),
        session_id: session_id.to_owned(),
        raw_user_prompt: raw_user_prompt.to_owned(),
        status: RequestStatus::Pending,
        observed_correction_argv_json: None,
    }
}

/// The correction that a request holds once one is offered to it: only a request that is
/// observed takes one, and it keeps the first.
pub open spec fn correction_after(
    status: RequestStatus,
    held: Option<Seq<char>>,
    offered: Seq<char>,
) -> Option<Seq<char>> {
    if status == RequestStatus::Observing && held is None {
        Some(offered)
    } else {
        held
    }
}

impl RequestRecord {
    /// The correction that the request holds, as it is stored.
    pub open spec fn correction(&self) -> Option<Seq<char>> {
        match self.observed_correction_argv_json {
            Some(json) => Some(json@),
            None => None,
        }
    }
}

/// Records an argument list as the correction of a request, unless one was recorded
/// before or the request is not being observed. Says whether it did. What is stored is
/// read back as this argument list.
pub fn record_observed_correction(record: &mut RequestRecord, argv: &Vec<String>) -> (recorded: bool)
    ensures
        recorded == (old(record).status == RequestStatus::Observing
            && old(record).observed_correction_argv_json is None),
        final(record).request_id == old(record).request_id,
        final(record).session_id == old(record).session_id,
        final(record).raw_user_prompt == old(record).raw_user_prompt,
        final(record).status == old(record).status,
        final(record).correction() == correction_after(
            old(record).status,
            old(record).correction(),
            strings_json(texts(argv@)),
        ),
        recorded ==> json_strings(strings_json(texts(argv@))) == Ok::<Seq<Seq<char>>, Seq<char>>(
            texts(argv@),
        ),
{
    if record.status == RequestStatus::Observing && record.observed_correction_argv_json.is_none() {
        record.observed_correction_argv_json = Some(encode_strings(argv));
        true
    } else {
        false
    }
}

/// The correction that was observed for a request, from its stored form.
pub fn find_observed_correction_for_prompt(row: Option<(String, String)>) -> (result: Result<
    Option<ObservedCorrection>,
    StorageError,
>)
    ensures
        match row {
            None => result == Ok::<Option<ObservedCorrection>, StorageError>(None),
            Some((request_id, argv_json)) => match json_strings(argv_json@) {
                Ok(argv) => {
                    &&& result is Ok
                    &&& result->Ok_0 is Some
                    &&& result->Ok_0->0.request_id@ == request_id@
                    &&& texts(result->Ok_0->0.argv@) == argv
                },
                Err(message) => result is Err && result->Err_0@ == StorageFault::InvalidCorrection(
                    message,
                ),
            },
        },
{
    match row {
        None => Ok(None),
        Some((request_id, argv_json)) => match decode_strings(argv_json.as_str()) {
            Ok(argv) => Ok(Some(ObservedCorrection { request_id, argv })),
            Err(message) => Err(StorageError::InvalidCorrection(message)),
        },
    }
}

/// The modifier of the current time that begins a window of some minutes.
pub fn window_modifier(window_minutes: i64) -> (result: Result<String, StorageError>)
    ensures
        match result {
            Ok(text) => window_minutes > 0 && text@ == "-"@ + int_text(window_minutes as int)
                + " minutes"@,
            Err(error) => window_minutes <= 0 && error@ == StorageFault::WindowNotPositive,
        },
{
    if window_minutes <= 0 {
        return Err(StorageError::WindowNotPositive);
    }
    Ok("-".to_owned().concat(i64_to_text(window_minutes).as_str()).concat(" minutes"))
}

/// The trusted template of an id, where `row` is what was stored under it, or the message
/// of the failure to read it.
pub fn fetch_trusted_template_by_doc_id(
    candidate_template_id: &str,
    row: Result<TrustedTemplate, String>,
) -> (result: Result<TrustedTemplate, StorageError>)
    ensures
        if is_blank(candidate_template_id@) {
            result is Err && result->Err_0@ == StorageFault::EmptyTemplateId
        } else {
            match row {
                Ok(template) => result == Ok::<TrustedTemplate, StorageError>(template),
                Err(message) => result is Err && result->Err_0@ == (StorageFault::TemplateFetch {
                    template_id: candidate_template_id@,
                    message: message@,
                }),
            }
        },
{
    if text_is_blank(candidate_template_id) {
        return Err(StorageError::EmptyTemplateId);
    }
    match row {
        Ok(template) => Ok(template),
        Err(message) => Err(
            StorageError::TemplateFetch { template_id: candidate_template_id.to_owned(), message },
        ),
    }
}

/// Checks what a connection reports of its settings.
pub fn check_settings(foreign_keys: i64, busy_timeout: i64) -> (result: Result<(), StorageError>)
    ensures
        result is Ok <==> foreign_keys == 1 && busy_timeout == SQLITE_BUSY_TIMEOUT_MS,
        result is Err && foreign_keys != 1 ==> result->Err_0@ == StorageFault::ForeignKeysInactive,
        result is Err && foreign_keys == 1 ==> result->Err_0@ == StorageFault::BusyTimeout(
            busy_timeout,
        ),
{
    if foreign_keys != 1 {
        return Err(StorageError::ForeignKeysInactive);
    }
    if busy_timeout != SQLITE_BUSY_TIMEOUT_MS as i64 {
        return Err(StorageError::BusyTimeout(busy_timeout));
    }
    Ok(())
}

// ---------------------------------------------------------------------------
// Lifetimes
// ---------------------------------------------------------------------------

/// How long a request is valid from the moment that it takes a state, as a modifier of
/// the current time. Where there is none, the request expires when it would have
/// expired.
pub open spec fn lifetime(status: RequestStatus) -> Option<Seq<char>> {
    match status {
        RequestStatus::Pending => Some(REQUEST_LIFETIME@),
        RequestStatus::Observing => Some(OBSERVING_LIFETIME@),
        _ => None,
    }
}

/// Gives the lifetime of a request that takes a state.
pub fn lifetime_of(status: RequestStatus) -> (modifier: Option<&'static str>)
    ensures
        match modifier {
            Some(modifier) => lifetime(status) == Some(modifier@),
            None => lifetime(status) is None,
        },
{
    match status {
        RequestStatus::Pending => Some(REQUEST_LIFETIME),
        RequestStatus::Observing => Some(OBSERVING_LIFETIME),
        _ => None,
    }
}

/// Gives the lifetime of a session that is recorded.
pub fn session_lifetime() -> (modifier: &'static str)
    ensures
        modifier@ == SESSION_LIFETIME@,
{
    SESSION_LIFETIME
}

// ---------------------------------------------------------------------------
// Laws
// ---------------------------------------------------------------------------

/// A state is read back from the text that it is stored as.
pub proof fn law_status_text_reads_back(status: RequestStatus)
    ensures
        status_of(status_text(status)) == Some(status),
{
    reveal_strlit("PENDING");
    reveal_strlit("APPROVED");
    reveal_strlit("REJECTED");
    reveal_strlit("SECURITY_BLOCKED");
    reveal_strlit("OBSERVING");
    assert("PENDING"@[0] == 'P');
    assert("APPROVED"@[0] == 'A');
    assert("REJECTED"@[0] == 'R');
    assert("SECURITY_BLOCKED"@[0] == 'S');
    assert("OBSERVING"@[0] == 'O');
}

/// The first correction stays: one that is offered later changes nothing.
pub proof fn law_the_first_correction_is_kept(
    status: RequestStatus,
    held: Option<Seq<char>>,
    first: Seq<char>,
    later: Seq<char>,
)
    ensures
        correction_after(status, correction_after(status, held, first), later)
            == correction_after(status, held, first),
{
}

/// No marking changes a blocked request, neither one of the three nor that of a refused
/// correction. Only learning a correction that its policy accepts does.
pub proof fn law_no_marking_changes_a_blocked_request(request_id: Seq<char>, target: RequestStatus)
    ensures
        marked(request_id, Some(RequestStatus::SecurityBlocked), target) is Err,
        refused_learning(request_id, Some(RequestStatus::SecurityBlocked)) is Err,
        learned(Some(RequestStatus::SecurityBlocked)) == Some(RequestStatus::Approved),
{
}

/// A refused correction blocks its request in every state that is not blocked already,
/// also while it is observed.
pub proof fn law_refused_corrections_block_their_request(
    request_id: Seq<char>,
    current: RequestStatus,
)
    requires
        !is_blank(request_id),
        current != RequestStatus::SecurityBlocked,
    ensures
        refused_learning(request_id, Some(current)) == Ok::<RequestStatus, StorageFault>(
            RequestStatus::SecurityBlocked,
        ),
{
}

/// A request that is observed leaves that state by its correction alone: it is approved
/// where that is learned, and blocked where that is refused. No other marking takes it.
pub proof fn law_observed_requests_wait_for_their_correction(
    request_id: Seq<char>,
    target: RequestStatus,
)
    ensures
        marked(request_id, Some(RequestStatus::Observing), target) is Err,
        learned(Some(RequestStatus::Observing)) == Some(RequestStatus::Approved),
        !is_blank(request_id) ==> refused_learning(request_id, Some(RequestStatus::Observing))
            == Ok::<RequestStatus, StorageFault>(RequestStatus::SecurityBlocked),
{
}

/// Each state is stored as one word, and only that word is read as it.
pub proof fn law_states_are_stored_as_words(text: Seq<char>)
    ensures
        status_text(RequestStatus::Pending) == "PENDING"@,
        status_text(RequestStatus::Approved) == "APPROVED"@,
        status_text(RequestStatus::Rejected) == "REJECTED"@,
        status_text(RequestStatus::SecurityBlocked) == "SECURITY_BLOCKED"@,
        status_text(RequestStatus::Observing) == "OBSERVING"@,
        status_of(text) == Some(RequestStatus::Pending) <==> text == "PENDING"@,
        status_of(text) == Some(RequestStatus::Approved) <==> text == "APPROVED"@,
        status_of(text) == Some(RequestStatus::Rejected) <==> text == "REJECTED"@,
        status_of(text) == Some(RequestStatus::SecurityBlocked) <==> text == "SECURITY_BLOCKED"@,
        status_of(text) == Some(RequestStatus::Observing) <==> text == "OBSERVING"@,
{
    reveal_strlit("PENDING");
    reveal_strlit("APPROVED");
    reveal_strlit("REJECTED");
    reveal_strlit("SECURITY_BLOCKED");
    reveal_strlit("OBSERVING");
    assert("PENDING"@.len() == 7);
    assert("APPROVED"@.len() == 8);
    assert("REJECTED"@.len() == 8);
    assert("SECURITY_BLOCKED"@.len() == 16);
    assert("OBSERVING"@.len() == 9);
    assert("PENDING"@ != "APPROVED"@);
    assert("PENDING"@ != "REJECTED"@);
    assert("PENDING"@ != "SECURITY_BLOCKED"@);
    assert("PENDING"@ != "OBSERVING"@);
    assert("APPROVED"@[0] == 'A');
    assert("REJECTED"@[0] == 'R');
    assert("APPROVED"@ != "REJECTED"@);
    assert("APPROVED"@ != "SECURITY_BLOCKED"@);
    assert("APPROVED"@ != "OBSERVING"@);
    assert("REJECTED"@ != "SECURITY_BLOCKED"@);
    assert("REJECTED"@ != "OBSERVING"@);
    assert("SECURITY_BLOCKED"@ != "OBSERVING"@);
}

/// A request is marked as approved while it is pending or rejected, as observed while it is
/// pending, and as blocked while it is pending, approved or rejected. Every other marking is
/// refused, and so is that of a blank request, before anything else.
pub proof fn law_requests_are_marked_from_these_states(
    request_id: Seq<char>,
    current: Option<RequestStatus>,
    target: RequestStatus,
)
    ensures
        is_blank(request_id) ==> marked(request_id, current, target) == Err::<
            RequestStatus,
            StorageFault,
        >(StorageFault::EmptyRequestId),
        !is_blank(request_id) && (current == Some(RequestStatus::Pending) && (target
            == RequestStatus::Approved || target == RequestStatus::Observing || target
            == RequestStatus::SecurityBlocked) || current == Some(RequestStatus::Rejected) && (target
            == RequestStatus::Approved || target == RequestStatus::SecurityBlocked) || current
            == Some(RequestStatus::Approved) && target == RequestStatus::SecurityBlocked) ==> marked(
            request_id,
            current,
            target,
        ) == Ok::<RequestStatus, StorageFault>(target),
        !is_blank(request_id) && !(current == Some(RequestStatus::Pending) && (target
            == RequestStatus::Approved || target == RequestStatus::Observing || target
            == RequestStatus::SecurityBlocked) || current == Some(RequestStatus::Rejected) && (target
            == RequestStatus::Approved || target == RequestStatus::SecurityBlocked) || current
            == Some(RequestStatus::Approved) && target == RequestStatus::SecurityBlocked) ==> marked(
            request_id,
            current,
            target,
        ) == Err::<RequestStatus, StorageFault>(
            StorageFault::NotTransitioned { request_id, target },
        ),
{
}

/// A correction that is refused or learnt changes a request that is recorded, and only that:
/// a refused one blocks every request that is not blank and not blocked already, and a
/// learnt one approves every request.
pub proof fn law_corrections_change_recorded_requests(
    request_id: Seq<char>,
    current: RequestStatus,
)
    ensures
        learned(None) is None,
        learned(Some(current)) == Some(RequestStatus::Approved),
        is_blank(request_id) ==> refused_learning(request_id, Some(current)) == Err::<
            RequestStatus,
            StorageFault,
        >(StorageFault::EmptyRequestId) && refused_learning(request_id, None) == Err::<
            RequestStatus,
            StorageFault,
        >(StorageFault::EmptyRequestId),
        !is_blank(request_id) ==> refused_learning(request_id, None) == Err::<
            RequestStatus,
            StorageFault,
        >(
            StorageFault::NotTransitioned { request_id, target: RequestStatus::SecurityBlocked },
        ),
        !is_blank(request_id) ==> refused_learning(
            request_id,
            Some(RequestStatus::SecurityBlocked),
        ) == Err::<RequestStatus, StorageFault>(
            StorageFault::NotTransitioned { request_id, target: RequestStatus::SecurityBlocked },
        ),
{
}

/// A correction is taken by a request that is observed and holds none, and by no other.
pub proof fn law_only_observed_requests_take_a_correction(
    status: RequestStatus,
    held: Option<Seq<char>>,
    offered: Seq<char>,
)
    ensures
        correction_after(RequestStatus::Observing, None, offered) == Some(offered),
        held is Some ==> correction_after(status, held, offered) == held,
        status != RequestStatus::Observing ==> correction_after(status, held, offered) == held,
{
}

/// Data is kept where the variable of the program says, else in a directory of the
/// program's name below the one for data, below the home of the user, or below the one for
/// applications, in this order. Variables behind the first that is set do not count.
pub proof fn law_data_is_kept_by_the_first_variable(homes: DataHomes)
    ensures
        homes.agent_home is Some ==> data_dir(homes) == Some(homes.agent_home->0@),
        homes.agent_home is None && homes.xdg_data_home is Some ==> data_dir(homes) == Some(
            joined_path(homes.xdg_data_home->0@, "semantic-cli-agent"@),
        ),
        homes.agent_home is None && homes.xdg_data_home is None && homes.home is Some ==> data_dir(
            homes,
        ) == Some(joined_path(homes.home->0@, ".local/share/semantic-cli-agent"@)),
        homes.agent_home is None && homes.xdg_data_home is None && homes.home is None
            && homes.local_app_data is Some ==> data_dir(homes) == Some(
            joined_path(homes.local_app_data->0@, "semantic-cli-agent"@),
        ),
        data_dir(homes) is None <==> homes.agent_home is None && homes.xdg_data_home is None
            && homes.home is None && homes.local_app_data is None,
{
    reveal_strlit(".local");
    reveal_strlit("share");
    reveal_strlit("semantic-cli-agent");
    reveal_strlit(".local/share/semantic-cli-agent");
    if homes.home is Some {
        let home = homes.home->0@;
        let local = joined_path(home, ".local"@);
        assert(local.last() == 'l') by {
            assert(".local"@.last() == 'l');
        }
        let share = joined_path(local, "share"@);
        assert(share.last() == 'e') by {
            assert("share"@.last() == 'e');
        }
        assert(".local"@ + seq!['/'] + "share"@ + seq!['/'] + "semantic-cli-agent"@
            =~= ".local/share/semantic-cli-agent"@);
        assert(joined_path(share, "semantic-cli-agent"@) =~= joined_path(
            home,
            ".local/share/semantic-cli-agent"@,
        ));
    }
}

/// A session is valid for hours, a new request for minutes and one that is observed for
/// days; every other marking leaves a request the time that it had. A writer waits for the
/// database for seconds.
pub proof fn law_records_live_so_long(status: RequestStatus)
    ensures
        SQLITE_BUSY_TIMEOUT_MS == 5 * 1000,
        SESSION_LIFETIME@ == "+8 hours"@,
        lifetime(RequestStatus::Pending) == Some("+15 minutes"@),
        lifetime(RequestStatus::Observing) == Some("+30 days"@),
        status != RequestStatus::Pending && status != RequestStatus::Observing ==> lifetime(
            status,
        ) is None,
{
}

/// What is reported of a record names it, with the state or the message that it is about.
pub proof fn law_faults_of_storage_are_reported(
    template_id: Seq<char>,
    message: Seq<char>,
    request_id: Seq<char>,
    target: RequestStatus,
    actual: i64,
)
    ensures
        storage_fault_text(StorageFault::EmptyRequestId) == "request_id must not be empty"@,
        storage_fault_text(StorageFault::EmptyTemplateId)
            == "candidate_template_id must not be empty"@,
        storage_fault_text(StorageFault::TemplateFetch { template_id, message })
            == "failed to fetch trusted template and slot schema for candidate_template_id="@
            + template_id + ": "@ + message,
        storage_fault_text(StorageFault::NotTransitioned { request_id, target }) == "request_id="@
            + request_id + " was not transitioned to "@ + status_text(target)
            + "; request missing or already terminal"@,
        storage_fault_text(StorageFault::WindowNotPositive) == "window_minutes must be positive"@,
        storage_fault_text(StorageFault::InvalidCorrection(message))
            == "failed to decode observed correction argv JSON: "@ + message,
        storage_fault_text(StorageFault::ForeignKeysInactive)
            == "SQLite foreign key enforcement did not activate"@,
        storage_fault_text(StorageFault::BusyTimeout(actual)) == "SQLite busy_timeout is "@
            + int_text(actual as int) + "ms; expected 5000ms"@,
        storage_fault_text(StorageFault::NoDataDirectory)
            == "could not determine data directory; set SEMANTIC_CLI_AGENT_HOME"@,
{
}

}
