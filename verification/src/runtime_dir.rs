//! The private directory of the program, and the file of its database.
use crate::number::{octal_text, u32_to_octal};
use crate::paths::{parent_of, text_parent};
use crate::text::texts;
use vstd::prelude::*;

verus! {

/// The permissions of a private directory: everything for its owner, nothing for anyone
/// else.
pub const DIR_MODE: u32 = 0o700;

/// The permissions of the database file: reading and writing for its owner.
pub const FILE_MODE: u32 = 0o600;

/// The bits of a mode that are permissions are those below this one.
pub const PERMISSIONS: u32 = 0o1000;

// ---------------------------------------------------------------------------
// Errors
// ---------------------------------------------------------------------------

/// Why the directory or the file is not private.
#[derive(Debug, Clone, PartialEq, Eq)]
pub enum RuntimeError {
    EmptyPath,
    NoParent(String),
    NotADirectory(String),
    CreateDir { path: String, message: String },
    RestrictDir { path: String, message: String },
    InspectDir { path: String, message: String },
    DirMode { path: String, mode: u32 },
    CreateFile { path: String, message: String },
    RestrictFile { path: String, message: String },
    InspectFile { path: String, message: String },
    NotAFile(String),
    FileMode { path: String, mode: u32 },
}

/// What a [`RuntimeError`] says.
pub ghost enum RuntimeFault {
    EmptyPath,
    NoParent(Seq<char>),
    NotADirectory(Seq<char>),
    CreateDir { path: Seq<char>, message: Seq<char> },
    RestrictDir { path: Seq<char>, message: Seq<char> },
    InspectDir { path: Seq<char>, message: Seq<char> },
    DirMode { path: Seq<char>, mode: u32 },
    CreateFile { path: Seq<char>, message: Seq<char> },
    RestrictFile { path: Seq<char>, message: Seq<char> },
    InspectFile { path: Seq<char>, message: Seq<char> },
    NotAFile(Seq<char>),
    FileMode { path: Seq<char>, mode: u32 },
}

impl View for RuntimeError {
    type V = RuntimeFault;

    open spec fn view(&self) -> RuntimeFault {
        match self {
            RuntimeError::EmptyPath => RuntimeFault::EmptyPath,
            RuntimeError::NoParent(path) => RuntimeFault::NoParent(path@),
            RuntimeError::NotADirectory(path) => RuntimeFault::NotADirectory(path@),
            RuntimeError::CreateDir { path, message } => RuntimeFault::CreateDir {
                path: path@,
                message: message@,
            },
            RuntimeError::RestrictDir { path, message } => RuntimeFault::RestrictDir {
                path: path@,
                message: message@,
            },
            RuntimeError::InspectDir { path, message } => RuntimeFault::InspectDir {
                path: path@,
                message: message@,
            },
            RuntimeError::DirMode { path, mode } => RuntimeFault::DirMode {
                path: path@,
                mode: *mode,
            },
            RuntimeError::CreateFile { path, message } => RuntimeFault::CreateFile {
                path: path@,
                message: message@,
            },
            RuntimeError::RestrictFile { path, message } => RuntimeFault::RestrictFile {
                path: path@,
                message: message@,
            },
            RuntimeError::InspectFile { path, message } => RuntimeFault::InspectFile {
                path: path@,
                message: message@,
            },
            RuntimeError::NotAFile(path) => RuntimeFault::NotAFile(path@),
            RuntimeError::FileMode { path, mode } => RuntimeFault::FileMode {
                path: path@,
                mode: *mode,
            },
        }
    }
}

/// The text that reports a fault to the user.
pub open spec fn runtime_fault_text(fault: RuntimeFault) -> Seq<char> {
    match fault {
        RuntimeFault::EmptyPath => "private directory path is empty"@,
        RuntimeFault::NoParent(path) => "failed to resolve parent path for "@ + path,
        RuntimeFault::NotADirectory(path) => path + " exists but is not a directory"@,
        RuntimeFault::CreateDir { path, message } => "failed to create private directory "@ + path
            + ": "@ + message,
        RuntimeFault::RestrictDir { path, message } => "failed to enforce 0700 permissions on "@
            + path + ": "@ + message,
        RuntimeFault::InspectDir { path, message } => "failed to stat private directory "@ + path
            + ": "@ + message,
        RuntimeFault::DirMode { path, mode } => "private directory "@ + path + " has mode "@
            + octal_text(mode as nat) + "; expected 700"@,
        RuntimeFault::CreateFile { path, message } => "failed to create database file "@ + path
            + ": "@ + message,
        RuntimeFault::RestrictFile { path, message } => "failed to set 0600 permissions on "@ + path
            + ": "@ + message,
        RuntimeFault::InspectFile { path, message } => "failed to stat database file "@ + path
            + ": "@ + message,
        RuntimeFault::NotAFile(path) => path + " exists but is not a regular file"@,
        RuntimeFault::FileMode { path, mode } => "database file "@ + path + " has mode "@
            + octal_text(mode as nat) + "; expected 600"@,
    }
}

fn report(head: &str, path: &String, message: &String) -> (text: String)
    ensures
        text@ == head@ + path@ + ": "@ + message@,
{
    head.to_owned().concat(path.as_str()).concat(": ").concat(message.as_str())
}

impl RuntimeError {
    /// The text that reports the error to the user.
    pub fn message(&self) -> (text: String)
        ensures
            text@ == runtime_fault_text(self@),
    {
        match self {
            RuntimeError::EmptyPath => "private directory path is empty".to_owned(),
            RuntimeError::NoParent(path) => {
                "failed to resolve parent path for ".to_owned().concat(path.as_str())
            },
            RuntimeError::NotADirectory(path) => {
                path.clone().concat(" exists but is not a directory")
            },
            RuntimeError::CreateDir { path, message } => {
                report("failed to create private directory ", path, message)
            },
            RuntimeError::RestrictDir { path, message } => {
                report("failed to enforce 0700 permissions on ", path, message)
            },
            RuntimeError::InspectDir { path, message } => {
                report("failed to stat private directory ", path, message)
            },
            RuntimeError::DirMode { path, mode } => {
                "private directory ".to_owned().concat(path.as_str()).concat(" has mode ").concat(
                    u32_to_octal(*mode).as_str(),
                ).concat("; expected 700")
            },
            RuntimeError::CreateFile { path, message } => {
                report("failed to create database file ", path, message)
            },
            RuntimeError::RestrictFile { path, message } => {
                report("failed to set 0600 permissions on ", path, message)
            },
            RuntimeError::InspectFile { path, message } => {
                report("failed to stat database file ", path, message)
            },
            RuntimeError::NotAFile(path) => {
                path.clone().concat(" exists but is not a regular file")
            },
            RuntimeError::FileMode { path, mode } => {
                "database file ".to_owned().concat(path.as_str()).concat(" has mode ").concat(
                    u32_to_octal(*mode).as_str(),
                ).concat("; expected 600")
            },
        }
    }
}

// ---------------------------------------------------------------------------
// Steps
// ---------------------------------------------------------------------------

/// What is left to make private: directories, one after the other, and then a file.
#[derive(Debug, PartialEq, Eq)]
pub struct Rest {
    dirs: Vec<String>,
    file: Option<String>,
}

/// What a [`Rest`] says.
pub ghost struct RestModel {
    pub dirs: Seq<Seq<char>>,
    pub file: Option<Seq<char>>,
}

impl View for Rest {
    type V = RestModel;

    closed spec fn view(&self) -> RestModel {
        RestModel {
            dirs: texts(self.dirs@),
            file: match self.file {
                Some(path) => Some(path@),
                None => None,
            },
        }
    }
}

/// A list of paths, each of which lies right in the one after it. It begins with `path`,
/// and what holds its last path is `above`; an empty list leads from `path` to itself.
pub open spec fn is_chain(path: Seq<char>, missing: Seq<Seq<char>>, above: Seq<char>) -> bool
    decreases missing.len(),
{
    if missing.len() == 0 {
        above == path
    } else {
        is_chain(path, missing.drop_last(), missing.last()) && text_parent(missing.last()) == Some(
            above,
        )
    }
}

/// A search upwards from a directory for one that exists.
#[derive(Debug, PartialEq, Eq)]
pub struct DirSearch {
    path: String,
    cursor: String,
    missing: Vec<String>,
    rest: Rest,
}

/// What a [`DirSearch`] says: the directory that is wanted, the one that the search is
/// at, the ones on the way that do not exist, and what comes after the directory.
pub ghost struct SearchState {
    pub path: Seq<char>,
    pub cursor: Seq<char>,
    pub missing: Seq<Seq<char>>,
    pub rest: RestModel,
}

impl View for DirSearch {
    type V = SearchState;

    closed spec fn view(&self) -> SearchState {
        SearchState {
            path: self.path@,
            cursor: self.cursor@,
            missing: texts(self.missing@),
            rest: self.rest@,
        }
    }
}

impl SearchState {
    /// The missing directories lead from the wanted one to the place of the search.
    pub open spec fn wf(self) -> bool {
        is_chain(self.path, self.missing, self.cursor)
    }
}

/// Directories that are made one by one.
#[derive(Debug, PartialEq, Eq)]
pub struct DirCreation {
    path: String,
    target: String,
    missing: Vec<String>,
    rest: Rest,
}

/// What a [`DirCreation`] says: the directory that is wanted, the one that is made now,
/// the ones that are made after it, the last of them first, and what comes after the
/// directory.
pub ghost struct CreationState {
    pub path: Seq<char>,
    pub target: Seq<char>,
    pub missing: Seq<Seq<char>>,
    pub rest: RestModel,
}

impl View for DirCreation {
    type V = CreationState;

    closed spec fn view(&self) -> CreationState {
        CreationState {
            path: self.path@,
            target: self.target@,
            missing: texts(self.missing@),
            rest: self.rest@,
        }
    }
}

impl CreationState {
    /// Every directory that is still to be made lies right in the one made before it.
    pub open spec fn wf(self) -> bool {
        is_chain(self.path, self.missing, self.target)
    }
}

/// A directory whose permissions are looked at.
#[derive(Debug, PartialEq, Eq)]
pub struct DirCheck {
    path: String,
    rest: Rest,
}

/// What a [`DirCheck`] says: the directory, and what comes after it.
pub ghost struct CheckState {
    pub path: Seq<char>,
    pub rest: RestModel,
}

impl View for DirCheck {
    type V = CheckState;

    closed spec fn view(&self) -> CheckState {
        CheckState { path: self.path@, rest: self.rest@ }
    }
}

/// The database file while it is made private.
#[derive(Debug, PartialEq, Eq)]
pub struct FileCheck {
    path: String,
}

impl View for FileCheck {
    type V = Seq<char>;

    closed spec fn view(&self) -> Seq<char> {
        self.path@
    }
}

/// What making things private asks of the file system next, or its outcome.
#[derive(Debug, PartialEq, Eq)]
pub enum PrivateStep {
    /// Find out whether the place of the search exists.
    Exists(DirSearch),
    /// Find out whether the place of the search is a directory.
    IsDirectory(DirSearch),
    /// Make the directory, with [`DIR_MODE`] from the start.
    Create(DirCreation),
    /// Give the new directory [`DIR_MODE`].
    Restrict(DirCreation),
    /// Look at the directory and its mode.
    Inspect(DirCheck),
    /// Give the directory [`DIR_MODE`].
    Tighten(DirCheck),
    /// Look at its mode once more.
    Reinspect(DirCheck),
    /// Open the file for appending, and make it where it is missing.
    CreateFile(FileCheck),
    /// Give the file [`FILE_MODE`].
    RestrictFile(FileCheck),
    /// Look at the file and its mode.
    InspectFile(FileCheck),
    /// Everything is private, or something is not.
    Done(Result<(), RuntimeError>),
}

/// What a [`PrivateStep`] says.
pub ghost enum PrivateModel {
    Exists(SearchState),
    IsDirectory(SearchState),
    Create(CreationState),
    Restrict(CreationState),
    Inspect(CheckState),
    Tighten(CheckState),
    Reinspect(CheckState),
    CreateFile(Seq<char>),
    RestrictFile(Seq<char>),
    InspectFile(Seq<char>),
    Done(Result<(), RuntimeFault>),
}

impl View for PrivateStep {
    type V = PrivateModel;

    open spec fn view(&self) -> PrivateModel {
        match self {
            PrivateStep::Exists(search) => PrivateModel::Exists(search@),
            PrivateStep::IsDirectory(search) => PrivateModel::IsDirectory(search@),
            PrivateStep::Create(creation) => PrivateModel::Create(creation@),
            PrivateStep::Restrict(creation) => PrivateModel::Restrict(creation@),
            PrivateStep::Inspect(check) => PrivateModel::Inspect(check@),
            PrivateStep::Tighten(check) => PrivateModel::Tighten(check@),
            PrivateStep::Reinspect(check) => PrivateModel::Reinspect(check@),
            PrivateStep::CreateFile(check) => PrivateModel::CreateFile(check@),
            PrivateStep::RestrictFile(check) => PrivateModel::RestrictFile(check@),
            PrivateStep::InspectFile(check) => PrivateModel::InspectFile(check@),
            PrivateStep::Done(Ok(())) => PrivateModel::Done(Ok(())),
            PrivateStep::Done(Err(error)) => PrivateModel::Done(Err(error@)),
        }
    }
}

impl PrivateModel {
    /// What every step keeps: directories are made from the outside in.
    pub open spec fn wf(self) -> bool {
        match self {
            PrivateModel::Exists(search) | PrivateModel::IsDirectory(search) => search.wf(),
            PrivateModel::Create(creation) | PrivateModel::Restrict(creation) => creation.wf(),
            _ => true,
        }
    }
}

/// Something was not made private.
pub open spec fn fails(fault: RuntimeFault) -> PrivateModel {
    PrivateModel::Done(Err(fault))
}

/// A text that the file system gave, or the message of a failure.
pub open spec fn result_model(result: Result<(), String>) -> Result<(), Seq<char>> {
    match result {
        Ok(_) => Ok(()),
        Err(message) => Err(message@),
    }
}

/// The first step of what is left: the search for the first directory, or the file.
pub open spec fn rest_step(rest: RestModel) -> PrivateModel {
    if rest.dirs.len() > 0 {
        let path = rest.dirs[0];
        let behind = RestModel { dirs: rest.dirs.drop_first(), file: rest.file };
        if path.len() == 0 {
            fails(RuntimeFault::EmptyPath)
        } else {
            PrivateModel::Exists(
                SearchState { path, cursor: path, missing: Seq::empty(), rest: behind },
            )
        }
    } else {
        match rest.file {
            Some(path) => PrivateModel::CreateFile(path),
            None => PrivateModel::Done(Ok(())),
        }
    }
}

/// The directory that is made next, or the check of the wanted one when all are made.
pub open spec fn creation_step(
    path: Seq<char>,
    missing: Seq<Seq<char>>,
    rest: RestModel,
) -> PrivateModel {
    if missing.len() == 0 {
        PrivateModel::Inspect(CheckState { path, rest })
    } else {
        PrivateModel::Create(
            CreationState { path, target: missing.last(), missing: missing.drop_last(), rest },
        )
    }
}

/// The step after the place of a search was looked for.
pub open spec fn searched_step(search: SearchState, exists_there: bool) -> PrivateModel {
    if exists_there {
        PrivateModel::IsDirectory(search)
    } else {
        match text_parent(search.cursor) {
            Some(parent) => PrivateModel::Exists(
                SearchState {
                    cursor: parent,
                    missing: search.missing.push(search.cursor),
                    ..search
                },
            ),
            None => fails(RuntimeFault::NoParent(search.path)),
        }
    }
}

/// The step after it was found out whether the place of a search is a directory.
pub open spec fn looked_step(search: SearchState, is_dir: bool) -> PrivateModel {
    if is_dir {
        creation_step(search.path, search.missing, search.rest)
    } else {
        fails(RuntimeFault::NotADirectory(search.cursor))
    }
}

/// The step after a directory was made.
pub open spec fn created_step(
    creation: CreationState,
    result: Result<(), Seq<char>>,
) -> PrivateModel {
    match result {
        Ok(_) => PrivateModel::Restrict(creation),
        Err(message) => fails(RuntimeFault::CreateDir { path: creation.target, message }),
    }
}

/// The step after a new directory was given its mode.
pub open spec fn restricted_step(
    creation: CreationState,
    result: Result<(), Seq<char>>,
) -> PrivateModel {
    match result {
        Ok(_) => creation_step(creation.path, creation.missing, creation.rest),
        Err(message) => fails(RuntimeFault::RestrictDir { path: creation.target, message }),
    }
}

/// The permissions in a mode.
pub open spec fn permissions(mode: u32) -> u32 {
    mode % PERMISSIONS
}

/// The step after the wanted directory was looked at: whether it is one, and its mode.
pub open spec fn inspected_step(
    check: CheckState,
    result: Result<(bool, u32), Seq<char>>,
) -> PrivateModel {
    match result {
        Err(message) => fails(RuntimeFault::InspectDir { path: check.path, message }),
        Ok((is_dir, mode)) => if !is_dir {
            fails(RuntimeFault::NotADirectory(check.path))
        } else if permissions(mode) == DIR_MODE {
            rest_step(check.rest)
        } else {
            PrivateModel::Tighten(check)
        },
    }
}

/// The step after the wanted directory was given its mode.
pub open spec fn tightened_step(check: CheckState, result: Result<(), Seq<char>>) -> PrivateModel {
    match result {
        Ok(_) => PrivateModel::Reinspect(check),
        Err(message) => fails(RuntimeFault::RestrictDir { path: check.path, message }),
    }
}

/// The step after the mode of the wanted directory was looked at again.
pub open spec fn reinspected_step(
    check: CheckState,
    result: Result<u32, Seq<char>>,
) -> PrivateModel {
    match result {
        Err(message) => fails(RuntimeFault::InspectDir { path: check.path, message }),
        Ok(mode) => if permissions(mode) == DIR_MODE {
            rest_step(check.rest)
        } else {
            fails(RuntimeFault::DirMode { path: check.path, mode: permissions(mode) })
        },
    }
}

/// The step after the file was made.
pub open spec fn file_created_step(path: Seq<char>, result: Result<(), Seq<char>>) -> PrivateModel {
    match result {
        Ok(_) => PrivateModel::RestrictFile(path),
        Err(message) => fails(RuntimeFault::CreateFile { path, message }),
    }
}

/// The step after the file was given its mode.
pub open spec fn file_restricted_step(
    path: Seq<char>,
    result: Result<(), Seq<char>>,
) -> PrivateModel {
    match result {
        Ok(_) => PrivateModel::InspectFile(path),
        Err(message) => fails(RuntimeFault::RestrictFile { path, message }),
    }
}

/// The step after the file was looked at: whether it is a regular one, and its mode.
pub open spec fn file_inspected_step(
    path: Seq<char>,
    result: Result<(bool, u32), Seq<char>>,
) -> PrivateModel {
    match result {
        Err(message) => fails(RuntimeFault::InspectFile { path, message }),
        Ok((is_file, mode)) => if !is_file {
            fails(RuntimeFault::NotAFile(path))
        } else if permissions(mode) != FILE_MODE {
            fails(RuntimeFault::FileMode { path, mode: permissions(mode) })
        } else {
            PrivateModel::Done(Ok(()))
        },
    }
}

/// What was found at a path and its mode, or the message of the failure to look.
pub open spec fn look_model(result: Result<(bool, u32), String>) -> Result<(bool, u32), Seq<char>> {
    match result {
        Ok(found) => Ok(found),
        Err(message) => Err(message@),
    }
}

/// A mode, or the message of the failure to look.
pub open spec fn mode_model(result: Result<u32, String>) -> Result<u32, Seq<char>> {
    match result {
        Ok(mode) => Ok(mode),
        Err(message) => Err(message@),
    }
}

fn fail(error: RuntimeError) -> (step: PrivateStep)
    ensures
        step@ == fails(error@),
        step@.wf(),
{
    PrivateStep::Done(Err(error))
}

fn begin(rest: Rest) -> (step: PrivateStep)
    ensures
        step@ == rest_step(rest@),
        step@.wf(),
{
    let mut dirs = rest.dirs;
    if dirs.len() == 0 {
        return match rest.file {
            Some(path) => PrivateStep::CreateFile(FileCheck { path }),
            None => PrivateStep::Done(Ok(())),
        };
    }
    let ghost before = texts(dirs@);
    let path = dirs.remove(0);
    assert(path@ == before[0]);
    assert(texts(dirs@) =~= before.drop_first());
    if path.as_str().is_empty() {
        return fail(RuntimeError::EmptyPath);
    }
    let cursor = path.clone();
    let missing: Vec<String> = Vec::new();
    assert(texts(missing@) =~= Seq::<Seq<char>>::empty());
    PrivateStep::Exists(
        DirSearch { path, cursor, missing, rest: Rest { dirs, file: rest.file } },
    )
}

/// Begins to make a directory private.
pub fn ensure_private_dir(path: &str) -> (step: PrivateStep)
    ensures
        step@ == rest_step(RestModel { dirs: seq![path@], file: None }),
        step@.wf(),
{
    let mut dirs: Vec<String> = Vec::new();
    dirs.push(path.to_owned());
    assert(texts(dirs@) =~= seq![path@]);
    begin(Rest { dirs, file: None })
}

/// The directory that holds a file, if there is one.
pub open spec fn dirs_of(path: Seq<char>) -> Seq<Seq<char>> {
    match text_parent(path) {
        Some(parent) => seq![parent],
        None => Seq::empty(),
    }
}

/// Begins to make the database file private: first the directory that holds it, then the
/// file.
pub fn ensure_private_db_file(path: &str) -> (step: PrivateStep)
    ensures
        step@ == rest_step(RestModel { dirs: dirs_of(path@), file: Some(path@) }),
        step@.wf(),
{
    let mut dirs: Vec<String> = Vec::new();
    if let Some(parent) = parent_of(path) {
        dirs.push(parent);
    }
    assert(texts(dirs@) =~= dirs_of(path@));
    begin(Rest { dirs, file: Some(path.to_owned()) })
}

/// Begins to make a directory private, and then the database file.
pub fn ensure_private_storage(dir: &str, path: &str) -> (step: PrivateStep)
    ensures
        step@ == rest_step(RestModel { dirs: seq![dir@] + dirs_of(path@), file: Some(path@) }),
        step@.wf(),
{
    let mut dirs: Vec<String> = Vec::new();
    dirs.push(dir.to_owned());
    if let Some(parent) = parent_of(path) {
        dirs.push(parent);
    }
    assert(texts(dirs@) =~= seq![dir@] + dirs_of(path@));
    begin(Rest { dirs, file: Some(path.to_owned()) })
}

fn next_creation(
    path: String,
    missing: Vec<String>,
    rest: Rest,
    Ghost(above): Ghost<Seq<char>>,
) -> (step: PrivateStep)
    requires
        is_chain(path@, texts(missing@), above),
    ensures
        step@ == creation_step(path@, texts(missing@), rest@),
        step@.wf(),
{
    let mut missing = missing;
    let ghost before = texts(missing@);
    match missing.pop() {
        None => PrivateStep::Inspect(DirCheck { path, rest }),
        Some(target) => {
            assert(texts(missing@) =~= before.drop_last());
            assert(before.last() == target@);
            PrivateStep::Create(DirCreation { path, target, missing, rest })
        },
    }
}

impl DirSearch {
    /// The place of the search.
    pub fn place(&self) -> (text: &str)
        ensures
            text@ == self@.cursor,
    {
        self.cursor.as_str()
    }

    /// Goes on once it is known whether the place exists.
    pub fn searched(self, exists_there: bool) -> (step: PrivateStep)
        requires
            self@.wf(),
        ensures
            step@ == searched_step(self@, exists_there),
            step@.wf(),
    {
        if exists_there {
            return PrivateStep::IsDirectory(self);
        }
        let ghost state = self@;
        match parent_of(self.cursor.as_str()) {
            None => fail(RuntimeError::NoParent(self.path)),
            Some(parent) => {
                let mut missing = self.missing;
                missing.push(self.cursor);
                proof {
                    assert(texts(missing@) =~= state.missing.push(state.cursor));
                    assert(state.missing.push(state.cursor).drop_last() =~= state.missing);
                }
                PrivateStep::Exists(
                    DirSearch { path: self.path, cursor: parent, missing, rest: self.rest },
                )
            },
        }
    }

    /// Goes on once it is known whether the place is a directory.
    pub fn looked_at(self, is_dir: bool) -> (step: PrivateStep)
        requires
            self@.wf(),
        ensures
            step@ == looked_step(self@, is_dir),
            step@.wf(),
    {
        if !is_dir {
            return fail(RuntimeError::NotADirectory(self.cursor));
        }
        let ghost above = self.cursor@;
        next_creation(self.path, self.missing, self.rest, Ghost(above))
    }
}

impl DirCreation {
    /// The directory that is made now.
    pub fn target(&self) -> (text: &str)
        ensures
            text@ == self@.target,
    {
        self.target.as_str()
    }

    /// Goes on once the directory was made; `Err` holds the message where that failed.
    pub fn created(self, result: Result<(), String>) -> (step: PrivateStep)
        requires
            self@.wf(),
        ensures
            step@ == created_step(self@, result_model(result)),
            step@.wf(),
    {
        match result {
            Ok(()) => PrivateStep::Restrict(self),
            Err(message) => fail(RuntimeError::CreateDir { path: self.target, message }),
        }
    }

    /// Goes on once the directory has its mode; `Err` holds the message where that
    /// failed.
    pub fn restricted(self, result: Result<(), String>) -> (step: PrivateStep)
        requires
            self@.wf(),
        ensures
            step@ == restricted_step(self@, result_model(result)),
            step@.wf(),
    {
        match result {
            Ok(()) => {
                let ghost above = self.target@;
                next_creation(self.path, self.missing, self.rest, Ghost(above))
            },
            Err(message) => fail(RuntimeError::RestrictDir { path: self.target, message }),
        }
    }
}

impl DirCheck {
    /// The directory that is looked at.
    pub fn place(&self) -> (text: &str)
        ensures
            text@ == self@.path,
    {
        self.path.as_str()
    }

    /// Goes on once the directory was looked at: whether it is one, and its mode.
    pub fn inspected(self, result: Result<(bool, u32), String>) -> (step: PrivateStep)
        ensures
            step@ == inspected_step(self@, look_model(result)),
            step@.wf(),
    {
        match result {
            Err(message) => fail(RuntimeError::InspectDir { path: self.path, message }),
            Ok((is_dir, mode)) => {
                if !is_dir {
                    fail(RuntimeError::NotADirectory(self.path))
                } else if mode % PERMISSIONS == DIR_MODE {
                    begin(self.rest)
                } else {
                    PrivateStep::Tighten(self)
                }
            },
        }
    }

    /// Goes on once the directory has its mode; `Err` holds the message where that
    /// failed.
    pub fn tightened(self, result: Result<(), String>) -> (step: PrivateStep)
        ensures
            step@ == tightened_step(self@, result_model(result)),
            step@.wf(),
    {
        match result {
            Ok(()) => PrivateStep::Reinspect(self),
            Err(message) => fail(RuntimeError::RestrictDir { path: self.path, message }),
        }
    }

    /// Goes on once the mode was looked at again.
    pub fn reinspected(self, result: Result<u32, String>) -> (step: PrivateStep)
        ensures
            step@ == reinspected_step(self@, mode_model(result)),
            step@.wf(),
    {
        match result {
            Err(message) => fail(RuntimeError::InspectDir { path: self.path, message }),
            Ok(mode) => {
                if mode % PERMISSIONS == DIR_MODE {
                    begin(self.rest)
                } else {
                    fail(RuntimeError::DirMode { path: self.path, mode: mode % PERMISSIONS })
                }
            },
        }
    }
}

impl FileCheck {
    /// The file.
    pub fn place(&self) -> (text: &str)
        ensures
            text@ == self@,
    {
        self.path.as_str()
    }

    /// Goes on once the file was made; `Err` holds the message where that failed.
    pub fn created(self, result: Result<(), String>) -> (step: PrivateStep)
        ensures
            step@ == file_created_step(self@, result_model(result)),
            step@.wf(),
    {
        match result {
            Ok(()) => PrivateStep::RestrictFile(self),
            Err(message) => fail(RuntimeError::CreateFile { path: self.path, message }),
        }
    }

    /// Goes on once the file has its mode; `Err` holds the message where that failed.
    pub fn restricted(self, result: Result<(), String>) -> (step: PrivateStep)
        ensures
            step@ == file_restricted_step(self@, result_model(result)),
            step@.wf(),
    {
        match result {
            Ok(()) => PrivateStep::InspectFile(self),
            Err(message) => fail(RuntimeError::RestrictFile { path: self.path, message }),
        }
    }

    /// Ends once the file was looked at: whether it is a regular one, and its mode.
    pub fn inspected(self, result: Result<(bool, u32), String>) -> (step: PrivateStep)
        ensures
            step@ == file_inspected_step(self@, look_model(result)),
            step@.wf(),
    {
        match result {
            Err(message) => fail(RuntimeError::InspectFile { path: self.path, message }),
            Ok((is_file, mode)) => {
                if !is_file {
                    fail(RuntimeError::NotAFile(self.path))
                } else if mode % PERMISSIONS != FILE_MODE {
                    fail(RuntimeError::FileMode { path: self.path, mode: mode % PERMISSIONS })
                } else {
                    PrivateStep::Done(Ok(()))
                }
            },
        }
    }
}

// ---------------------------------------------------------------------------
// Laws
// ---------------------------------------------------------------------------

/// Directories are made one level at a time, from the outside in: the one that is made
/// after another lies right in it, and the last one is the one that is wanted.
pub proof fn law_directories_are_made_from_the_outside_in(creation: CreationState)
    requires
        creation.wf(),
    ensures
        match creation_step(creation.path, creation.missing, creation.rest) {
            PrivateModel::Create(next) => next.wf() && text_parent(next.target) == Some(
                creation.target,
            ),
            _ => creation.target == creation.path,
        },
{
}

/// What is not known to be private yet, the next thing first: directories, and then the
/// file.
pub open spec fn unsettled(step: PrivateModel) -> RestModel {
    match step {
        PrivateModel::Exists(search) | PrivateModel::IsDirectory(search) => RestModel {
            dirs: seq![search.path] + search.rest.dirs,
            file: search.rest.file,
        },
        PrivateModel::Create(creation) | PrivateModel::Restrict(creation) => RestModel {
            dirs: seq![creation.path] + creation.rest.dirs,
            file: creation.rest.file,
        },
        PrivateModel::Inspect(check) | PrivateModel::Tighten(check) | PrivateModel::Reinspect(
            check,
        ) => RestModel { dirs: seq![check.path] + check.rest.dirs, file: check.rest.file },
        PrivateModel::CreateFile(path) | PrivateModel::RestrictFile(path)
        | PrivateModel::InspectFile(path) => RestModel { dirs: Seq::empty(), file: Some(path) },
        PrivateModel::Done(_) => RestModel { dirs: Seq::empty(), file: None },
    }
}

/// The step is a failure, or leaves the same things unsettled.
pub open spec fn settles_nothing(step: PrivateModel, before: RestModel) -> bool {
    is_failure(step) || unsettled(step) == before
}

/// Something was not made private.
pub open spec fn is_failure(step: PrivateModel) -> bool {
    step is Done && step->Done_0 is Err
}

/// A beginning leaves everything unsettled that is to be made private.
proof fn lemma_rest_is_unsettled(rest: RestModel)
    ensures
        settles_nothing(rest_step(rest), rest),
{
    if rest.dirs.len() > 0 {
        assert(seq![rest.dirs[0]] + rest.dirs.drop_first() =~= rest.dirs);
    } else {
        assert(rest.dirs =~= Seq::<Seq<char>>::empty());
    }
}

/// Success is reported only once everything was seen to be private. A step that does not
/// fail settles at most the first thing that is unsettled: a directory when it was seen
/// to be one with the mode of a private directory, the file when it was seen to be a
/// regular one with its mode. With nothing unsettled, there is nothing left to do.
pub proof fn law_only_what_was_seen_private_is_settled(
    search: SearchState,
    creation: CreationState,
    check: CheckState,
    path: Seq<char>,
    flag: bool,
    done: Result<(), Seq<char>>,
    look: Result<(bool, u32), Seq<char>>,
    mode: Result<u32, Seq<char>>,
)
    ensures
        settles_nothing(
            searched_step(search, flag),
            unsettled(PrivateModel::Exists(search)),
        ),
        settles_nothing(
            looked_step(search, flag),
            unsettled(PrivateModel::IsDirectory(search)),
        ),
        settles_nothing(
            created_step(creation, done),
            unsettled(PrivateModel::Create(creation)),
        ),
        settles_nothing(
            restricted_step(creation, done),
            unsettled(PrivateModel::Restrict(creation)),
        ),
        settles_nothing(tightened_step(check, done), unsettled(PrivateModel::Tighten(check))),
        settles_nothing(inspected_step(check, look), unsettled(PrivateModel::Inspect(check))) || (
        look is Ok && look->Ok_0.0 && permissions(look->Ok_0.1) == DIR_MODE && settles_nothing(
            inspected_step(check, look),
            check.rest,
        )),
        settles_nothing(
            reinspected_step(check, mode),
            unsettled(PrivateModel::Reinspect(check)),
        ) || (mode is Ok && permissions(mode->Ok_0) == DIR_MODE && settles_nothing(
            reinspected_step(check, mode),
            check.rest,
        )),
        settles_nothing(
            file_created_step(path, done),
            unsettled(PrivateModel::CreateFile(path)),
        ),
        settles_nothing(
            file_restricted_step(path, done),
            unsettled(PrivateModel::RestrictFile(path)),
        ),
        is_failure(file_inspected_step(path, look)) || (look is Ok && look->Ok_0.0 && permissions(
            look->Ok_0.1,
        ) == FILE_MODE && file_inspected_step(path, look) == PrivateModel::Done(Ok(()))),
{
    lemma_rest_is_unsettled(check.rest);
}

/// What is to be made private is unsettled at the beginning, all of it.
pub proof fn law_everything_is_unsettled_at_first(rest: RestModel)
    ensures
        is_failure(rest_step(rest)) || unsettled(rest_step(rest)) == rest,
{
    lemma_rest_is_unsettled(rest);
}

/// The permissions of a mode are its lowest nine bits, whatever stands above them. A
/// directory is private where they are everything for its owner and nothing for others; it
/// is given these where they are not, and refused where they still are not. A file is
/// private where they are reading and writing for its owner.
pub proof fn law_private_modes_are_for_the_owner_alone(
    check: CheckState,
    path: Seq<char>,
    mode: u32,
    above: nat,
    low: nat,
)
    requires
        mode == 512 * above + low,
        low < 512,
    ensures
        low == 7 * 64 ==> inspected_step(check, Ok((true, mode))) == rest_step(check.rest),
        low != 7 * 64 ==> inspected_step(check, Ok((true, mode))) == PrivateModel::Tighten(check),
        low == 7 * 64 ==> reinspected_step(check, Ok(mode)) == rest_step(check.rest),
        low != 7 * 64 ==> reinspected_step(check, Ok(mode)) == PrivateModel::Done(
            Err(RuntimeFault::DirMode { path: check.path, mode: low as u32 }),
        ),
        low == 6 * 64 ==> file_inspected_step(path, Ok((true, mode))) == PrivateModel::Done(Ok(())),
        low != 6 * 64 ==> file_inspected_step(path, Ok((true, mode))) == PrivateModel::Done(
            Err(RuntimeFault::FileMode { path, mode: low as u32 }),
        ),
        inspected_step(check, Ok((false, mode))) == PrivateModel::Done(
            Err(RuntimeFault::NotADirectory(check.path)),
        ),
        file_inspected_step(path, Ok((false, mode))) == PrivateModel::Done(
            Err(RuntimeFault::NotAFile(path)),
        ),
        DIR_MODE == 7 * 64,
        FILE_MODE == 6 * 64,
{
    assert(permissions(mode) == low);
}

/// Each failure of the file system is reported with the path that it was met at and its
/// message.
pub proof fn law_failures_of_the_file_system_are_reported(
    creation: CreationState,
    check: CheckState,
    path: Seq<char>,
    message: Seq<char>,
)
    ensures
        created_step(creation, Err(message)) == PrivateModel::Done(
            Err(RuntimeFault::CreateDir { path: creation.target, message }),
        ),
        restricted_step(creation, Err(message)) == PrivateModel::Done(
            Err(RuntimeFault::RestrictDir { path: creation.target, message }),
        ),
        inspected_step(check, Err(message)) == PrivateModel::Done(
            Err(RuntimeFault::InspectDir { path: check.path, message }),
        ),
        tightened_step(check, Err(message)) == PrivateModel::Done(
            Err(RuntimeFault::RestrictDir { path: check.path, message }),
        ),
        reinspected_step(check, Err(message)) == PrivateModel::Done(
            Err(RuntimeFault::InspectDir { path: check.path, message }),
        ),
        file_created_step(path, Err(message)) == PrivateModel::Done(
            Err(RuntimeFault::CreateFile { path, message }),
        ),
        file_restricted_step(path, Err(message)) == PrivateModel::Done(
            Err(RuntimeFault::RestrictFile { path, message }),
        ),
        file_inspected_step(path, Err(message)) == PrivateModel::Done(
            Err(RuntimeFault::InspectFile { path, message }),
        ),
{
}

/// Where nothing fails, what is made is restricted before it is looked at.
pub proof fn law_what_is_made_is_restricted(
    creation: CreationState,
    check: CheckState,
    path: Seq<char>,
)
    ensures
        created_step(creation, Ok(())) == PrivateModel::Restrict(creation),
        creation.missing.len() == 0 ==> restricted_step(creation, Ok(())) == PrivateModel::Inspect(
            CheckState { path: creation.path, rest: creation.rest },
        ),
        creation.missing.len() > 0 ==> restricted_step(creation, Ok(())) == PrivateModel::Create(
            CreationState {
                path: creation.path,
                target: creation.missing[creation.missing.len() - 1],
                missing: creation.missing.take(creation.missing.len() - 1),
                rest: creation.rest,
            },
        ),
        tightened_step(check, Ok(())) == PrivateModel::Reinspect(check),
        file_created_step(path, Ok(())) == PrivateModel::RestrictFile(path),
        file_restricted_step(path, Ok(())) == PrivateModel::InspectFile(path),
{
}

/// A search goes up from a missing directory to the one that holds it, and remembers it; it
/// ends without one where there is none above, and at one that exists, which has to be a
/// directory. All that is missing is made then, the outermost first.
pub proof fn law_missing_directories_are_searched_upwards(search: SearchState, parent: Seq<char>)
    ensures
        searched_step(search, true) == PrivateModel::IsDirectory(search),
        text_parent(search.cursor) == Some(parent) ==> searched_step(search, false)
            == PrivateModel::Exists(
            SearchState {
                path: search.path,
                cursor: parent,
                missing: search.missing.push(search.cursor),
                rest: search.rest,
            },
        ),
        text_parent(search.cursor) is None ==> searched_step(search, false) == PrivateModel::Done(
            Err(RuntimeFault::NoParent(search.path)),
        ),
        looked_step(search, false) == PrivateModel::Done(
            Err(RuntimeFault::NotADirectory(search.cursor)),
        ),
        search.missing.len() == 0 ==> looked_step(search, true) == PrivateModel::Inspect(
            CheckState { path: search.path, rest: search.rest },
        ),
        search.missing.len() > 0 ==> looked_step(search, true) == PrivateModel::Create(
            CreationState {
                path: search.path,
                target: search.missing[search.missing.len() - 1],
                missing: search.missing.take(search.missing.len() - 1),
                rest: search.rest,
            },
        ),
{
}

/// What is to be made private comes in its order: the directories, each of which has a
/// path, and behind them the file. A file is held by the directory above it, if there is
/// one.
pub proof fn law_directories_come_before_the_file(
    path: Seq<char>,
    dirs: Seq<Seq<char>>,
    file: Option<Seq<char>>,
)
    ensures
        path.len() == 0 ==> rest_step(RestModel { dirs: seq![path] + dirs, file })
            == PrivateModel::Done(Err(RuntimeFault::EmptyPath)),
        path.len() > 0 ==> rest_step(RestModel { dirs: seq![path] + dirs, file })
            == PrivateModel::Exists(
            SearchState {
                path,
                cursor: path,
                missing: Seq::empty(),
                rest: RestModel { dirs, file },
            },
        ),
        rest_step(RestModel { dirs: Seq::empty(), file: Some(path) }) == PrivateModel::CreateFile(
            path,
        ),
        rest_step(RestModel { dirs: Seq::empty(), file: None }) == PrivateModel::Done(Ok(())),
        text_parent(path) is Some ==> dirs_of(path) == seq![text_parent(path)->0],
        text_parent(path) is None ==> dirs_of(path) == Seq::<Seq<char>>::empty(),
{
    assert((seq![path] + dirs).drop_first() =~= dirs);
}

/// What is reported of a directory or a file that is not private names it, with its mode in
/// octal or the message about it.
pub proof fn law_faults_of_privacy_are_reported(
    path: Seq<char>,
    message: Seq<char>,
    mode: u32,
)
    ensures
        runtime_fault_text(RuntimeFault::EmptyPath) == "private directory path is empty"@,
        runtime_fault_text(RuntimeFault::NoParent(path)) == "failed to resolve parent path for "@
            + path,
        runtime_fault_text(RuntimeFault::NotADirectory(path)) == path
            + " exists but is not a directory"@,
        runtime_fault_text(RuntimeFault::CreateDir { path, message })
            == "failed to create private directory "@ + path + ": "@ + message,
        runtime_fault_text(RuntimeFault::RestrictDir { path, message })
            == "failed to enforce 0700 permissions on "@ + path + ": "@ + message,
        runtime_fault_text(RuntimeFault::InspectDir { path, message })
            == "failed to stat private directory "@ + path + ": "@ + message,
        runtime_fault_text(RuntimeFault::DirMode { path, mode }) == "private directory "@ + path
            + " has mode "@ + octal_text(mode as nat) + "; expected 700"@,
        runtime_fault_text(RuntimeFault::CreateFile { path, message })
            == "failed to create database file "@ + path + ": "@ + message,
        runtime_fault_text(RuntimeFault::RestrictFile { path, message })
            == "failed to set 0600 permissions on "@ + path + ": "@ + message,
        runtime_fault_text(RuntimeFault::InspectFile { path, message })
            == "failed to stat database file "@ + path + ": "@ + message,
        runtime_fault_text(RuntimeFault::NotAFile(path)) == path
            + " exists but is not a regular file"@,
        runtime_fault_text(RuntimeFault::FileMode { path, mode }) == "database file "@ + path
            + " has mode "@ + octal_text(mode as nat) + "; expected 600"@,
{
}

}
