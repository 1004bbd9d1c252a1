//! The terminal session that a command is run from.
use crate::text::{trim_text, trimmed};
use vstd::prelude::*;
use vstd::utf8::{decode_utf8, valid_utf8};

verus! {

/// What is known of a terminal session.
#[derive(Debug, Clone, PartialEq, Eq)]
pub struct SessionContext {
    pub pid: i64,
    pub ppid: i64,
    pub tty_device: String,
    pub canonical_cwd: String,
    pub canonical_git_root: Option<String>,
    pub user_id: String,
    pub hostname: String,
}

/// A name that the system may give, and the one that the environment gives in its place.
#[derive(Debug, Clone, PartialEq, Eq)]
pub struct NameSource {
    pub system: Option<String>,
    pub variable: Option<String>,
}

impl NameSource {
    /// The name that is taken: the one of the system, else the one of the environment.
    pub open spec fn name(&self) -> Seq<char> {
        match self.system {
            Some(name) => name@,
            None => match self.variable {
                Some(name) => name@,
                None => "unknown"@,
            },
        }
    }

    /// Takes a name.
    pub fn take(self) -> (name: String)
        ensures
            name@ == self.name(),
    {
        match self.system {
            Some(name) => name,
            None => match self.variable {
                Some(name) => name,
                None => "unknown".to_owned(),
            },
        }
    }
}

/// Puts together what is known of the session.
pub fn capture_session_context(
    pid: i64,
    ppid: i64,
    tty: NameSource,
    canonical_cwd: String,
    canonical_git_root: Option<String>,
    user: NameSource,
    host: NameSource,
) -> (context: SessionContext)
    ensures
        context.pid == pid,
        context.ppid == ppid,
        context.tty_device@ == tty.name(),
        context.canonical_cwd@ == canonical_cwd@,
        context.canonical_git_root == canonical_git_root,
        context.user_id@ == user.name(),
        context.hostname@ == host.name(),
{
    SessionContext {
        pid,
        ppid,
        tty_device: tty.take(),
        canonical_cwd,
        canonical_git_root,
        user_id: user.take(),
        hostname: host.take(),
    }
}

/// What git reports of a repository.
#[derive(Debug, Clone, PartialEq, Eq)]
pub struct GitReport {
    pub success: bool,
    pub stdout: Vec<u8>,
}

/// The text that `String::from_utf8_lossy` makes of bytes.
pub uninterp spec fn lossy_text(bytes: Seq<u8>) -> Seq<char>;

/// `String::from_utf8_lossy`. Bytes that are UTF-8 keep their text; how others are
/// replaced is left to the name.
#[verifier::external_body]
fn decode_lossily(bytes: &Vec<u8>) -> (text: String)
    ensures
        text@ == lossy_text(bytes@),
        valid_utf8(bytes@) ==> text@ == decode_utf8(bytes@),
{
    String::from_utf8_lossy(bytes).into_owned()
}

/// The root of a repository in the text of a report, if there is one.
pub open spec fn root_in(text: Seq<char>) -> Option<Seq<char>> {
    if trimmed(text).len() > 0 {
        Some(trimmed(text))
    } else {
        None
    }
}

/// The root of the repository in a report of git, if there is one.
pub open spec fn reported_root(report: Option<GitReport>) -> Option<Seq<char>> {
    match report {
        Some(report) => if report.success {
            root_in(lossy_text(report.stdout@))
        } else {
            None
        },
        None => None,
    }
}

/// Reads the root of a repository in the text of a report.
pub fn read_root(text: &str) -> (root: Option<String>)
    ensures
        match root {
            Some(root) => root_in(text@) == Some(root@),
            None => root_in(text@) is None,
        },
{
    let root = trim_text(text);
    if root.as_str().is_empty() {
        None
    } else {
        Some(root)
    }
}

/// Reads the root of the repository from what git reports, which is `None` where git
/// could not be run. Without git, outside a repository and for an empty report there is
/// none.
pub fn discover_git_root(report: Option<GitReport>) -> (root: Option<String>)
    ensures
        match root {
            Some(root) => reported_root(report) == Some(root@),
            None => reported_root(report) is None,
        },
{
    match report {
        Some(report) => {
            if !report.success {
                return None;
            }
            let text = decode_lossily(&report.stdout);
            read_root(text.as_str())
        },
        None => None,
    }
}

impl SessionContext {
    /// The root of the workspace: the repository, or the directory where there is none.
    pub open spec fn workspace(&self) -> Seq<char> {
        match self.canonical_git_root {
            Some(root) => root@,
            None => self.canonical_cwd@,
        }
    }

    /// The root of the workspace.
    pub fn workspace_root(&self) -> (root: &str)
        ensures
            root@ == self.workspace(),
    {
        match &self.canonical_git_root {
            Some(root) => root.as_str(),
            None => self.canonical_cwd.as_str(),
        }
    }
}

// ---------------------------------------------------------------------------
// Laws
// ---------------------------------------------------------------------------

/// A name is the one of the system where there is one, whatever the environment says; then
/// the one of the environment; and then a word for nothing known.
pub proof fn law_names_come_from_the_system_first(source: NameSource)
    ensures
        source.system is Some ==> source.name() == source.system->0@,
        source.system is None && source.variable is Some ==> source.name()
            == source.variable->0@,
        source.system is None && source.variable is None ==> source.name() == seq![
            'u',
            'n',
            'k',
            'n',
            'o',
            'w',
            'n',
        ],
{
    reveal_strlit("unknown");
    assert("unknown"@ =~= seq!['u', 'n', 'k', 'n', 'o', 'w', 'n']);
}

/// A report of git has a root exactly where git succeeded and the report is more than white
/// space; and the root is the report without the white space around it.
pub proof fn law_roots_are_reported_by_git(report: GitReport, text: Seq<char>)
    ensures
        reported_root(None) is None,
        !report.success ==> reported_root(Some(report)) is None,
        report.success && trimmed(lossy_text(report.stdout@)).len() > 0 ==> reported_root(
            Some(report),
        ) == Some(trimmed(lossy_text(report.stdout@))),
        report.success && trimmed(lossy_text(report.stdout@)).len() == 0 ==> reported_root(
            Some(report),
        ) is None,
        root_in(text) is None <==> trimmed(text).len() == 0,
        root_in(text) is Some ==> root_in(text) == Some(trimmed(text)),
{
}

/// The workspace is the repository where the session is in one, and else the directory.
pub proof fn law_workspaces_are_repositories_first(context: SessionContext)
    ensures
        context.canonical_git_root is Some ==> context.workspace()
            == context.canonical_git_root->0@,
        context.canonical_git_root is None ==> context.workspace() == context.canonical_cwd@,
{
}

}
