//! Running a program from an argument list, without a shell in between.
use crate::number::{i64_to_text, int_text};
use crate::text::texts;
use vstd::prelude::*;

verus! {

/// Why a program did not run to its end.
#[derive(Debug, Clone, PartialEq, Eq)]
pub enum ExecuteError {
    EmptyArgv,
    Spawn { program: String, message: String },
    Wait { program: String, message: String },
}

/// What an [`ExecuteError`] says.
pub ghost enum ExecuteFault {
    EmptyArgv,
    Spawn { program: Seq<char>, message: Seq<char> },
    Wait { program: Seq<char>, message: Seq<char> },
}

impl View for ExecuteError {
    type V = ExecuteFault;

    open spec fn view(&self) -> ExecuteFault {
        match self {
            ExecuteError::EmptyArgv => ExecuteFault::EmptyArgv,
            ExecuteError::Spawn { program, message } => ExecuteFault::Spawn {
                program: program@,
                message: message@,
            },
            ExecuteError::Wait { program, message } => ExecuteFault::Wait {
                program: program@,
                message: message@,
            },
        }
    }
}

/// The text that reports a fault to the user.
pub open spec fn execute_fault_text(fault: ExecuteFault) -> Seq<char> {
    match fault {
        ExecuteFault::EmptyArgv => "argv must contain at least one program"@,
        ExecuteFault::Spawn { program, message } => "failed to spawn child process "@ + program
            + ": "@ + message,
        ExecuteFault::Wait { program, message } => "failed while waiting for child process "@
            + program + ": "@ + message,
    }
}

impl ExecuteError {
    /// The text that reports the error to the user.
    pub fn message(&self) -> (text: String)
        ensures
            text@ == execute_fault_text(self@),
    {
        match self {
            ExecuteError::EmptyArgv => "argv must contain at least one program".to_owned(),
            ExecuteError::Spawn { program, message } => {
                "failed to spawn child process ".to_owned().concat(program.as_str()).concat(
                    ": ",
                ).concat(message.as_str())
            },
            ExecuteError::Wait { program, message } => {
                "failed while waiting for child process ".to_owned().concat(
                    program.as_str(),
                ).concat(": ").concat(message.as_str())
            },
        }
    }
}

/// How a program ended.
#[derive(Debug, Clone, PartialEq, Eq)]
pub struct ExecutionResult {
    pub status_code: Option<i32>,
    pub success: bool,
}

/// What came of running a program.
#[derive(Debug, Clone, PartialEq, Eq)]
pub enum ChildOutcome {
    SpawnFailed(String),
    WaitFailed(String),
    Exited { code: Option<i32>, success: bool },
}

/// A program and its arguments, ready to be run.
#[derive(Debug, PartialEq, Eq)]
pub struct Invocation {
    program: String,
    args: Vec<String>,
}

impl Invocation {
    /// The program.
    pub closed spec fn program(&self) -> Seq<char> {
        self.program@
    }

    /// The arguments.
    pub closed spec fn args(&self) -> Seq<Seq<char>> {
        texts(self.args@)
    }
}

/// Takes an argument list apart into the program and its arguments, each of which
/// stays one argument.
fn take_apart(argv: &Vec<String>) -> (result: Result<Invocation, ExecuteError>)
    ensures
        match result {
            Ok(invocation) => argv@.len() > 0 && invocation.program() == argv@[0]@
                && invocation.args() == texts(argv@).drop_first(),
            Err(error) => argv@.len() == 0 && error@ == ExecuteFault::EmptyArgv,
        },
{
    if argv.len() == 0 {
        return Err(ExecuteError::EmptyArgv);
    }
    let mut args: Vec<String> = Vec::new();
    let mut i: usize = 1;
    while i < argv.len()
        invariant
            1 <= i <= argv@.len(),
            args@.len() == i - 1,
            forall|j: int| 1 <= j < i ==> (#[trigger] argv@[j])@ == args@[j - 1]@,
        decreases argv@.len() - i,
    {
        args.push(argv[i].clone());
        i += 1;
    }
    proof {
        assert forall|j: int| 0 <= j < args@.len() implies texts(args@)[j] == texts(
            argv@,
        ).drop_first()[j] by {
            assert(argv@[j + 1]@ == args@[j]@);
        }
        assert(texts(args@) =~= texts(argv@).drop_first());
    }
    Ok(Invocation { program: argv[0].clone(), args })
}

/// Begins to run a program on the terminal of the user.
pub fn execute_interactive(argv: &Vec<String>) -> (result: Result<Invocation, ExecuteError>)
    ensures
        match result {
            Ok(invocation) => argv@.len() > 0 && invocation.program() == argv@[0]@
                && invocation.args() == texts(argv@).drop_first(),
            Err(error) => argv@.len() == 0 && error@ == ExecuteFault::EmptyArgv,
        },
{
    take_apart(argv)
}

/// Begins to run a program whose output is to be captured.
pub fn execute_capture_stdout(argv: &Vec<String>) -> (result: Result<Invocation, ExecuteError>)
    ensures
        match result {
            Ok(invocation) => argv@.len() > 0 && invocation.program() == argv@[0]@
                && invocation.args() == texts(argv@).drop_first(),
            Err(error) => argv@.len() == 0 && error@ == ExecuteFault::EmptyArgv,
        },
{
    take_apart(argv)
}

impl Invocation {
    /// The program to spawn.
    pub fn program_name(&self) -> (program: &str)
        ensures
            program@ == self.program(),
    {
        self.program.as_str()
    }

    /// The arguments to hand over.
    pub fn arguments(&self) -> (args: &Vec<String>)
        ensures
            texts(args@) == self.args(),
    {
        &self.args
    }

    /// Ends once the program ran, or did not.
    pub fn ended(self, outcome: ChildOutcome) -> (result: Result<ExecutionResult, ExecuteError>)
        ensures
            match outcome {
                ChildOutcome::SpawnFailed(message) => result is Err && result->Err_0@ == (
                ExecuteFault::Spawn { program: self.program(), message: message@ }),
                ChildOutcome::WaitFailed(message) => result is Err && result->Err_0@ == (
                ExecuteFault::Wait { program: self.program(), message: message@ }),
                ChildOutcome::Exited { code, success } => result == Ok::<
                    ExecutionResult,
                    ExecuteError,
                >(ExecutionResult { status_code: code, success }),
            },
    {
        match outcome {
            ChildOutcome::SpawnFailed(message) => Err(
                ExecuteError::Spawn { program: self.program, message },
            ),
            ChildOutcome::WaitFailed(message) => Err(
                ExecuteError::Wait { program: self.program, message },
            ),
            ChildOutcome::Exited { code, success } => Ok(
                ExecutionResult { status_code: code, success },
            ),
        }
    }

    /// Ends once the output was captured; `Err` holds the message where that failed.
    pub fn captured(self, output: Result<Vec<u8>, String>) -> (result: Result<
        Vec<u8>,
        ExecuteError,
    >)
        ensures
            match output {
                Ok(stdout) => result == Ok::<Vec<u8>, ExecuteError>(stdout),
                Err(message) => result is Err && result->Err_0@ == (ExecuteFault::Spawn {
                    program: self.program(),
                    message: message@,
                }),
            },
    {
        match output {
            Ok(stdout) => Ok(stdout),
            Err(message) => Err(ExecuteError::Spawn { program: self.program, message }),
        }
    }
}

/// The text that reports how a program failed.
pub open spec fn exit_text(code: Option<i32>) -> Seq<char> {
    match code {
        Some(code) => "child exited with status Some("@ + int_text(code as int) + ")"@,
        None => "child exited with status None"@,
    }
}

/// Takes a program that did not succeed for a failure.
pub fn require_success(result: &ExecutionResult) -> (outcome: Result<(), String>)
    ensures
        match outcome {
            Ok(()) => result.success,
            Err(message) => !result.success && message@ == exit_text(result.status_code),
        },
{
    if result.success {
        return Ok(());
    }
    match result.status_code {
        Some(code) => Err(
            "child exited with status Some(".to_owned().concat(
                i64_to_text(code as i64).as_str(),
            ).concat(")"),
        ),
        None => Err("child exited with status None".to_owned()),
    }
}

/// What is reported of a program that did not run names it, with the message about it.
pub proof fn law_faults_of_programs_are_reported(
    program: Seq<char>,
    message: Seq<char>,
)
    ensures
        execute_fault_text(ExecuteFault::EmptyArgv) == "argv must contain at least one program"@,
        execute_fault_text(ExecuteFault::Spawn { program, message })
            == "failed to spawn child process "@ + program + ": "@ + message,
        execute_fault_text(ExecuteFault::Wait { program, message })
            == "failed while waiting for child process "@ + program + ": "@ + message,
{
}

/// What is reported of a program that failed is its status, or that it has none.
pub proof fn law_exits_are_reported_with_their_status(code: i32)
    ensures
        exit_text(Some(code)) == "child exited with status Some("@ + int_text(code as int) + seq![
            ')',
        ],
        exit_text(None) == "child exited with status None"@,
{
    reveal_strlit(")");
    assert(")"@ =~= seq![')']);
}

}
