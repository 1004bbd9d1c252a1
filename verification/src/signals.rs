//! Signals that ask the program to stop.
use std::sync::atomic::{AtomicBool, Ordering};
use std::sync::Arc;
use vstd::prelude::*;

verus! {

/// Why the program stops, or cannot be stopped.
#[derive(Debug, Clone, PartialEq, Eq)]
pub enum SignalError {
    Register(String),
    Interrupted,
}

/// What a [`SignalError`] says.
pub ghost enum StopFault {
    Register(Seq<char>),
    Interrupted,
}

impl View for SignalError {
    type V = StopFault;

    open spec fn view(&self) -> StopFault {
        match self {
            SignalError::Register(message) => StopFault::Register(message@),
            SignalError::Interrupted => StopFault::Interrupted,
        }
    }
}

/// The text that reports a fault to the user.
pub open spec fn stop_fault_text(fault: StopFault) -> Seq<char> {
    match fault {
        StopFault::Register(message) => "failed to register signal handler: "@ + message,
        StopFault::Interrupted => "operation interrupted by terminal signal"@,
    }
}

impl SignalError {
    /// The text that reports the error to the user.
    pub fn message(&self) -> (text: String)
        ensures
            text@ == stop_fault_text(self@),
    {
        match self {
            SignalError::Register(message) => {
                "failed to register signal handler: ".to_owned().concat(message.as_str())
            },
            SignalError::Interrupted => "operation interrupted by terminal signal".to_owned(),
        }
    }
}

/// A flag that is set once a signal asks the program to stop.
#[derive(Debug, Clone)]
pub struct ShutdownSignals {
    interrupted: Arc<AtomicBool>,
}

/// The signal of an interrupt at the terminal.
pub const SIGINT: i32 = 2;

/// The signal that asks a program to end.
pub const SIGTERM: i32 = 15;

/// `signal_hook::flag::register`: the flag is set once the signal arrives. It panics for
/// a few signals that no program may handle, of which these two are none. Whether the
/// handler can be registered is up to the system.
#[verifier::external_body]
fn register_flag(signal: i32, flag: &Arc<AtomicBool>) -> (result: Result<(), String>)
    requires
        signal == SIGINT || signal == SIGTERM,
{
    signal_hook::flag::register(signal, Arc::clone(flag)).map(|_| ()).map_err(|err| err.to_string())
}

/// The outcome of registering the two handlers, one after the other: the first failure
/// is reported.
pub fn registration(interrupt: Result<(), String>, termination: Result<(), String>) -> (result:
    Result<(), SignalError>)
    ensures
        match interrupt {
            Err(message) => result is Err && result->Err_0@ == StopFault::Register(message@),
            Ok(()) => match termination {
                Err(message) => result is Err && result->Err_0@ == StopFault::Register(message@),
                Ok(()) => result is Ok,
            },
        },
{
    match interrupt {
        Err(message) => Err(SignalError::Register(message)),
        Ok(()) => match termination {
            Err(message) => Err(SignalError::Register(message)),
            Ok(()) => Ok(()),
        },
    }
}

/// Stops where a signal has arrived.
pub fn stop_if(interrupted: bool) -> (result: Result<(), SignalError>)
    ensures
        result is Err <==> interrupted,
        result is Err ==> result->Err_0@ == StopFault::Interrupted,
{
    if interrupted {
        Err(SignalError::Interrupted)
    } else {
        Ok(())
    }
}

/// The message of a registration that failed.
pub open spec fn failure_of(outcome: Result<(), String>) -> Option<Seq<char>> {
    match outcome {
        Ok(_) => None,
        Err(message) => Some(message@),
    }
}

/// Registering a flag for a signal may end like this: well, or with a message.
pub closed spec fn may_register(
    signal: i32,
    flag: Arc<AtomicBool>,
    failure: Option<Seq<char>>,
) -> bool {
    exists|outcome: Result<(), String>| #[trigger]
        call_ensures(register_flag, (signal, &flag), outcome) && failure_of(outcome) == failure
}

/// Registering a flag for the two signals, one after the other, may end well.
pub open spec fn may_install(flag: Arc<AtomicBool>) -> bool {
    may_register(SIGINT, flag, None) && may_register(SIGTERM, flag, None)
}

/// The flag was made unset.
pub closed spec fn begins_unset(flag: Arc<AtomicBool>) -> bool {
    call_ensures(AtomicBool::new, (false,), *flag)
}

/// Registering a flag for the two signals, one after the other, may end with a message:
/// that of the first, or, where the first ended well, that of the second.
pub open spec fn may_fail(flag: Arc<AtomicBool>, message: Seq<char>) -> bool {
    ||| may_register(SIGINT, flag, Some(message))
    ||| may_register(SIGINT, flag, None) && may_register(SIGTERM, flag, Some(message))
}

impl ShutdownSignals {
    /// The flag that the handlers set.
    pub closed spec fn flag(&self) -> Arc<AtomicBool> {
        self.interrupted
    }

    /// A look at the flag may find it set, or not.
    pub closed spec fn may_find(&self, set: bool) -> bool {
        call_ensures(AtomicBool::load, (&*self.interrupted, Ordering::Relaxed), set)
    }

    /// Registers one flag, which is unset until a signal arrives, for an interrupt and for
    /// a request to end, and keeps it. Where the first registration fails, or the second,
    /// its message is reported. Whether they succeed is up to the system.
    pub fn install() -> (result: Result<Self, SignalError>)
        ensures
            match result {
                Ok(signals) => may_install(signals.flag()) && begins_unset(signals.flag()),
                Err(error) => error@ is Register && exists|flag: Arc<AtomicBool>| #[trigger]
                    may_fail(flag, error@->Register_0),
            },
    {
        let register = register_flag;
        let make = AtomicBool::new;
        let interrupted = Arc::new(make(false));
        let interrupt = register(SIGINT, &interrupted);
        assert(may_register(SIGINT, interrupted, failure_of(interrupt)));
        if interrupt.is_err() {
            return match registration(interrupt, Ok(())) {
                Ok(()) => Ok(ShutdownSignals { interrupted }),
                Err(error) => {
                    assert(may_fail(interrupted, error@->Register_0));
                    Err(error)
                },
            };
        }
        let termination = register(SIGTERM, &interrupted);
        assert(may_register(SIGTERM, interrupted, failure_of(termination)));
        match registration(interrupt, termination) {
            Ok(()) => Ok(ShutdownSignals { interrupted }),
            Err(error) => {
                assert(may_fail(interrupted, error@->Register_0));
                Err(error)
            },
        }
    }

    /// Whether a signal has arrived. That is up to the user and the system.
    pub fn interrupted(&self) -> (set: bool)
        ensures
            self.may_find(set),
    {
        let load = AtomicBool::load;
        load(&self.interrupted, Ordering::Relaxed)
    }

    /// Stops where a signal has arrived.
    pub fn check(&self) -> (result: Result<(), SignalError>)
        ensures
            self.may_find(result is Err),
            result is Err ==> result->Err_0@ == StopFault::Interrupted,
    {
        stop_if(self.interrupted())
    }
}

/// What is reported of a stop, or of a handler that could not be registered.
pub proof fn law_faults_of_stopping_are_reported(
    message: Seq<char>,
)
    ensures
        stop_fault_text(StopFault::Register(message)) == "failed to register signal handler: "@
            + message,
        stop_fault_text(StopFault::Interrupted) == "operation interrupted by terminal signal"@,
{
}

}
