//! What goes over the socket of the sidecar, in either direction.
use vstd::prelude::*;

verus! {

/// The version of the protocol that the library speaks.
pub const PROTOCOL_VERSION: &'static str = "1.0.0";

/// What stands in place of the socket's path where the platform has no sockets.
pub const NO_SOCKETS: &'static str = "Unix Domain Sockets are not supported on this platform";

// ---------------------------------------------------------------------------
// Answers
// ---------------------------------------------------------------------------

/// An error that the sidecar reports.
#[derive(Debug, Clone, PartialEq, Eq)]
pub struct SidecarErrorBody {
    pub code: String,
    pub message: String,
}

/// A line that the sidecar sent, with what it reads as.
#[derive(Debug, PartialEq, Eq)]
pub struct SidecarLine<T> {
    /// The line itself.
    pub text: String,
    /// The error that the line reports, where it reads as the report of one.
    pub error: Option<SidecarErrorBody>,
    /// The answer that is waited for, or why the line does not read as one.
    pub answer: Result<T, String>,
}

/// What came of sending a line to the sidecar and waiting for one.
#[derive(Debug, PartialEq, Eq)]
pub enum SidecarReply<T> {
    /// The platform has no sockets.
    Unsupported,
    /// There is no socket.
    SocketMissing,
    /// The socket could not be connected to, or not be set up.
    ConnectFailed(String),
    /// The line could not be sent.
    SendFailed(String),
    /// No line could be read.
    ReadFailed(String),
    /// The line that was read.
    Line(SidecarLine<T>),
}

/// The code and the message of an error that the sidecar reports.
pub open spec fn report_of(error: SidecarErrorBody) -> Seq<char> {
    error.code@ + ": "@ + error.message@
}

impl SidecarErrorBody {
    /// The code and the message.
    pub fn report(&self) -> (text: String)
        ensures
            text@ == report_of(*self),
    {
        self.code.clone().concat(": ").concat(self.message.as_str())
    }
}

// ---------------------------------------------------------------------------
// Framing
// ---------------------------------------------------------------------------

/// The text is one line: it ends with a line feed and holds no other.
pub open spec fn is_one_line(text: Seq<char>) -> bool {
    &&& text.len() > 0
    &&& text.last() == '\n'
    &&& !text.drop_last().contains('\n')
}

/// Two texts without a line feed have none in a row either.
pub proof fn lemma_no_line_feed(a: Seq<char>, b: Seq<char>)
    requires
        !a.contains('\n'),
        !b.contains('\n'),
    ensures
        !(a + b).contains('\n'),
{
    if (a + b).contains('\n') {
        let i = (a + b).index_of('\n');
        if i < a.len() {
            assert(a[i] == '\n');
        } else {
            assert(b[i - a.len()] == '\n');
        }
    }
}

/// A line feed behind a text without one makes a line.
pub proof fn lemma_line_feed_ends_line(a: Seq<char>)
    requires
        !a.contains('\n'),
    ensures
        is_one_line(a + seq!['}', '\n']),
{
    let line = a + seq!['}', '\n'];
    assert(line.drop_last() =~= a + seq!['}']);
    assert(!seq!['}'].contains('\n')) by {
        assert(seq!['}'].len() == 1);
    }
    lemma_no_line_feed(a, seq!['}']);
}

}
