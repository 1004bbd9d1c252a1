//! Telling the sidecar that its cache is out of date.
use crate::json::{encode_text, lemma_text_json_has_no_line_feed, text_json};
use crate::sidecar::{
    is_one_line, lemma_line_feed_ends_line, lemma_no_line_feed, report_of, SidecarLine,
    SidecarReply, NO_SOCKETS, PROTOCOL_VERSION,
};
use crate::text::{is_blank, text_is_blank};
use vstd::prelude::*;

verus! {

/// How long the library waits to send the signal, and for its acknowledgement, in
/// milliseconds.
pub const IO_TIMEOUT_MS: u64 = 1_500;

// ---------------------------------------------------------------------------
// Errors
// ---------------------------------------------------------------------------

/// Why the signal was not acknowledged.
#[derive(Debug, Clone, PartialEq, Eq)]
pub enum SidecarSignalError {
    SocketMissing(String),
    Connect { path: String, message: String },
    Send(String),
    Read(String),
    InvalidAckJson(String),
    Rejected(String),
}

/// What a [`SidecarSignalError`] says.
pub ghost enum SignalFault {
    SocketMissing(Seq<char>),
    Connect { path: Seq<char>, message: Seq<char> },
    Send(Seq<char>),
    Read(Seq<char>),
    InvalidAckJson(Seq<char>),
    Rejected(Seq<char>),
}

impl View for SidecarSignalError {
    type V = SignalFault;

    open spec fn view(&self) -> SignalFault {
        match self {
            SidecarSignalError::SocketMissing(path) => SignalFault::SocketMissing(path@),
            SidecarSignalError::Connect { path, message } => SignalFault::Connect {
                path: path@,
                message: message@,
            },
            SidecarSignalError::Send(message) => SignalFault::Send(message@),
            SidecarSignalError::Read(message) => SignalFault::Read(message@),
            SidecarSignalError::InvalidAckJson(message) => SignalFault::InvalidAckJson(message@),
            SidecarSignalError::Rejected(message) => SignalFault::Rejected(message@),
        }
    }
}

/// The text that reports a fault to the user.
pub open spec fn signal_fault_text(fault: SignalFault) -> Seq<char> {
    match fault {
        SignalFault::SocketMissing(path) => "sidecar socket not found at "@ + path
            + "; the sidecar daemon may not be running"@,
        SignalFault::Connect { path, message } => "failed to connect to sidecar socket "@ + path
            + ": "@ + message,
        SignalFault::Send(message) => "failed to send cache invalidation request: "@ + message,
        SignalFault::Read(message) => {
            "failed to read cache invalidation acknowledgement: "@ + message
        },
        SignalFault::InvalidAckJson(message) => {
            "sidecar returned malformed acknowledgement JSON: "@ + message
        },
        SignalFault::Rejected(message) => {
            "sidecar rejected cache invalidation request: "@ + message
        },
    }
}

impl SidecarSignalError {
    /// The text that reports the error to the user.
    pub fn message(&self) -> (text: String)
        ensures
            text@ == signal_fault_text(self@),
    {
        match self {
            SidecarSignalError::SocketMissing(path) => {
                "sidecar socket not found at ".to_owned().concat(path.as_str()).concat(
                    "; the sidecar daemon may not be running",
                )
            },
            SidecarSignalError::Connect { path, message } => {
                "failed to connect to sidecar socket ".to_owned().concat(path.as_str()).concat(
                    ": ",
                ).concat(message.as_str())
            },
            SidecarSignalError::Send(message) => {
                "failed to send cache invalidation request: ".to_owned().concat(message.as_str())
            },
            SidecarSignalError::Read(message) => {
                "failed to read cache invalidation acknowledgement: ".to_owned().concat(
                    message.as_str(),
                )
            },
            SidecarSignalError::InvalidAckJson(message) => {
                "sidecar returned malformed acknowledgement JSON: ".to_owned().concat(
                    message.as_str(),
                )
            },
            SidecarSignalError::Rejected(message) => {
                "sidecar rejected cache invalidation request: ".to_owned().concat(message.as_str())
            },
        }
    }
}

// ---------------------------------------------------------------------------
// The signal
// ---------------------------------------------------------------------------

/// The acknowledgement of a rebuilt cache. The duration is held in decimal notation.
#[derive(Debug, PartialEq, Eq)]
pub struct CacheInvalidationAck {
    pub protocol_version: String,
    pub request_id: String,
    pub status: String,
    pub document_count: i64,
    pub rebuild_duration_ms: String,
}

/// What a [`CacheInvalidationAck`] says.
pub ghost struct AckModel {
    pub protocol_version: Seq<char>,
    pub request_id: Seq<char>,
    pub status: Seq<char>,
    pub document_count: i64,
    pub rebuild_duration: Seq<char>,
}

impl View for CacheInvalidationAck {
    type V = AckModel;

    open spec fn view(&self) -> AckModel {
        AckModel {
            protocol_version: self.protocol_version@,
            request_id: self.request_id@,
            status: self.status@,
            document_count: self.document_count,
            rebuild_duration: self.rebuild_duration_ms@,
        }
    }
}

/// The line that tells the sidecar to rebuild its cache.
pub open spec fn invalidation_line(request_id: Seq<char>) -> Seq<char> {
    "{\"protocol_version\":"@ + text_json(PROTOCOL_VERSION@)
        + ",\"command\":\"invalidate_cache\",\"request_id\":"@ + text_json(request_id) + "}\n"@
}

/// Writes the line that tells the sidecar to rebuild its cache.
pub fn invalidation_request_line(request_id: &str) -> (line: String)
    ensures
        line@ == invalidation_line(request_id@),
        is_one_line(line@),
{
    let version = encode_text(PROTOCOL_VERSION);
    let id = encode_text(request_id);
    proof {
        reveal_strlit("{\"protocol_version\":");
        reveal_strlit(",\"command\":\"invalidate_cache\",\"request_id\":");
        reveal_strlit("}\n");
        lemma_text_json_has_no_line_feed(PROTOCOL_VERSION@);
        lemma_text_json_has_no_line_feed(request_id@);
        let a = "{\"protocol_version\":"@;
        let b = a + version@;
        let c = b + ",\"command\":\"invalidate_cache\",\"request_id\":"@;
        lemma_no_line_feed(a, version@);
        lemma_no_line_feed(b, ",\"command\":\"invalidate_cache\",\"request_id\":"@);
        lemma_no_line_feed(c, id@);
        lemma_line_feed_ends_line(c + id@);
        assert("}\n"@ =~= seq!['}', '\n']);
    }
    "{\"protocol_version\":".to_owned().concat(version.as_str()).concat(
        ",\"command\":\"invalidate_cache\",\"request_id\":",
    ).concat(id.as_str()).concat("}\n")
}

/// What a line of the sidecar says: an error that it reports, or an acknowledgement.
pub open spec fn acknowledgement_of(line: SidecarLine<CacheInvalidationAck>) -> Result<
    AckModel,
    SignalFault,
> {
    if is_blank(line.text@) {
        Err(SignalFault::Read("empty response from sidecar"@))
    } else if line.error is Some {
        Err(SignalFault::Rejected(report_of(line.error->0)))
    } else {
        match line.answer {
            Ok(ack) => Ok(ack@),
            Err(message) => Err(SignalFault::InvalidAckJson(message@)),
        }
    }
}

/// What came of the signal.
pub open spec fn signal_outcome(
    socket_path: Seq<char>,
    reply: SidecarReply<CacheInvalidationAck>,
) -> Result<AckModel, SignalFault> {
    match reply {
        SidecarReply::Unsupported => Err(SignalFault::SocketMissing(NO_SOCKETS@)),
        SidecarReply::SocketMissing => Err(SignalFault::SocketMissing(socket_path)),
        SidecarReply::ConnectFailed(message) => Err(
            SignalFault::Connect { path: socket_path, message: message@ },
        ),
        SidecarReply::SendFailed(message) => Err(SignalFault::Send(message@)),
        SidecarReply::ReadFailed(message) => Err(SignalFault::Read(message@)),
        SidecarReply::Line(line) => acknowledgement_of(line),
    }
}

fn take_acknowledgement(line: SidecarLine<CacheInvalidationAck>) -> (result: Result<
    CacheInvalidationAck,
    SidecarSignalError,
>)
    ensures
        match result {
            Ok(ack) => acknowledgement_of(line) == Ok::<AckModel, SignalFault>(ack@),
            Err(error) => acknowledgement_of(line) == Err::<AckModel, SignalFault>(error@),
        },
{
    if text_is_blank(line.text.as_str()) {
        return Err(SidecarSignalError::Read("empty response from sidecar".to_owned()));
    }
    match line.error {
        Some(error) => {
            return Err(SidecarSignalError::Rejected(error.report()));
        },
        None => {},
    }
    match line.answer {
        Ok(ack) => Ok(ack),
        Err(message) => Err(SidecarSignalError::InvalidAckJson(message)),
    }
}

/// Makes an acknowledgement of what came back for an [`invalidation_request_line`], or
/// the error.
pub fn notify_cache_invalidation(
    socket_path: &str,
    reply: SidecarReply<CacheInvalidationAck>,
) -> (result: Result<CacheInvalidationAck, SidecarSignalError>)
    ensures
        match result {
            Ok(ack) => signal_outcome(socket_path@, reply) == Ok::<AckModel, SignalFault>(ack@),
            Err(error) => signal_outcome(socket_path@, reply) == Err::<AckModel, SignalFault>(
                error@,
            ),
        },
{
    match reply {
        SidecarReply::Unsupported => Err(SidecarSignalError::SocketMissing(NO_SOCKETS.to_owned())),
        SidecarReply::SocketMissing => Err(
            SidecarSignalError::SocketMissing(socket_path.to_owned()),
        ),
        SidecarReply::ConnectFailed(message) => Err(
            SidecarSignalError::Connect { path: socket_path.to_owned(), message },
        ),
        SidecarReply::SendFailed(message) => Err(SidecarSignalError::Send(message)),
        SidecarReply::ReadFailed(message) => Err(SidecarSignalError::Read(message)),
        SidecarReply::Line(line) => take_acknowledgement(line),
    }
}

// ---------------------------------------------------------------------------
// Laws
// ---------------------------------------------------------------------------

/// A line that reports an error is never taken for an acknowledgement, even where it
/// would also be one.
pub proof fn law_reported_errors_are_no_acknowledgements(line: SidecarLine<CacheInvalidationAck>)
    requires
        line.error is Some,
    ensures
        acknowledgement_of(line) is Err,
{
}

/// The signal is one object in one line, with the version of the protocol, the command and
/// the id of the request. It is given a second and a half, either way.
pub proof fn law_signals_name_the_command(request_id: Seq<char>)
    ensures
        invalidation_line(request_id) == "{\"protocol_version\":"@ + text_json("1.0.0"@)
            + ",\"command\":\"invalidate_cache\",\"request_id\":"@ + text_json(request_id) + "}\n"@,
        2 * IO_TIMEOUT_MS == 3 * 1000,
{
}

/// Whatever goes wrong on the way to the sidecar is reported with the path of the socket or
/// the message about it.
pub proof fn law_failed_signals_are_reported(socket_path: Seq<char>, message: String)
    ensures
        signal_outcome(socket_path, SidecarReply::Unsupported) == Err::<AckModel, SignalFault>(
            SignalFault::SocketMissing("Unix Domain Sockets are not supported on this platform"@),
        ),
        signal_outcome(socket_path, SidecarReply::SocketMissing) == Err::<AckModel, SignalFault>(
            SignalFault::SocketMissing(socket_path),
        ),
        signal_outcome(socket_path, SidecarReply::ConnectFailed(message)) == Err::<
            AckModel,
            SignalFault,
        >(SignalFault::Connect { path: socket_path, message: message@ }),
        signal_outcome(socket_path, SidecarReply::SendFailed(message)) == Err::<
            AckModel,
            SignalFault,
        >(SignalFault::Send(message@)),
        signal_outcome(socket_path, SidecarReply::ReadFailed(message)) == Err::<
            AckModel,
            SignalFault,
        >(SignalFault::Read(message@)),
{
}

/// A line of the sidecar is taken for an acknowledgement exactly where it is not blank,
/// reports no error and reads as one; and then it is that acknowledgement.
pub proof fn law_lines_are_read_as_acknowledgements(
    socket_path: Seq<char>,
    line: SidecarLine<CacheInvalidationAck>,
)
    ensures
        signal_outcome(socket_path, SidecarReply::Line(line)) == if is_blank(line.text@) {
            Err::<AckModel, SignalFault>(SignalFault::Read("empty response from sidecar"@))
        } else if line.error is Some {
            Err(
                SignalFault::Rejected(
                    line.error->0.code@ + seq![':', ' '] + line.error->0.message@,
                ),
            )
        } else if line.answer is Err {
            Err(SignalFault::InvalidAckJson(line.answer->Err_0@))
        } else {
            Ok(line.answer->Ok_0@)
        },
{
    reveal_strlit(": ");
    assert(": "@ =~= seq![':', ' ']);
}

/// What is reported of a signal that was not acknowledged names the socket or holds the
/// message about it.
pub proof fn law_faults_of_signals_are_reported(
    path: Seq<char>,
    message: Seq<char>,
)
    ensures
        signal_fault_text(SignalFault::SocketMissing(path)) == "sidecar socket not found at "@
            + path + "; the sidecar daemon may not be running"@,
        signal_fault_text(SignalFault::Connect { path, message })
            == "failed to connect to sidecar socket "@ + path + ": "@ + message,
        signal_fault_text(SignalFault::Send(message))
            == "failed to send cache invalidation request: "@ + message,
        signal_fault_text(SignalFault::Read(message))
            == "failed to read cache invalidation acknowledgement: "@ + message,
        signal_fault_text(SignalFault::InvalidAckJson(message))
            == "sidecar returned malformed acknowledgement JSON: "@ + message,
        signal_fault_text(SignalFault::Rejected(message))
            == "sidecar rejected cache invalidation request: "@ + message,
{
}

}
