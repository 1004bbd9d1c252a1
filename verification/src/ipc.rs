//! Asking the sidecar: the request that is sent, and the untrusted proposal that comes
//! back.
use crate::json::{encode_text, lemma_text_json_has_no_line_feed, string_map, text_json};
use crate::number::{int_text, is_digit, lemma_nat_text_reads_back, nat_text, push_u64};
use crate::sidecar::{
    is_one_line, lemma_line_feed_ends_line, lemma_no_line_feed, report_of, SidecarLine,
    SidecarReply, NO_SOCKETS, PROTOCOL_VERSION,
};
use crate::text::{is_blank, text_is_blank};
use crate::text_map::TextMap;
use vstd::prelude::*;

verus! {

/// How long the library waits to send a request, in milliseconds.
pub const WRITE_TIMEOUT_MS: u64 = 5_000;

/// How long the library waits for a proposal, in milliseconds. It is long, since a
/// query can fall through to a local language model.
pub const READ_TIMEOUT_MS: u64 = 180_000;

/// The number of candidates that a query asks for.
pub const QUERY_LIMIT: u32 = 5;

// ---------------------------------------------------------------------------
// Errors
// ---------------------------------------------------------------------------

/// Why a query got no proposal.
#[derive(Debug, Clone, PartialEq, Eq)]
pub enum IpcError {
    SocketMissing(String),
    Connect { path: String, message: String },
    Send(String),
    Read(String),
    InvalidResponseJson(String),
    Rejected(String),
}

/// What an [`IpcError`] says.
pub ghost enum IpcFault {
    SocketMissing(Seq<char>),
    Connect { path: Seq<char>, message: Seq<char> },
    Send(Seq<char>),
    Read(Seq<char>),
    InvalidResponseJson(Seq<char>),
    Rejected(Seq<char>),
}

impl View for IpcError {
    type V = IpcFault;

    open spec fn view(&self) -> IpcFault {
        match self {
            IpcError::SocketMissing(path) => IpcFault::SocketMissing(path@),
            IpcError::Connect { path, message } => IpcFault::Connect {
                path: path@,
                message: message@,
            },
            IpcError::Send(message) => IpcFault::Send(message@),
            IpcError::Read(message) => IpcFault::Read(message@),
            IpcError::InvalidResponseJson(message) => IpcFault::InvalidResponseJson(message@),
            IpcError::Rejected(message) => IpcFault::Rejected(message@),
        }
    }
}

/// The text that reports a fault to the user.
pub open spec fn ipc_fault_text(fault: IpcFault) -> Seq<char> {
    match fault {
        IpcFault::SocketMissing(path) => "sidecar socket not found at "@ + path
            + "; the sidecar daemon may not be running"@,
        IpcFault::Connect { path, message } => "failed to connect to sidecar socket "@ + path
            + ": "@ + message,
        IpcFault::Send(message) => "failed to send search request: "@ + message,
        IpcFault::Read(message) => "failed to read search response: "@ + message,
        IpcFault::InvalidResponseJson(message) => {
            "sidecar returned malformed response JSON: "@ + message
        },
        IpcFault::Rejected(message) => "sidecar rejected the search request: "@ + message,
    }
}

impl IpcError {
    /// The text that reports the error to the user.
    pub fn message(&self) -> (text: String)
        ensures
            text@ == ipc_fault_text(self@),
    {
        match self {
            IpcError::SocketMissing(path) => {
                "sidecar socket not found at ".to_owned().concat(path.as_str()).concat(
                    "; the sidecar daemon may not be running",
                )
            },
            IpcError::Connect { path, message } => {
                "failed to connect to sidecar socket ".to_owned().concat(path.as_str()).concat(
                    ": ",
                ).concat(message.as_str())
            },
            IpcError::Send(message) => {
                "failed to send search request: ".to_owned().concat(message.as_str())
            },
            IpcError::Read(message) => {
                "failed to read search response: ".to_owned().concat(message.as_str())
            },
            IpcError::InvalidResponseJson(message) => {
                "sidecar returned malformed response JSON: ".to_owned().concat(message.as_str())
            },
            IpcError::Rejected(message) => {
                "sidecar rejected the search request: ".to_owned().concat(message.as_str())
            },
        }
    }
}

// ---------------------------------------------------------------------------
// The request
// ---------------------------------------------------------------------------

/// The line that asks for a proposal.
pub open spec fn search_line(request_id: Seq<char>, query: Seq<char>, limit: nat) -> Seq<char> {
    "{\"protocol_version\":"@ + text_json(PROTOCOL_VERSION@) + ",\"request_id\":"@ + text_json(
        request_id,
    ) + ",\"query\":"@ + text_json(query) + ",\"limit\":"@ + int_text(limit as int) + "}\n"@
}

/// Writes the line that asks for a proposal.
pub fn search_request_line(request_id: &str, query: &str, limit: u32) -> (line: String)
    ensures
        line@ == search_line(request_id@, query@, limit as nat),
        is_one_line(line@),
{
    let mut count = String::new();
    push_u64(&mut count, limit as u64);
    assert(count@ =~= int_text(limit as int));
    let version = encode_text(PROTOCOL_VERSION);
    let id = encode_text(request_id);
    let text = encode_text(query);
    proof {
        reveal_strlit("{\"protocol_version\":");
        reveal_strlit(",\"request_id\":");
        reveal_strlit(",\"query\":");
        reveal_strlit(",\"limit\":");
        reveal_strlit("}\n");
        lemma_number_has_no_line_feed(limit as nat);
        lemma_text_json_has_no_line_feed(PROTOCOL_VERSION@);
        lemma_text_json_has_no_line_feed(request_id@);
        lemma_text_json_has_no_line_feed(query@);
        let a = "{\"protocol_version\":"@;
        let b = a + version@;
        let c = b + ",\"request_id\":"@;
        let d = c + id@;
        let e = d + ",\"query\":"@;
        let f = e + text@;
        let g = f + ",\"limit\":"@;
        lemma_no_line_feed(a, version@);
        lemma_no_line_feed(b, ",\"request_id\":"@);
        lemma_no_line_feed(c, id@);
        lemma_no_line_feed(d, ",\"query\":"@);
        lemma_no_line_feed(e, text@);
        lemma_no_line_feed(f, ",\"limit\":"@);
        lemma_no_line_feed(g, count@);
        lemma_line_feed_ends_line(g + count@);
        assert("}\n"@ =~= seq!['}', '\n']);
    }
    "{\"protocol_version\":".to_owned().concat(version.as_str()).concat(
        ",\"request_id\":",
    ).concat(id.as_str()).concat(",\"query\":").concat(text.as_str()).concat(
        ",\"limit\":",
    ).concat(count.as_str()).concat("}\n")
}

proof fn lemma_number_has_no_line_feed(n: nat)
    ensures
        !int_text(n as int).contains('\n'),
{
    lemma_nat_text_reads_back(n);
    let text = nat_text(n);
    if text.contains('\n') {
        let i = text.index_of('\n');
        assert(is_digit(text[i]));
    }
}

// ---------------------------------------------------------------------------
// The proposal
// ---------------------------------------------------------------------------

/// How a candidate was found. Numbers with a fraction are held in decimal notation.
#[derive(Debug, PartialEq, Eq)]
pub struct RetrievalEvidence {
    pub fts5_lexical_score: Option<String>,
    pub vector_cosine_distance: Option<String>,
    pub vector_rank: Option<i64>,
    pub embedding_duration_ms: String,
}

/// What the sidecar says of the risks of a candidate.
#[derive(Debug, Clone, PartialEq, Eq)]
pub struct RiskHints {
    pub contains_path_arguments: bool,
}

/// What the sidecar takes a prompt to mean.
#[derive(Debug, PartialEq, Eq)]
pub struct IntentProposal {
    pub candidate_template_id: Option<String>,
    pub typed_intent: String,
    pub retrieval_evidence: RetrievalEvidence,
    pub risk_hints: RiskHints,
    pub raw_untrusted_slots: TextMap<String>,
}

/// The answer of the sidecar. Every member is as untrusted as the process that sent it.
#[derive(Debug, PartialEq, Eq)]
pub struct UntrustedProposal {
    pub protocol_version: String,
    pub request_id: String,
    pub source_provenance: String,
    pub intent_proposal: IntentProposal,
}

/// What [`RetrievalEvidence`] says.
pub ghost struct EvidenceModel {
    pub lexical: Option<Seq<char>>,
    pub cosine: Option<Seq<char>>,
    pub rank: Option<i64>,
    pub duration: Seq<char>,
}

/// What an [`IntentProposal`] says.
pub ghost struct IntentModel {
    pub candidate: Option<Seq<char>>,
    pub typed_intent: Seq<char>,
    pub evidence: EvidenceModel,
    pub has_paths: bool,
    pub slots: Map<Seq<char>, Seq<char>>,
}

/// What an [`UntrustedProposal`] says.
pub ghost struct ProposalModel {
    pub protocol_version: Seq<char>,
    pub request_id: Seq<char>,
    pub source_provenance: Seq<char>,
    pub intent: IntentModel,
}

/// An optional text.
pub open spec fn option_text(text: Option<String>) -> Option<Seq<char>> {
    match text {
        Some(text) => Some(text@),
        None => None,
    }
}

impl View for RetrievalEvidence {
    type V = EvidenceModel;

    open spec fn view(&self) -> EvidenceModel {
        EvidenceModel {
            lexical: option_text(self.fts5_lexical_score),
            cosine: option_text(self.vector_cosine_distance),
            rank: self.vector_rank,
            duration: self.embedding_duration_ms@,
        }
    }
}

impl View for IntentProposal {
    type V = IntentModel;

    open spec fn view(&self) -> IntentModel {
        IntentModel {
            candidate: option_text(self.candidate_template_id),
            typed_intent: self.typed_intent@,
            evidence: self.retrieval_evidence@,
            has_paths: self.risk_hints.contains_path_arguments,
            slots: string_map(self.raw_untrusted_slots@),
        }
    }
}

impl View for UntrustedProposal {
    type V = ProposalModel;

    open spec fn view(&self) -> ProposalModel {
        ProposalModel {
            protocol_version: self.protocol_version@,
            request_id: self.request_id@,
            source_provenance: self.source_provenance@,
            intent: self.intent_proposal@,
        }
    }
}

/// What a line of the sidecar says: an error that it reports, or a proposal.
pub open spec fn response_of(line: SidecarLine<UntrustedProposal>) -> Result<
    ProposalModel,
    IpcFault,
> {
    if is_blank(line.text@) {
        Err(IpcFault::Read("empty response from sidecar"@))
    } else if line.error is Some {
        Err(IpcFault::Rejected(report_of(line.error->0)))
    } else {
        match line.answer {
            Ok(proposal) => Ok(proposal@),
            Err(message) => Err(IpcFault::InvalidResponseJson(message@)),
        }
    }
}

/// What came of a query.
pub open spec fn query_outcome(
    socket_path: Seq<char>,
    reply: SidecarReply<UntrustedProposal>,
) -> Result<ProposalModel, IpcFault> {
    match reply {
        SidecarReply::Unsupported => Err(IpcFault::SocketMissing(NO_SOCKETS@)),
        SidecarReply::SocketMissing => Err(IpcFault::SocketMissing(socket_path)),
        SidecarReply::ConnectFailed(message) => Err(
            IpcFault::Connect { path: socket_path, message: message@ },
        ),
        SidecarReply::SendFailed(message) => Err(IpcFault::Send(message@)),
        SidecarReply::ReadFailed(message) => Err(IpcFault::Read(message@)),
        SidecarReply::Line(line) => response_of(line),
    }
}

/// The slots of a proposal, where the sidecar sent one, are kept in their order.
pub open spec fn reply_wf(reply: SidecarReply<UntrustedProposal>) -> bool {
    match reply {
        SidecarReply::Line(line) => match line.answer {
            Ok(proposal) => proposal.intent_proposal.raw_untrusted_slots.wf(),
            Err(_) => true,
        },
        _ => true,
    }
}

fn take_response(line: SidecarLine<UntrustedProposal>) -> (result: Result<
    UntrustedProposal,
    IpcError,
>)
    requires
        reply_wf(SidecarReply::Line(line)),
    ensures
        match result {
            Ok(proposal) => proposal.intent_proposal.raw_untrusted_slots.wf() && response_of(line)
                == Ok::<ProposalModel, IpcFault>(proposal@),
            Err(error) => response_of(line) == Err::<ProposalModel, IpcFault>(error@),
        },
{
    if text_is_blank(line.text.as_str()) {
        return Err(IpcError::Read("empty response from sidecar".to_owned()));
    }
    match line.error {
        Some(error) => {
            return Err(IpcError::Rejected(error.report()));
        },
        None => {},
    }
    match line.answer {
        Ok(proposal) => Ok(proposal),
        Err(message) => Err(IpcError::InvalidResponseJson(message)),
    }
}

/// Makes a proposal of what came back for a [`search_request_line`], or the error.
pub fn query_sidecar(socket_path: &str, reply: SidecarReply<UntrustedProposal>) -> (result: Result<
    UntrustedProposal,
    IpcError,
>)
    requires
        reply_wf(reply),
    ensures
        match result {
            Ok(proposal) => proposal.intent_proposal.raw_untrusted_slots.wf() && query_outcome(
                socket_path@,
                reply,
            ) == Ok::<ProposalModel, IpcFault>(proposal@),
            Err(error) => query_outcome(socket_path@, reply) == Err::<ProposalModel, IpcFault>(
                error@,
            ),
        },
{
    match reply {
        SidecarReply::Unsupported => Err(IpcError::SocketMissing(NO_SOCKETS.to_owned())),
        SidecarReply::SocketMissing => Err(IpcError::SocketMissing(socket_path.to_owned())),
        SidecarReply::ConnectFailed(message) => Err(
            IpcError::Connect { path: socket_path.to_owned(), message },
        ),
        SidecarReply::SendFailed(message) => Err(IpcError::Send(message)),
        SidecarReply::ReadFailed(message) => Err(IpcError::Read(message)),
        SidecarReply::Line(line) => take_response(line),
    }
}

// ---------------------------------------------------------------------------
// Laws
// ---------------------------------------------------------------------------

/// An answer that reports an error is never taken for a proposal, even where it would
/// also be one.
pub proof fn law_reported_errors_are_no_proposals(line: SidecarLine<UntrustedProposal>)
    requires
        line.error is Some,
    ensures
        response_of(line) is Err,
{
}

/// A request is one object in one line, with the version of the protocol, the id and the
/// words of the request, and the number of candidates, which is five for a query. It is
/// sent within seconds, and its answer is awaited for minutes.
pub proof fn law_search_lines_hold_the_request(request_id: Seq<char>, query: Seq<char>, limit: nat)
    ensures
        search_line(request_id, query, limit) == "{\"protocol_version\":"@ + text_json("1.0.0"@)
            + ",\"request_id\":"@ + text_json(request_id) + ",\"query\":"@ + text_json(query)
            + ",\"limit\":"@ + int_text(limit as int) + "}\n"@,
        search_line(request_id, query, QUERY_LIMIT as nat) == "{\"protocol_version\":"@ + text_json(
            "1.0.0"@,
        ) + ",\"request_id\":"@ + text_json(request_id) + ",\"query\":"@ + text_json(query)
            + ",\"limit\":"@ + seq!['5'] + "}\n"@,
        WRITE_TIMEOUT_MS == 5 * 1000,
        READ_TIMEOUT_MS == 3 * 60 * 1000,
{
    assert(int_text(5) =~= seq!['5']);
}

/// Whatever goes wrong on the way to the sidecar is reported with the path of the socket or
/// the message about it.
pub proof fn law_failed_queries_are_reported(socket_path: Seq<char>, message: String)
    ensures
        query_outcome(socket_path, SidecarReply::Unsupported) == Err::<ProposalModel, IpcFault>(
            IpcFault::SocketMissing("Unix Domain Sockets are not supported on this platform"@),
        ),
        query_outcome(socket_path, SidecarReply::SocketMissing) == Err::<ProposalModel, IpcFault>(
            IpcFault::SocketMissing(socket_path),
        ),
        query_outcome(socket_path, SidecarReply::ConnectFailed(message)) == Err::<
            ProposalModel,
            IpcFault,
        >(IpcFault::Connect { path: socket_path, message: message@ }),
        query_outcome(socket_path, SidecarReply::SendFailed(message)) == Err::<
            ProposalModel,
            IpcFault,
        >(IpcFault::Send(message@)),
        query_outcome(socket_path, SidecarReply::ReadFailed(message)) == Err::<
            ProposalModel,
            IpcFault,
        >(IpcFault::Read(message@)),
{
}

/// A line of the sidecar is taken for a proposal exactly where it is not blank, reports no
/// error and reads as one; and then it is that proposal.
pub proof fn law_lines_are_read_as_proposals(
    socket_path: Seq<char>,
    line: SidecarLine<UntrustedProposal>,
)
    ensures
        query_outcome(socket_path, SidecarReply::Line(line)) == if is_blank(line.text@) {
            Err::<ProposalModel, IpcFault>(IpcFault::Read("empty response from sidecar"@))
        } else if line.error is Some {
            Err(
                IpcFault::Rejected(
                    line.error->0.code@ + seq![':', ' '] + line.error->0.message@,
                ),
            )
        } else if line.answer is Err {
            Err(IpcFault::InvalidResponseJson(line.answer->Err_0@))
        } else {
            Ok(line.answer->Ok_0@)
        },
{
    reveal_strlit(": ");
    assert(": "@ =~= seq![':', ' ']);
}

/// What is reported of a query without a proposal names the socket or holds the message about
/// it.
pub proof fn law_faults_of_queries_are_reported(
    path: Seq<char>,
    message: Seq<char>,
)
    ensures
        ipc_fault_text(IpcFault::SocketMissing(path)) == "sidecar socket not found at "@ + path
            + "; the sidecar daemon may not be running"@,
        ipc_fault_text(IpcFault::Connect { path, message })
            == "failed to connect to sidecar socket "@ + path + ": "@ + message,
        ipc_fault_text(IpcFault::Send(message)) == "failed to send search request: "@ + message,
        ipc_fault_text(IpcFault::Read(message)) == "failed to read search response: "@ + message,
        ipc_fault_text(IpcFault::InvalidResponseJson(message))
            == "sidecar returned malformed response JSON: "@ + message,
        ipc_fault_text(IpcFault::Rejected(message)) == "sidecar rejected the search request: "@
            + message,
{
}

}
