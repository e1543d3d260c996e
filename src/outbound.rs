use vstd::prelude::*;
use vstd::string::*;
use crate::json::{quote, quoted};

verus! {

/// How long an outbound call waits for the peer's reply, in seconds.
pub const SEND_TIMEOUT_SECS: u64 = 30;

/// The peer operation that an outbound message invokes.
pub open spec fn remote_operation() -> Seq<char> {
    "HandleRemoteMessage"@
}

/// The process that outbound messages are addressed to, as
/// `process:package:publisher`.
pub open spec fn target_process_text() -> Seq<char> {
    "skeleton-app:skeleton-app:skeleton.os"@
}

/// A caller's request to send a message to a node.
pub struct SendRequest {
    pub target_node: String,
    pub message: String,
}

/// A call that the transport is to make: the address, the JSON body and how
/// long to wait for the reply.
pub struct OutboundCall {
    pub target_node: String,
    pub target_process: String,
    pub body: String,
    pub timeout_secs: u64,
}

/// Why an outbound call failed, with the underlying diagnostic.
pub enum SendFailure {
    InvalidProcessId(String),
    Transport(String),
}

/// The envelope that carries `message` to the peer's remote handler.
pub open spec fn envelope_text(message: Seq<char>) -> Seq<char> {
    "{"@ + quoted(remote_operation()) + ":"@ + quoted(message) + "}"@
}

/// The error for a request body that did not parse.
pub open spec fn invalid_request_text(diagnostic: Seq<char>) -> Seq<char> {
    "Invalid request: "@ + diagnostic
}

/// The error for a target process identifier that did not parse.
pub open spec fn invalid_process_text(diagnostic: Seq<char>) -> Seq<char> {
    "Invalid process ID: "@ + diagnostic
}

/// The error for a call that the transport could not complete.
pub open spec fn send_failed_text(diagnostic: Seq<char>) -> Seq<char> {
    "Failed to send message: "@ + diagnostic
}

/// The reply once the peer has answered.
pub open spec fn sent_text() -> Seq<char> {
    "Message sent successfully"@
}

/// The call to make for a parsed send request, or the error for a body that
/// did not parse; no call is made for the latter.
pub fn plan_send(parsed: Result<SendRequest, String>) -> (r: Result<OutboundCall, String>)
    ensures
        parsed is Err ==> (r matches Err(e) && e@ == invalid_request_text(
            parsed->Err_0@,
        )),
        parsed is Ok ==> (r matches Ok(call) && call.target_node@
            == parsed->Ok_0.target_node@ && call.target_process@ == target_process_text()
            && call.body@ == envelope_text(parsed->Ok_0.message@) && call.timeout_secs
            == SEND_TIMEOUT_SECS),
{
    proof {
        reveal_strlit("Invalid request: ");
        reveal_strlit("skeleton-app:skeleton-app:skeleton.os");
        reveal_strlit("HandleRemoteMessage");
        reveal_strlit("{");
        reveal_strlit(":");
        reveal_strlit("}");
    }
    match parsed {
        Err(e) => {
            let mut text = String::from_str("Invalid request: ");
            text.append(e.as_str());
            Err(text)
        },
        Ok(req) => {
            let mut body = String::from_str("{");
            let op = quote("HandleRemoteMessage");
            body.append(op.as_str());
            body.append(":");
            let m = quote(req.message.as_str());
            body.append(m.as_str());
            body.append("}");
            Ok(
                OutboundCall {
                    target_node: req.target_node,
                    target_process: String::from_str("skeleton-app:skeleton-app:skeleton.os"),
                    body,
                    timeout_secs: SEND_TIMEOUT_SECS,
                },
            )
        },
    }
}

/// The reply to the caller once the call has been made, or has failed.
pub fn finish_send(outcome: Result<(), SendFailure>) -> (r: Result<String, String>)
    ensures
        outcome is Ok ==> (r matches Ok(s) && s@ == sent_text()),
        outcome matches Err(SendFailure::InvalidProcessId(d)) ==> (r matches Err(e) && e@
            == invalid_process_text(d@)),
        outcome matches Err(SendFailure::Transport(d)) ==> (r matches Err(e) && e@
            == send_failed_text(d@)),
{
    proof {
        reveal_strlit("Message sent successfully");
        reveal_strlit("Invalid process ID: ");
        reveal_strlit("Failed to send message: ");
    }
    match outcome {
        Ok(()) => Ok(String::from_str("Message sent successfully")),
        Err(SendFailure::InvalidProcessId(d)) => {
            let mut text = String::from_str("Invalid process ID: ");
            text.append(d.as_str());
            Err(text)
        },
        Err(SendFailure::Transport(d)) => {
            let mut text = String::from_str("Failed to send message: ");
            text.append(d.as_str());
            Err(text)
        },
    }
}

} // verus!
