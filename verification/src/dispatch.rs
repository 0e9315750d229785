//! The inbound push endpoint's decision logic: find the addressed session,
//! shape the pushed message, and map each outcome to its reply or status.

use vstd::prelude::*;

use crate::message::ServiceMessage;
use crate::model::DispatchedMessage;
use crate::session::{OutboundSender, SessionDirectory};

verus! {

/// The fields of an inbound push call.
#[derive(Debug, Clone, PartialEq, Eq)]
pub struct DispatchMessageRequest {
    pub target_user_id: String,
    pub message_id: String,
    pub user_id: String,
    pub channel_id: String,
    pub content: String,
    pub created_at: i64,
}

/// The reply of a successful push call.
#[derive(Debug, Clone, PartialEq, Eq)]
pub struct DispatchMessageResponse {
    pub successful: bool,
}

/// Why a push call failed.
#[derive(Debug, Clone, PartialEq, Eq)]
pub enum DispatchError {
    /// The addressed user holds no session on this node.
    TargetOffline,
    /// The session is tearing down and its queue no longer accepts work.
    QueueClosed,
}

/// What to do with one push call.
pub enum DispatchOutcome {
    /// Enqueue this message on this sender.
    Deliver(OutboundSender, ServiceMessage),
    /// The target is not online here.
    NotFound,
}

/// Routes a push call: the addressed user's sender is found exactly when a
/// session is held, and the enqueued message carries the call's fields with
/// `created_at` as the timestamp.
pub fn dispatch_lookup(dir: &SessionDirectory, req: DispatchMessageRequest) -> (r: DispatchOutcome)
    ensures
        (r is Deliver) <==> dir.sessions().contains_key(req.target_user_id@),
        r matches DispatchOutcome::Deliver(tx, m) ==> tx == dir.sessions()[req.target_user_id@]
            && m == ServiceMessage::DispatchMessage(
            (DispatchedMessage {
                message_id: req.message_id,
                channel_id: req.channel_id,
                user_id: req.user_id,
                content: req.content,
                timestamp: req.created_at,
            }),
        ),
{
    match dir.lookup(req.target_user_id.as_str()) {
        None => DispatchOutcome::NotFound,
        Some(tx) => DispatchOutcome::Deliver(
            tx,
            ServiceMessage::DispatchMessage(
                DispatchedMessage {
                    message_id: req.message_id,
                    channel_id: req.channel_id,
                    user_id: req.user_id,
                    content: req.content,
                    timestamp: req.created_at,
                },
            ),
        ),
    }
}

/// Maps the enqueue outcome to the call's reply: success once the message
/// is on the queue, an error when the queue closed underneath the call.
pub fn dispatch_send_result(send_ok: bool) -> (r: Result<DispatchMessageResponse, DispatchError>)
    ensures
        send_ok ==> (r matches Ok(p) && p.successful),
        !send_ok ==> r == Err::<DispatchMessageResponse, DispatchError>(DispatchError::QueueClosed),
{
    if send_ok {
        Ok(DispatchMessageResponse { successful: true })
    } else {
        Err(DispatchError::QueueClosed)
    }
}

/// The gRPC status code of each failure: 5 (NOT_FOUND) for an offline
/// target, 13 (INTERNAL) for a closed queue.
pub fn dispatch_status_code(e: &DispatchError) -> (r: u32)
    ensures
        e is TargetOffline ==> r == 5,
        e is QueueClosed ==> r == 13,
{
    match e {
        DispatchError::TargetOffline => 5,
        DispatchError::QueueClosed => 13,
    }
}

/// Server-side holder of the stream-based push endpoint; its transport
/// binding lives in the unverified shell.
#[derive(Debug, Default)]
pub struct DispatchedServerImpl {}

} // verus!
