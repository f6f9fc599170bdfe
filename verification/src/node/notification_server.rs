//! Notifications that the execution engine sends by itself.

use vstd::prelude::*;

use crate::text::{copy_str, decimal, decimal_string};

verus! {

/// The name of the socket of a node.
pub fn notification_socket_name(node_id: u64) -> (r: String)
    ensures
        r@ == "metanode-notification-"@ + decimal(node_id as nat) + ".sock"@,
{
    let mut r = copy_str("metanode-notification-");
    let n = decimal_string(node_id);
    r.append(n.as_str());
    r.append(".sock");
    r
}

/// What the engine sends.
#[derive(Clone, Copy, Debug, PartialEq, Eq, Structural)]
pub enum NotificationPayload {
    /// A new epoch begins.
    EpochChange { new_epoch: u64, epoch_timestamp_ms: u64, boundary_block: u64 },
    /// Anything else.
    Other,
}

/// The answer to the engine.
#[derive(Debug)]
pub enum NotificationResponse {
    EpochChange { success: bool, message: String },
    Error(String),
}

/// `response` answers an epoch change with this outcome.
pub open spec fn answers_outcome(
    outcome: Result<(), String>,
    response: NotificationResponse,
) -> bool {
    match outcome {
        Ok(_) => response matches NotificationResponse::EpochChange { success, message } && success
            && message@ == "Transition triggered"@,
        Err(e) => response matches NotificationResponse::EpochChange { success, message }
            && !success && message@ == "Callback failed: "@ + e@,
    }
}

/// The answer to an epoch change with this outcome.
pub fn outcome_response(outcome: Result<(), String>) -> (response: NotificationResponse)
    ensures
        answers_outcome(outcome, response),
{
    match outcome {
        Ok(_) => NotificationResponse::EpochChange {
            success: true,
            message: copy_str("Transition triggered"),
        },
        Err(e) => {
            let mut message = copy_str("Callback failed: ");
            message.append(e.as_str());
            NotificationResponse::EpochChange { success: false, message }
        },
    }
}

/// Answers notifications, and hands epoch changes on.
pub struct EpochNotificationServer<F: Fn(u64, u64, u64) -> Result<(), String>> {
    pub socket_path: String,
    pub epoch_transition_callback: F,
}

impl<F: Fn(u64, u64, u64) -> Result<(), String>> EpochNotificationServer<F> {
    /// A server that hands epoch changes to `epoch_transition_callback`.
    pub fn new(socket_path: String, epoch_transition_callback: F) -> (r: Self)
        ensures
            r.socket_path == socket_path,
            r.epoch_transition_callback == epoch_transition_callback,
    {
        EpochNotificationServer { socket_path, epoch_transition_callback }
    }

    /// Answers a notification. The callback is called for an epoch change only.
    pub fn handle_request(&self, payload: Option<NotificationPayload>) -> (response:
        NotificationResponse)
        requires
            forall|epoch: u64, timestamp_ms: u64, boundary: u64| #[trigger]
                call_requires(self.epoch_transition_callback, (epoch, timestamp_ms, boundary)),
        ensures
            match payload {
                Some(
                    NotificationPayload::EpochChange {
                        new_epoch,
                        epoch_timestamp_ms,
                        boundary_block,
                    },
                ) => exists|outcome: Result<(), String>| #[trigger]
                    answers_outcome(outcome, response) && call_ensures(
                        self.epoch_transition_callback,
                        (new_epoch, epoch_timestamp_ms, boundary_block),
                        outcome,
                    ),
                Some(NotificationPayload::Other) => {
                    response matches NotificationResponse::Error(e) && e@
                        == "Unexpected request type"@
                },
                None => response matches NotificationResponse::Error(e) && e@ == "Empty payload"@,
            },
    {
        match payload {
            Some(
                NotificationPayload::EpochChange { new_epoch, epoch_timestamp_ms, boundary_block },
            ) => {
                let outcome = (self.epoch_transition_callback)(
                    new_epoch,
                    epoch_timestamp_ms,
                    boundary_block,
                );
                let ghost said = outcome;
                let response = outcome_response(outcome);
                assert(answers_outcome(said, response));
                response
            },
            Some(NotificationPayload::Other) => {
                NotificationResponse::Error(copy_str("Unexpected request type"))
            },
            None => NotificationResponse::Error(copy_str("Empty payload")),
        }
    }
}

/// The answer to an epoch change says whether the change was handed on, and if not, why.
pub proof fn law_the_answer_tells_the_outcome(
    outcome: Result<(), String>,
    response: NotificationResponse,
)
    requires
        answers_outcome(outcome, response),
    ensures
        response matches NotificationResponse::EpochChange { success, message } && (success
            <==> outcome is Ok) && (success ==> message@ == "Transition triggered"@) && (!success
            ==> message@ == "Callback failed: "@ + outcome->Err_0@),
{
}

} // verus!
