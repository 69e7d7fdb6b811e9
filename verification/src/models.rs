//! The data model: the permission request and decision response that cross
//! the local socket, the decision emitted to the assistant, and the record a
//! pending request leaves in the broker.

use crate::json::Json;
use vstd::prelude::*;

verus! {

/// The five possible outcomes of a permission request.
#[derive(Debug, Clone, Copy, PartialEq, Eq, Structural)]
pub enum Decision {
    Allow,
    Deny,
    AlwaysAllow,
    Reply,
    Timeout,
}

/// What the assistant is told to do with the tool call.
#[derive(Debug, Clone, Copy, PartialEq, Eq, Structural)]
pub enum HookBehavior {
    Allow,
    Deny,
}

/// The event a hook decision answers.
#[derive(Debug, Clone, Copy, PartialEq, Eq, Structural)]
pub enum HookEventName {
    PermissionRequest,
}

/// The decision body the assistant reads.
pub struct HookDecision {
    pub behavior: HookBehavior,
    pub message: Option<String>,
    pub updated_permissions: Option<Vec<Json>>,
}

/// The event-tagged envelope around a decision.
pub struct HookSpecificOutput {
    pub hook_event_name: HookEventName,
    pub decision: HookDecision,
}

/// What the hook writes on its standard output for the assistant.
pub struct HookOutput {
    pub hook_specific_output: HookSpecificOutput,
}

impl HookOutput {
    /// A plain approval: behaviour allow, no message, no permission update.
    pub fn allow() -> (r: Self)
        ensures
            r.hook_specific_output.hook_event_name == HookEventName::PermissionRequest,
            r.hook_specific_output.decision.behavior == HookBehavior::Allow,
            r.hook_specific_output.decision.message is None,
            r.hook_specific_output.decision.updated_permissions is None,
    {
        HookOutput {
            hook_specific_output: HookSpecificOutput {
                hook_event_name: HookEventName::PermissionRequest,
                decision: HookDecision {
                    behavior: HookBehavior::Allow,
                    message: None,
                    updated_permissions: None,
                },
            },
        }
    }

    /// A denial carrying the human-visible reason.
    pub fn deny(message: String) -> (r: Self)
        ensures
            r.hook_specific_output.hook_event_name == HookEventName::PermissionRequest,
            r.hook_specific_output.decision.behavior == HookBehavior::Deny,
            r.hook_specific_output.decision.message == Some(message),
            r.hook_specific_output.decision.updated_permissions is None,
    {
        HookOutput {
            hook_specific_output: HookSpecificOutput {
                hook_event_name: HookEventName::PermissionRequest,
                decision: HookDecision {
                    behavior: HookBehavior::Deny,
                    message: Some(message),
                    updated_permissions: None,
                },
            },
        }
    }

    /// An approval that also hands the assistant a permission update,
    /// possibly empty.
    pub fn allow_always(permissions: Vec<Json>) -> (r: Self)
        ensures
            r.hook_specific_output.hook_event_name == HookEventName::PermissionRequest,
            r.hook_specific_output.decision.behavior == HookBehavior::Allow,
            r.hook_specific_output.decision.message is None,
            r.hook_specific_output.decision.updated_permissions == Some(permissions),
    {
        HookOutput {
            hook_specific_output: HookSpecificOutput {
                hook_event_name: HookEventName::PermissionRequest,
                decision: HookDecision {
                    behavior: HookBehavior::Allow,
                    message: None,
                    updated_permissions: Some(permissions),
                },
            },
        }
    }
}

/// What the assistant hands the hook on its standard input.
pub struct HookInput {
    pub session_id: String,
    pub transcript_path: String,
    pub cwd: String,
    pub permission_mode: String,
    pub hook_event_name: String,
    pub tool_name: String,
    pub tool_input: Json,
    pub permission_suggestions: Vec<Json>,
}

/// Permission details sent from hook to broker over the local socket.
pub struct IpcRequest {
    pub request_id: u128,
    pub tool_name: String,
    pub tool_input: Json,
    pub cwd: String,
    pub session_id: String,
    pub permission_suggestions: Vec<Json>,
    pub assistant_context: Option<String>,
}

/// Decision sent from broker to hook over the local socket.
pub struct IpcResponse {
    pub request_id: u128,
    pub decision: Decision,
    pub message: Option<String>,
    pub user_message: Option<String>,
    pub always_allow_suggestion: Option<Json>,
}

impl IpcResponse {
    /// The terminal response of a request nobody decided in time.
    pub fn timeout(request_id: u128) -> (r: Self)
        ensures
            r.request_id == request_id,
            r.decision == Decision::Timeout,
            r.message is None,
            r.user_message is None,
            r.always_allow_suggestion is None,
    {
        IpcResponse {
            request_id,
            decision: Decision::Timeout,
            message: None,
            user_message: None,
            always_allow_suggestion: None,
        }
    }

    /// A one-time approval.
    pub fn allow(request_id: u128) -> (r: Self)
        ensures
            r.request_id == request_id,
            r.decision == Decision::Allow,
            r.message is None,
            r.user_message is None,
            r.always_allow_suggestion is None,
    {
        IpcResponse {
            request_id,
            decision: Decision::Allow,
            message: None,
            user_message: None,
            always_allow_suggestion: None,
        }
    }

    /// A denial carrying its reason.
    pub fn deny(request_id: u128, message: String) -> (r: Self)
        ensures
            r.request_id == request_id,
            r.decision == Decision::Deny,
            r.message == Some(message),
            r.user_message is None,
            r.always_allow_suggestion is None,
    {
        IpcResponse {
            request_id,
            decision: Decision::Deny,
            message: Some(message),
            user_message: None,
            always_allow_suggestion: None,
        }
    }

    /// An approval that should persist, with the suggestion to record, if
    /// the request carried one.
    pub fn always_allow(request_id: u128, suggestion: Option<Json>) -> (r: Self)
        ensures
            r.request_id == request_id,
            r.decision == Decision::AlwaysAllow,
            r.message is None,
            r.user_message is None,
            r.always_allow_suggestion == suggestion,
    {
        IpcResponse {
            request_id,
            decision: Decision::AlwaysAllow,
            message: None,
            user_message: None,
            always_allow_suggestion: suggestion,
        }
    }

    /// A free-text answer from the human.
    pub fn reply(request_id: u128, user_message: String) -> (r: Self)
        ensures
            r.request_id == request_id,
            r.decision == Decision::Reply,
            r.message is None,
            r.user_message == Some(user_message),
            r.always_allow_suggestion is None,
    {
        IpcResponse {
            request_id,
            decision: Decision::Reply,
            message: None,
            user_message: Some(user_message),
            always_allow_suggestion: None,
        }
    }
}

/// One chat message sent for a pending request: which chat, which message.
#[derive(Debug, Clone, Copy, PartialEq, Eq, Structural)]
pub struct SentMessage {
    pub chat_id: i64,
    pub message_id: i32,
}

/// In-memory state of a request awaiting a human decision.
pub struct PendingRecord {
    pub request_id: u128,
    pub sent_messages: Vec<SentMessage>,
    pub original_text: String,
    pub permission_suggestions: Vec<Json>,
    /// A monotonic timestamp taken at registration, for diagnostics.
    pub created_at: u64,
}

} // verus!
