//! Server notifications of the UI protocol, as the reducer reads them.
//! A progress fraction is carried as the bit pattern of its `f64`.

use vstd::prelude::*;

use crate::ids::{ApprovalId, TaskId, TurnId};
use crate::protocol::{SessionKey, UiCursor};

verus! {

/// An approval decision; forward-compatible with unknown wire values.
pub enum ApprovalDecision {
    Approve,
    Deny,
    Unknown(String),
}

impl ApprovalDecision {
    /// The wire form: `approve`, `deny`, or the unknown value as given.
    pub open spec fn wire(&self) -> Seq<char> {
        match self {
            ApprovalDecision::Approve => "approve"@,
            ApprovalDecision::Deny => "deny"@,
            ApprovalDecision::Unknown(s) => s@,
        }
    }

    pub fn as_wire_str(&self) -> (r: &str)
        ensures
            r@ == self.wire(),
    {
        match self {
            ApprovalDecision::Approve => "approve",
            ApprovalDecision::Deny => "deny",
            ApprovalDecision::Unknown(s) => s.as_str(),
        }
    }
}

impl Clone for ApprovalDecision {
    fn clone(&self) -> (r: Self)
        ensures
            r == *self,
    {
        match self {
            ApprovalDecision::Approve => ApprovalDecision::Approve,
            ApprovalDecision::Deny => ApprovalDecision::Deny,
            ApprovalDecision::Unknown(s) => ApprovalDecision::Unknown(s.clone()),
        }
    }
}

/// Runtime state of a background task.
#[derive(Clone, Copy, Debug, PartialEq, Eq, Structural)]
pub enum TaskRuntimeState {
    Pending,
    Running,
    Completed,
    Failed,
    Cancelled,
}

pub struct SessionOpenedEvent {
    pub session_id: SessionKey,
}

pub struct TurnStartedEvent {
    pub session_id: SessionKey,
    pub turn_id: TurnId,
    pub timestamp: i64,
}

pub struct MessageDeltaEvent {
    pub session_id: SessionKey,
    pub turn_id: TurnId,
    pub text: String,
}

pub struct ToolStartedEvent {
    pub session_id: SessionKey,
    pub turn_id: TurnId,
    pub tool_call_id: String,
    pub tool_name: String,
    /// The tool arguments as compact JSON text.
    pub arguments: Option<String>,
}

pub struct ToolProgressEvent {
    pub session_id: SessionKey,
    pub turn_id: TurnId,
    pub tool_call_id: String,
    pub progress_pct: Option<u64>,
}

pub struct ToolCompletedEvent {
    pub session_id: SessionKey,
    pub turn_id: TurnId,
    pub tool_call_id: String,
    pub tool_name: String,
    pub success: Option<bool>,
    pub output_preview: Option<String>,
    pub duration_ms: Option<u64>,
}

pub struct ApprovalRequestedEvent {
    pub session_id: SessionKey,
    pub approval_id: ApprovalId,
    pub turn_id: TurnId,
    pub tool_name: String,
    pub title: String,
    pub body: String,
}

pub struct ApprovalAutoResolvedEvent {
    pub session_id: SessionKey,
    pub approval_id: ApprovalId,
    pub turn_id: TurnId,
    pub tool_name: String,
    pub scope: String,
    pub scope_match: String,
    pub decision: ApprovalDecision,
}

pub struct ApprovalDecidedEvent {
    pub session_id: SessionKey,
    pub approval_id: ApprovalId,
    pub turn_id: TurnId,
    pub decision: ApprovalDecision,
    pub decided_by: String,
}

pub struct ApprovalCancelledEvent {
    pub session_id: SessionKey,
    pub approval_id: ApprovalId,
    pub turn_id: TurnId,
    pub reason: String,
}

pub struct TaskUpdatedEvent {
    pub session_id: SessionKey,
    pub task_id: TaskId,
    pub title: String,
    pub state: TaskRuntimeState,
    pub runtime_detail: Option<String>,
}

pub struct TaskOutputDeltaEvent {
    pub session_id: SessionKey,
    pub task_id: TaskId,
    pub cursor: u64,
}

pub struct ProgressMetadata {
    pub progress_pct: Option<u64>,
    pub label: Option<String>,
    pub message: Option<String>,
}

pub struct ProgressUpdatedEvent {
    pub session_id: SessionKey,
    pub turn_id: Option<TurnId>,
    pub metadata: ProgressMetadata,
}

pub struct ReplayLossyEvent {
    pub session_id: SessionKey,
    pub dropped_count: u64,
    pub last_durable_cursor: Option<UiCursor>,
}

pub struct WarningEvent {
    pub session_id: SessionKey,
    pub code: String,
    pub message: String,
}

pub struct TurnCompletedEvent {
    pub session_id: SessionKey,
    pub turn_id: TurnId,
    pub cursor: Option<UiCursor>,
}

pub struct TurnErrorEvent {
    pub session_id: SessionKey,
    pub turn_id: TurnId,
    pub code: String,
    pub message: String,
}

/// A server notification.
pub enum UiNotification {
    SessionOpened(SessionOpenedEvent),
    TurnStarted(TurnStartedEvent),
    MessageDelta(MessageDeltaEvent),
    ToolStarted(ToolStartedEvent),
    ToolProgress(ToolProgressEvent),
    ToolCompleted(ToolCompletedEvent),
    ApprovalRequested(ApprovalRequestedEvent),
    ApprovalAutoResolved(ApprovalAutoResolvedEvent),
    ApprovalDecided(ApprovalDecidedEvent),
    ApprovalCancelled(ApprovalCancelledEvent),
    TaskUpdated(TaskUpdatedEvent),
    TaskOutputDelta(TaskOutputDeltaEvent),
    ProgressUpdated(ProgressUpdatedEvent),
    ReplayLossy(ReplayLossyEvent),
    Warning(WarningEvent),
    TurnCompleted(TurnCompletedEvent),
    TurnError(TurnErrorEvent),
}

impl UiNotification {
    /// The session a notification belongs to.
    pub open spec fn session(&self) -> SessionKey {
        match self {
            UiNotification::SessionOpened(e) => e.session_id,
            UiNotification::TurnStarted(e) => e.session_id,
            UiNotification::MessageDelta(e) => e.session_id,
            UiNotification::ToolStarted(e) => e.session_id,
            UiNotification::ToolProgress(e) => e.session_id,
            UiNotification::ToolCompleted(e) => e.session_id,
            UiNotification::ApprovalRequested(e) => e.session_id,
            UiNotification::ApprovalAutoResolved(e) => e.session_id,
            UiNotification::ApprovalDecided(e) => e.session_id,
            UiNotification::ApprovalCancelled(e) => e.session_id,
            UiNotification::TaskUpdated(e) => e.session_id,
            UiNotification::TaskOutputDelta(e) => e.session_id,
            UiNotification::ProgressUpdated(e) => e.session_id,
            UiNotification::ReplayLossy(e) => e.session_id,
            UiNotification::Warning(e) => e.session_id,
            UiNotification::TurnCompleted(e) => e.session_id,
            UiNotification::TurnError(e) => e.session_id,
        }
    }

    /// The session a notification belongs to, used to advance its cursor.
    pub fn route_session(&self) -> (r: &SessionKey)
        ensures
            *r == self.session(),
    {
        match self {
            UiNotification::SessionOpened(e) => &e.session_id,
            UiNotification::TurnStarted(e) => &e.session_id,
            UiNotification::MessageDelta(e) => &e.session_id,
            UiNotification::ToolStarted(e) => &e.session_id,
            UiNotification::ToolProgress(e) => &e.session_id,
            UiNotification::ToolCompleted(e) => &e.session_id,
            UiNotification::ApprovalRequested(e) => &e.session_id,
            UiNotification::ApprovalAutoResolved(e) => &e.session_id,
            UiNotification::ApprovalDecided(e) => &e.session_id,
            UiNotification::ApprovalCancelled(e) => &e.session_id,
            UiNotification::TaskUpdated(e) => &e.session_id,
            UiNotification::TaskOutputDelta(e) => &e.session_id,
            UiNotification::ProgressUpdated(e) => &e.session_id,
            UiNotification::ReplayLossy(e) => &e.session_id,
            UiNotification::Warning(e) => &e.session_id,
            UiNotification::TurnCompleted(e) => &e.session_id,
            UiNotification::TurnError(e) => &e.session_id,
        }
    }
}

} // verus!
