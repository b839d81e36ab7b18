//! What the app state holds about sessions, turns, tool calls, tasks and
//! files. Times are milliseconds since the Unix epoch; a progress fraction
//! is the bit pattern of its `f64`.

use vstd::prelude::*;

use crate::ids::{TaskId, ToolCallId, TurnId};
use crate::protocol::SessionKey;
use crate::transport::FileHandle;

verus! {

pub struct Session {
    pub id: SessionKey,
    pub profile_id: String,
    pub title: String,
    pub created_at: i64,
    /// A turn is streaming in this session.
    pub is_streaming: bool,
    /// A tool call or task of this session is still running.
    pub has_active_task: bool,
}

impl Session {
    pub fn new(id: SessionKey, profile_id: &str, title: &str, created_at: i64) -> (r: Self)
        ensures
            r.id == id,
            r.profile_id@ == profile_id@,
            r.title@ == title@,
            r.created_at == created_at,
            !r.is_streaming,
            !r.has_active_task,
    {
        Session {
            id,
            profile_id: profile_id.to_owned(),
            title: title.to_owned(),
            created_at,
            is_streaming: false,
            has_active_task: false,
        }
    }
}

#[derive(Clone, Copy, Debug, PartialEq, Eq, Structural)]
pub enum TurnStatus {
    Started,
    Streaming,
    Completed,
    Error,
}

pub struct Turn {
    pub id: TurnId,
    pub session_id: SessionKey,
    pub status: TurnStatus,
    pub started_at: i64,
    pub completed_at: Option<i64>,
    pub error_code: Option<String>,
    pub error_message: Option<String>,
}

pub open spec fn started_turn(id: TurnId, session_id: SessionKey, at: i64) -> Turn {
    Turn {
        id,
        session_id,
        status: TurnStatus::Started,
        started_at: at,
        completed_at: None,
        error_code: None,
        error_message: None,
    }
}

impl Turn {
    pub fn started(id: TurnId, session_id: SessionKey, at: i64) -> (r: Self)
        ensures
            r == started_turn(id, session_id, at),
    {
        Turn {
            id,
            session_id,
            status: TurnStatus::Started,
            started_at: at,
            completed_at: None,
            error_code: None,
            error_message: None,
        }
    }
}

pub struct ToolCall {
    pub id: ToolCallId,
    pub session_id: SessionKey,
    pub turn_id: TurnId,
    pub tool_name: String,
    /// The tool arguments as compact JSON text.
    pub arguments: Option<String>,
    pub started_at: i64,
    pub completed_at: Option<i64>,
    pub success: Option<bool>,
    pub output_preview: Option<String>,
    pub progress_pct: Option<u64>,
}

pub open spec fn started_tool(
    id: ToolCallId,
    session_id: SessionKey,
    turn_id: TurnId,
    tool_name: String,
    arguments: Option<String>,
    at: i64,
) -> ToolCall {
    ToolCall {
        id,
        session_id,
        turn_id,
        tool_name,
        arguments,
        started_at: at,
        completed_at: None,
        success: None,
        output_preview: None,
        progress_pct: None,
    }
}

impl ToolCall {
    pub fn started(
        id: ToolCallId,
        session_id: SessionKey,
        turn_id: TurnId,
        tool_name: String,
        arguments: Option<String>,
        at: i64,
    ) -> (r: Self)
        ensures
            r == started_tool(id, session_id, turn_id, tool_name, arguments, at),
    {
        ToolCall {
            id,
            session_id,
            turn_id,
            tool_name,
            arguments,
            started_at: at,
            completed_at: None,
            success: None,
            output_preview: None,
            progress_pct: None,
        }
    }
}

pub struct Task {
    pub id: TaskId,
    pub session_id: SessionKey,
    /// Lower-cased runtime state name (`running`, `completed`, ...).
    pub runtime_state: String,
    pub summary: Option<String>,
    pub lifecycle_state: String,
    pub last_updated: i64,
    pub last_cursor: Option<u64>,
}

impl Task {
    /// A task first heard of now: no state, no summary.
    pub fn new(id: TaskId, session_id: SessionKey, at: i64) -> (r: Self)
        ensures
            r.id == id,
            r.session_id == session_id,
            r.runtime_state@ == Seq::<char>::empty(),
            r.summary is None,
            r.lifecycle_state@ == Seq::<char>::empty(),
            r.last_updated == at,
            r.last_cursor is None,
    {
        Task {
            id,
            session_id,
            runtime_state: String::new(),
            summary: None,
            lifecycle_state: String::new(),
            last_updated: at,
            last_cursor: None,
        }
    }
}

pub struct FileMeta {
    pub handle: FileHandle,
    pub name: String,
}

} // verus!
