//! Identifiers of sessions, turns, tasks, tool calls and approvals.

use vstd::prelude::*;

use crate::keyed::IdKey;
use crate::protocol::SessionKey;
use crate::text::str_eq;
use crate::transport::FileHandle;

verus! {

impl IdKey for SessionKey {
    type Key = Seq<char>;

    open spec fn id_view(&self) -> Seq<char> {
        self.0@
    }

    fn same_id(&self, other: &Self) -> (r: bool) {
        str_eq(self.0.as_str(), other.0.as_str())
    }
}

impl IdKey for FileHandle {
    type Key = Seq<char>;

    open spec fn id_view(&self) -> Seq<char> {
        self.0@
    }

    fn same_id(&self, other: &Self) -> (r: bool) {
        str_eq(self.0.as_str(), other.0.as_str())
    }
}

/// Turn identifier (a UUID, as its 128-bit value).
#[derive(Clone, Copy, Debug, PartialEq, Eq, Structural)]
pub struct TurnId(pub u128);

/// Task identifier (a UUID, as its 128-bit value).
#[derive(Clone, Copy, Debug, PartialEq, Eq, Structural)]
pub struct TaskId(pub u128);

/// Approval identifier (a UUID, as its 128-bit value).
#[derive(Clone, Copy, Debug, PartialEq, Eq, Structural)]
pub struct ApprovalId(pub u128);

impl Default for TaskId {
    /// The nil id.
    fn default() -> (r: Self)
        ensures
            r.0 == 0,
    {
        TaskId(0)
    }
}

impl IdKey for TurnId {
    type Key = u128;

    open spec fn id_view(&self) -> u128 {
        self.0
    }

    fn same_id(&self, other: &Self) -> (r: bool) {
        self.0 == other.0
    }
}

impl IdKey for TaskId {
    type Key = u128;

    open spec fn id_view(&self) -> u128 {
        self.0
    }

    fn same_id(&self, other: &Self) -> (r: bool) {
        self.0 == other.0
    }
}

impl IdKey for ApprovalId {
    type Key = u128;

    open spec fn id_view(&self) -> u128 {
        self.0
    }

    fn same_id(&self, other: &Self) -> (r: bool) {
        self.0 == other.0
    }
}

/// Tool-call identifier, as the server issued it.
pub struct ToolCallId(pub String);

impl ToolCallId {
    pub fn new(s: &str) -> (r: Self)
        ensures
            r.0@ == s@,
    {
        ToolCallId(s.to_owned())
    }
}

impl Clone for ToolCallId {
    fn clone(&self) -> (r: Self)
        ensures
            r == *self,
    {
        ToolCallId(self.0.clone())
    }
}

impl IdKey for ToolCallId {
    type Key = Seq<char>;

    open spec fn id_view(&self) -> Seq<char> {
        self.0@
    }

    fn same_id(&self, other: &Self) -> (r: bool) {
        str_eq(self.0.as_str(), other.0.as_str())
    }
}

} // verus!
