//! Approval cards: one per approval the server asked for, with its state.

use vstd::prelude::*;

use crate::ids::{ApprovalId, TurnId};
use crate::json::{JsonValue, JsonView};
use crate::keyed::KeyedVec;
use crate::notification::{ApprovalDecision, ApprovalRequestedEvent};
use crate::protocol::SessionKey;

verus! {

pub enum ApprovalState {
    /// Waiting for the user.
    Pending,
    /// The user decided; the reply is in flight.
    PendingResponse(ApprovalDecision),
    Decided(ApprovalDecision),
    Cancelled(String),
    Failed(String),
}

pub struct ApprovalCard {
    pub session_id: SessionKey,
    pub turn_id: TurnId,
    pub tool_name: String,
    pub title: String,
    pub body: String,
    pub state: ApprovalState,
}

pub open spec fn with_state(c: ApprovalCard, st: ApprovalState) -> ApprovalCard {
    ApprovalCard { state: st, ..c }
}

/// The card still awaits a decision or its delivery.
pub open spec fn is_pending(c: ApprovalCard) -> bool {
    c.state is Pending || c.state is PendingResponse
}

pub open spec fn count_pending(s: Seq<(ApprovalId, ApprovalCard)>) -> nat
    decreases s.len(),
{
    if s.len() == 0 {
        0
    } else {
        count_pending(s.drop_last()) + if is_pending(s.last().1) {
            1nat
        } else {
            0nat
        }
    }
}

pub proof fn lemma_count_update(s: Seq<(ApprovalId, ApprovalCard)>, i: int, e: (ApprovalId, ApprovalCard))
    requires
        0 <= i < s.len(),
    ensures
        count_pending(s.update(i, e)) == count_pending(s) - (if is_pending(s[i].1) {
            1int
        } else {
            0int
        }) + (if is_pending(e.1) {
            1int
        } else {
            0int
        }),
    decreases s.len(),
{
    let t = s.update(i, e);
    if i == s.len() - 1 {
        assert(t.drop_last() =~= s.drop_last());
    } else {
        assert(t.drop_last() =~= s.drop_last().update(i, e));
        lemma_count_update(s.drop_last(), i, e);
    }
}

pub struct ApprovalsSlice {
    pub by_id: KeyedVec<ApprovalId, ApprovalCard>,
}

impl ApprovalsSlice {
    pub fn new() -> (r: Self)
        ensures
            r.by_id.seq().len() == 0,
            forall|q: u128| #[trigger] r.by_id.spec_get(q) is None,
    {
        ApprovalsSlice { by_id: KeyedVec::new() }
    }

    /// A new pending card for the request (replacing any card of that id).
    pub fn requested(&mut self, e: ApprovalRequestedEvent)
        ensures
            count_pending(final(self).by_id.seq()) == count_pending(old(self).by_id.seq()) + 1 - if (
            old(self).by_id.spec_get(e.approval_id.0) matches Some(c) && is_pending(c)) {
                1int
            } else {
                0int
            },
            forall|q: u128|
                #[trigger] final(self).by_id.spec_get(q) == if q == e.approval_id.0 {
                    Some(
                        ApprovalCard {
                            session_id: e.session_id,
                            turn_id: e.turn_id,
                            tool_name: e.tool_name,
                            title: e.title,
                            body: e.body,
                            state: ApprovalState::Pending,
                        },
                    )
                } else {
                    old(self).by_id.spec_get(q)
                },
    {
        let card = ApprovalCard {
            session_id: e.session_id,
            turn_id: e.turn_id,
            tool_name: e.tool_name,
            title: e.title,
            body: e.body,
            state: ApprovalState::Pending,
        };
        proof {
            use_type_invariant(&self.by_id);
        }
        let ghost s0 = self.by_id.seq();
        let ghost c = card;
        let ghost k = e.approval_id;
        self.by_id.insert(e.approval_id, card);
        proof {
            match old(self).by_id.index_of(k.0) {
                Some(i) => {
                    lemma_count_update(s0, i, (k, c));
                    crate::keyed::lemma_id_lookup_at(s0, i);
                },
                None => {
                    assert(s0.push((k, c)).drop_last() =~= s0);
                },
            }
        }
    }

    /// Sets the state of the card `id`, when there is one.
    fn set_state(&mut self, id: &ApprovalId, st: ApprovalState)
        ensures
            forall|q: u128|
                #[trigger] final(self).by_id.spec_get(q) == if q == id.0 {
                    match old(self).by_id.spec_get(q) {
                        Some(c) => Some(with_state(c, st)),
                        None => None,
                    }
                } else {
                    old(self).by_id.spec_get(q)
                },
            match old(self).by_id.index_of(id.0) {
                Some(i) => final(self).by_id.seq() == old(self).by_id.seq().update(
                    i,
                    (old(self).by_id.seq()[i].0, with_state(old(self).by_id.seq()[i].1, st)),
                ),
                None => final(self).by_id.seq() == old(self).by_id.seq(),
            },
    {
        match self.by_id.find(id) {
            Some(i) => {
                let (k, mut card) = self.by_id.remove_at(i);
                card.state = st;
                self.by_id.insert_at(i, k, card);
                assert(self.by_id.seq() =~= old(self).by_id.seq().update(
                    i as int,
                    (old(self).by_id.seq()[i as int].0, with_state(old(self).by_id.seq()[i as int].1, st)),
                ));
            },
            None => {},
        }
    }

    /// The card is decided (no-op for an unknown id).
    pub fn decided(&mut self, id: &ApprovalId, decision: ApprovalDecision)
        ensures
            forall|q: u128|
                #[trigger] final(self).by_id.spec_get(q) == if q == id.0 {
                    match old(self).by_id.spec_get(q) {
                        Some(c) => Some(with_state(c, ApprovalState::Decided(decision))),
                        None => None,
                    }
                } else {
                    old(self).by_id.spec_get(q)
                },
            count_pending(final(self).by_id.seq()) == count_pending(old(self).by_id.seq()) - if (
            old(self).by_id.spec_get(id.0) matches Some(c) && is_pending(c)) {
                1int
            } else {
                0int
            },
    {
        let ghost st = ApprovalState::Decided(decision);
        self.set_state(id, ApprovalState::Decided(decision));
        proof {
            if let Some(i) = old(self).by_id.index_of(id.0) {
                let s = old(self).by_id.seq();
                lemma_count_update(s, i, (s[i].0, with_state(s[i].1, st)));
            }
        }
    }

    /// The card is cancelled (no-op for an unknown id).
    pub fn cancelled(&mut self, id: &ApprovalId, reason: String)
        ensures
            forall|q: u128|
                #[trigger] final(self).by_id.spec_get(q) == if q == id.0 {
                    match old(self).by_id.spec_get(q) {
                        Some(c) => Some(with_state(c, ApprovalState::Cancelled(reason))),
                        None => None,
                    }
                } else {
                    old(self).by_id.spec_get(q)
                },
            count_pending(final(self).by_id.seq()) == count_pending(old(self).by_id.seq()) - if (
            old(self).by_id.spec_get(id.0) matches Some(c) && is_pending(c)) {
                1int
            } else {
                0int
            },
    {
        let ghost st = ApprovalState::Cancelled(reason);
        self.set_state(id, ApprovalState::Cancelled(reason));
        proof {
            if let Some(i) = old(self).by_id.index_of(id.0) {
                let s = old(self).by_id.seq();
                lemma_count_update(s, i, (s[i].0, with_state(s[i].1, st)));
            }
        }
    }

    /// The user decided; the reply is in flight.
    pub fn pending_response(&mut self, id: &ApprovalId, decision: ApprovalDecision)
        ensures
            forall|q: u128|
                #[trigger] final(self).by_id.spec_get(q) == if q == id.0 {
                    match old(self).by_id.spec_get(q) {
                        Some(c) => Some(with_state(c, ApprovalState::PendingResponse(decision))),
                        None => None,
                    }
                } else {
                    old(self).by_id.spec_get(q)
                },
    {
        self.set_state(id, ApprovalState::PendingResponse(decision));
    }

    /// Delivering the decision failed.
    pub fn failed(&mut self, id: &ApprovalId, message: &str)
        ensures
            forall|q: u128|
                if q == id.0 {
                    match old(self).by_id.spec_get(q) {
                        Some(c) => #[trigger] final(self).by_id.spec_get(q) matches Some(d) && d.state matches ApprovalState::Failed(m) && m@ == message@ && d == with_state(c, d.state),
                        None => final(self).by_id.spec_get(q) is None,
                    }
                } else {
                    final(self).by_id.spec_get(q) == old(self).by_id.spec_get(q)
                },
    {
        self.set_state(id, ApprovalState::Failed(message.to_owned()));
    }

    /// Number of cards awaiting a decision or its delivery.
    pub fn pending_count(&self) -> (n: usize)
        ensures
            n == count_pending(self.by_id.seq()),
    {
        let ghost s = self.by_id.seq();
        let mut n: usize = 0;
        let mut i: usize = 0;
        while i < self.by_id.len()
            invariant
                i <= s.len(),
                s == self.by_id.seq(),
                n == count_pending(s.take(i as int)),
                n <= i,
            decreases s.len() - i,
        {
            assert(s.take(i + 1).drop_last() =~= s.take(i as int));
            match self.by_id.value_at(i).state {
                ApprovalState::Pending | ApprovalState::PendingResponse(_) => {
                    n += 1;
                },
                _ => {},
            }
            i += 1;
        }
        assert(s.take(s.len() as int) =~= s);
        n
    }
}

/// The server's error code for an approval that is no longer pending.
pub const APPROVAL_NOT_PENDING: i64 = -32011;

/// A recorded decision as the wire writes it: `approve` or `deny`.
pub open spec fn recorded_decision(s: Seq<char>) -> Option<ApprovalDecision> {
    if s == "approve"@ {
        Some(ApprovalDecision::Approve)
    } else if s == "deny"@ {
        Some(ApprovalDecision::Deny)
    } else {
        None
    }
}

pub fn parse_recorded_decision(s: &str) -> (r: Option<ApprovalDecision>)
    ensures
        r == recorded_decision(s@),
{
    if crate::text::str_eq(s, "approve") {
        Some(ApprovalDecision::Approve)
    } else if crate::text::str_eq(s, "deny") {
        Some(ApprovalDecision::Deny)
    } else {
        None
    }
}

/// The server's reply to an approval decision.
pub enum ApprovalReply {
    Accepted,
    Failed { message: String, code: i64, data: Option<JsonValue> },
}

/// The decision the server recorded, read from an error's data, else the
/// one the user sent.
pub open spec fn decision_after_not_pending(data: Option<JsonValue>, sent: ApprovalDecision) -> ApprovalDecision {
    match data {
        Some(d) => match d.jview().get("recorded_decision"@) {
            Some(JsonView::Str(s)) => match recorded_decision(s) {
                Some(x) => x,
                None => sent,
            },
            _ => sent,
        },
        None => sent,
    }
}

impl ApprovalsSlice {
    /// Folds the server's reply: accepted means decided; "not pending"
    /// means decided as the server recorded it (a repeated click); any
    /// other failure marks the card failed with the message.
    pub fn apply_reply(&mut self, id: &ApprovalId, sent: ApprovalDecision, reply: ApprovalReply)
        ensures
            match reply {
                ApprovalReply::Accepted => forall|q: u128|
                    #[trigger] final(self).by_id.spec_get(q) == if q == id.0 {
                        match old(self).by_id.spec_get(q) {
                            Some(c) => Some(with_state(c, ApprovalState::Decided(sent))),
                            None => None,
                        }
                    } else {
                        old(self).by_id.spec_get(q)
                    },
                ApprovalReply::Failed { message, code, data } => if code == APPROVAL_NOT_PENDING {
                    forall|q: u128|
                        #[trigger] final(self).by_id.spec_get(q) == if q == id.0 {
                            match old(self).by_id.spec_get(q) {
                                Some(c) => Some(
                                    with_state(c, ApprovalState::Decided(decision_after_not_pending(data, sent))),
                                ),
                                None => None,
                            }
                        } else {
                            old(self).by_id.spec_get(q)
                        }
                } else {
                    forall|q: u128|
                        if q == id.0 {
                            match old(self).by_id.spec_get(q) {
                                Some(c) => #[trigger] final(self).by_id.spec_get(q) matches Some(d)
                                    && d.state matches ApprovalState::Failed(m) && m@ == message@ && d == with_state(
                                    c,
                                    d.state,
                                ),
                                None => final(self).by_id.spec_get(q) is None,
                            }
                        } else {
                            final(self).by_id.spec_get(q) == old(self).by_id.spec_get(q)
                        }
                },
            },
    {
        match reply {
            ApprovalReply::Accepted => self.decided(id, sent),
            ApprovalReply::Failed { message, code, data } => {
                if code == APPROVAL_NOT_PENDING {
                    let recorded = match &data {
                        Some(d) => match d.get("recorded_decision") {
                            Some(v) => match v.as_str() {
                                Some(s) => parse_recorded_decision(s),
                                None => None,
                            },
                            None => None,
                        },
                        None => None,
                    };
                    let chosen = match recorded {
                        Some(x) => x,
                        None => sent,
                    };
                    self.decided(id, chosen);
                } else {
                    self.failed(id, message.as_str());
                }
            },
        }
    }
}

impl ApprovalReply {
    /// The decision could not be handed to the transport.
    pub fn transport_unavailable() -> (r: Self)
        ensures
            r matches ApprovalReply::Failed { message, code, data } && message@ == "transport unavailable"@
                && code == 0 && data is None,
    {
        ApprovalReply::Failed { message: "transport unavailable".to_owned(), code: 0, data: None }
    }

    /// The transport went away before the server replied.
    pub fn reply_dropped() -> (r: Self)
        ensures
            r matches ApprovalReply::Failed { message, code, data } && message@
                == "transport dropped the reply channel"@ && code == 0 && data is None,
    {
        ApprovalReply::Failed { message: "transport dropped the reply channel".to_owned(), code: 0, data: None }
    }
}

impl ApprovalsSlice {
    /// The user clicked a decision: the card waits for the reply, or fails
    /// at once when there is no agent to send it. Returns whether to send.
    pub fn begin_response(&mut self, id: &ApprovalId, decision: ApprovalDecision, can_send: bool) -> (send: bool)
        ensures
            send == can_send,
            can_send ==> forall|q: u128|
                #[trigger] final(self).by_id.spec_get(q) == if q == id.0 {
                    match old(self).by_id.spec_get(q) {
                        Some(c) => Some(with_state(c, ApprovalState::PendingResponse(decision))),
                        None => None,
                    }
                } else {
                    old(self).by_id.spec_get(q)
                },
            !can_send ==> forall|q: u128|
                if q == id.0 {
                    match old(self).by_id.spec_get(q) {
                        Some(c) => #[trigger] final(self).by_id.spec_get(q) matches Some(d)
                            && d.state matches ApprovalState::Failed(m) && m@ == "agent not initialized"@
                            && d == with_state(c, d.state),
                        None => final(self).by_id.spec_get(q) is None,
                    }
                } else {
                    final(self).by_id.spec_get(q) == old(self).by_id.spec_get(q)
                },
    {
        self.pending_response(id, decision);
        if !can_send {
            self.failed(id, "agent not initialized");
        }
        can_send
    }
}

} // verus!
