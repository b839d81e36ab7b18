//! Transient notices shown in the toast strip, oldest first.

use vstd::prelude::*;

verus! {

#[derive(Clone, Copy, Debug, PartialEq, Eq, Structural)]
pub enum ToastKind {
    Info,
    Error,
    Reconnecting,
    ReconnectSuccess,
}

pub struct Toast {
    pub kind: ToastKind,
    pub message: String,
}

impl Toast {
    pub fn new(kind: ToastKind, message: &str) -> (r: Self)
        ensures
            r.kind == kind,
            r.message@ == message@,
    {
        Toast { kind, message: message.to_owned() }
    }
}

impl Clone for Toast {
    fn clone(&self) -> (r: Self)
        ensures
            r == *self,
    {
        Toast { kind: self.kind, message: self.message.clone() }
    }
}

/// First-in, first-out queue of toasts.
pub struct ToastQueue {
    items: Vec<Toast>,
}

impl ToastQueue {
    /// The queued toasts, oldest first.
    pub closed spec fn seq(&self) -> Seq<Toast> {
        self.items@
    }

    pub fn new() -> (q: Self)
        ensures
            q.seq() == Seq::<Toast>::empty(),
    {
        ToastQueue { items: Vec::new() }
    }

    pub fn push(&mut self, t: Toast)
        ensures
            final(self).seq() == old(self).seq().push(t),
    {
        self.items.push(t);
    }

    /// Removes and hands back the oldest toast.
    pub fn dismiss_oldest(&mut self) -> (r: Option<Toast>)
        ensures
            old(self).seq().len() == 0 ==> r is None && final(self).seq() == old(self).seq(),
            old(self).seq().len() > 0 ==> r == Some(old(self).seq()[0]) && final(self).seq()
                == old(self).seq().drop_first(),
    {
        if self.items.len() == 0 {
            None
        } else {
            let t = self.items.remove(0);
            assert(self.items@ =~= old(self).items@.drop_first());
            Some(t)
        }
    }

    pub fn len(&self) -> (n: usize)
        ensures
            n == self.seq().len(),
    {
        self.items.len()
    }

    pub fn is_empty(&self) -> (r: bool)
        ensures
            r == (self.seq().len() == 0),
    {
        self.items.len() == 0
    }

    /// The `i`-th queued toast, oldest first.
    pub fn get(&self, i: usize) -> (t: &Toast)
        requires
            i < self.seq().len(),
        ensures
            *t == self.seq()[i as int],
    {
        &self.items[i]
    }
}

impl Default for ToastQueue {
    fn default() -> (q: Self)
        ensures
            q.seq() == Seq::<Toast>::empty(),
    {
        ToastQueue::new()
    }
}

} // verus!
