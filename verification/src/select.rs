//! The two-source merge with alternating bias: each step polls one side
//! first, chosen by toggling a latched bias; an end-of-stream on either side
//! terminates the merge, and a terminated merge stays terminated.
//!
//! The sources themselves live outside this crate: the caller polls them and
//! hands their outcomes to [`UnfairSelect::poll_step`].

use vstd::prelude::*;

verus! {

/// Which side to poll first.
#[derive(Clone, Copy, Debug, PartialEq, Eq, Hash, Structural)]
pub enum PollNext {
    /// Poll the first source.
    Left,
    /// Poll the second source.
    Right,
}

impl PollNext {
    /// The opposite side.
    pub open spec fn spec_other(self) -> PollNext {
        match self {
            PollNext::Left => PollNext::Right,
            PollNext::Right => PollNext::Left,
        }
    }

    /// The opposite side.
    pub fn other(self) -> (r: PollNext)
        ensures
            r == self.spec_other(),
    {
        match self {
            PollNext::Left => PollNext::Right,
            PollNext::Right => PollNext::Left,
        }
    }

    /// Toggle the value and return the old one.
    pub fn toggle(&mut self) -> (r: PollNext)
        ensures
            r == *old(self),
            *final(self) == old(self).spec_other(),
    {
        let old_val = *self;
        *self = self.other();
        old_val
    }
}

/// The outcome of polling one source.
#[derive(Clone, Copy, Debug, PartialEq, Eq)]
pub enum SourcePoll<T> {
    /// The source yielded an item.
    Item(T),
    /// The source ended.
    End,
    /// The source has nothing yet.
    Pending,
}

/// State of the merge: the latched bias and whether the merge has
/// terminated.
#[derive(Clone, Copy, Debug, PartialEq, Eq, Structural)]
pub struct UnfairSelect {
    pub next: PollNext,
    pub finished: bool,
}

/// The merged outcome and next state, given the state and what each source
/// would answer. The side named by the bias is consulted first; its item is
/// taken, its end terminates the merge; only when it is pending does the
/// other side count, and an end there terminates too.
///
/// The caller must poll lazily, in this order: poll the side named by the
/// bias first, and the other side only when the first came back pending —
/// handing `Pending` for a side it did not poll. Polling both sides
/// eagerly would pull an item out of the unbiased source only to have this
/// step discard it whenever the biased side is ready as well.
pub open spec fn spec_select_step<T>(
    s: UnfairSelect,
    left: SourcePoll<T>,
    right: SourcePoll<T>,
) -> (UnfairSelect, SourcePoll<T>) {
    let side = s.next;
    let toggled = UnfairSelect { next: side.spec_other(), finished: s.finished };
    if s.finished {
        (toggled, SourcePoll::End)
    } else {
        let first = if side == PollNext::Left {
            left
        } else {
            right
        };
        let second = if side == PollNext::Left {
            right
        } else {
            left
        };
        match first {
            SourcePoll::Item(x) => (toggled, SourcePoll::Item(x)),
            SourcePoll::End => (UnfairSelect { finished: true, ..toggled }, SourcePoll::End),
            SourcePoll::Pending => match second {
                SourcePoll::Item(x) => (toggled, SourcePoll::Item(x)),
                SourcePoll::End => (UnfairSelect { finished: true, ..toggled }, SourcePoll::End),
                SourcePoll::Pending => (toggled, SourcePoll::Pending),
            },
        }
    }
}

/// A fresh merge: left side first, not terminated.
pub fn unfair_select() -> (s: UnfairSelect)
    ensures
        s.next == PollNext::Left,
        !s.finished,
{
    UnfairSelect { next: PollNext::Left, finished: false }
}

impl UnfairSelect {
    /// Whether the merge has terminated.
    pub fn is_terminated(&self) -> (r: bool)
        ensures
            r == self.finished,
    {
        self.finished
    }

    /// One merge step, exactly [`spec_select_step`].
    pub fn poll_step<T>(&mut self, left: SourcePoll<T>, right: SourcePoll<T>) -> (r: SourcePoll<T>)
        ensures
            *final(self) == spec_select_step(*old(self), left, right).0,
            r == spec_select_step(*old(self), left, right).1,
    {
        let side = self.next.toggle();
        if self.finished {
            return SourcePoll::End;
        }
        let (first, second) = match side {
            PollNext::Left => (left, right),
            PollNext::Right => (right, left),
        };
        match first {
            SourcePoll::Item(x) => SourcePoll::Item(x),
            SourcePoll::End => {
                self.finished = true;
                SourcePoll::End
            },
            SourcePoll::Pending => match second {
                SourcePoll::Item(x) => SourcePoll::Item(x),
                SourcePoll::End => {
                    self.finished = true;
                    SourcePoll::End
                },
                SourcePoll::Pending => SourcePoll::Pending,
            },
        }
    }
}

/// Once terminated, every later step answers end-of-stream and stays
/// terminated, whatever the sources do; and every step toggles the bias.
pub proof fn lemma_select_fused<T>(s: UnfairSelect, left: SourcePoll<T>, right: SourcePoll<T>)
    ensures
        s.finished ==> spec_select_step(s, left, right).0.finished && spec_select_step(
            s,
            left,
            right,
        ).1 == SourcePoll::<T>::End,
        spec_select_step(s, left, right).0.next == s.next.spec_other(),
{
}

} // verus!
