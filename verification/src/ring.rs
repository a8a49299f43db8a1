//! Bounded FIFO ring of log lines: pushing beyond the limit evicts the
//! oldest entry, so the ring always shows the newest entries of the full
//! insertion history.

use std::collections::VecDeque;
use vstd::prelude::*;

verus! {

/// The newest `limit` entries of a full insertion history, in arrival order.
pub open spec fn ring_tail(history: Seq<Seq<char>>, limit: nat) -> Seq<Seq<char>> {
    if history.len() <= limit {
        history
    } else {
        history.skip(history.len() - limit)
    }
}

/// One push on the visible contents of a ring that already holds at most
/// `limit` entries: append, and drop the oldest entry if that would exceed
/// the limit.
pub open spec fn ring_push(contents: Seq<Seq<char>>, line: Seq<char>, limit: nat) -> Seq<
    Seq<char>,
> {
    if contents.len() < limit {
        contents.push(line)
    } else {
        contents.push(line).drop_first()
    }
}

/// A bounded FIFO of strings. The ghost `history` records every line ever
/// pushed; the invariant ties the visible contents to the newest `limit`
/// entries of that history.
pub struct LogRing {
    items: VecDeque<String>,
    limit: usize,
    history: Ghost<Seq<Seq<char>>>,
}

impl View for LogRing {
    type V = Seq<Seq<char>>;

    closed spec fn view(&self) -> Seq<Seq<char>> {
        self.items@.map_values(|s: String| s@)
    }
}

impl LogRing {
    /// Capacity of the ring.
    pub closed spec fn limit(&self) -> nat {
        self.limit as nat
    }

    /// Every line ever pushed, oldest first.
    pub closed spec fn history(&self) -> Seq<Seq<char>> {
        self.history@
    }

    pub closed spec fn wf(&self) -> bool {
        &&& self.limit >= 1
        &&& self.items@.len() <= self.limit
        &&& self@ == ring_tail(self.history@, self.limit as nat)
    }

    pub fn new(limit: usize) -> (r: LogRing)
        requires
            limit >= 1,
        ensures
            r.wf(),
            r.limit() == limit,
            r@ == Seq::<Seq<char>>::empty(),
            r.history() == Seq::<Seq<char>>::empty(),
    {
        let r = LogRing { items: VecDeque::new(), limit, history: Ghost(Seq::empty()) };
        proof {
            assert(r@ =~= Seq::<Seq<char>>::empty());
        }
        r
    }

    pub fn len(&self) -> (n: usize)
        ensures
            n == self@.len(),
    {
        self.items.len()
    }

    /// Append a line, evicting the oldest one when the ring is full.
    pub fn push(&mut self, line: String)
        requires
            old(self).wf(),
        ensures
            final(self).wf(),
            final(self).limit() == old(self).limit(),
            final(self)@ == ring_push(old(self)@, line@, old(self).limit()),
            final(self).history() == old(self).history().push(line@),
            final(self)@.len() <= old(self)@.len() + 1,
            final(self)@.last() == line@,
    {
        let ghost pre = self@;
        if self.items.len() >= self.limit {
            self.items.pop_front();
        }
        self.items.push_back(line);
        proof {
            self.history@ = self.history@.push(line@);
            if pre.len() < self.limit as nat {
                assert(self@ =~= pre.push(line@));
            } else {
                assert(self@ =~= pre.push(line@).drop_first());
            }
            lemma_ring_tail_push(old(self).history@, line@, self.limit as nat);
            assert(self@ =~= ring_tail(self.history@, self.limit as nat));
        }
    }

    /// Newest entry, if any.
    pub fn back(&self) -> (r: Option<&String>)
        ensures
            match r {
                Some(s) => self@.len() > 0 && s@ == self@.last(),
                None => self@.len() == 0,
            },
    {
        if self.items.len() == 0 {
            None
        } else {
            Some(&self.items[self.items.len() - 1])
        }
    }

    /// The underlying queue, oldest first, for windowed display.
    pub fn items(&self) -> (r: &VecDeque<String>)
        ensures
            r@.map_values(|s: String| s@) == self@,
    {
        &self.items
    }
}

/// Law: a ring that shows the newest `limit` entries of its history keeps
/// doing so across a push. Applied inductively over any sequence of inserts,
/// the ring therefore always holds at most `limit` entries and exactly the
/// newest ones of the whole history.
pub proof fn lemma_ring_tail_push(history: Seq<Seq<char>>, line: Seq<char>, limit: nat)
    requires
        limit >= 1,
    ensures
        ring_push(ring_tail(history, limit), line, limit) == ring_tail(
            history.push(line),
            limit,
        ),
        ring_tail(history.push(line), limit).len() <= limit,
{
    let pre = ring_tail(history, limit);
    let post = ring_tail(history.push(line), limit);
    if history.len() < limit {
        assert(ring_push(pre, line, limit) =~= post);
    } else {
        assert(pre.len() == limit);
        assert(ring_push(pre, line, limit) =~= post);
    }
}

} // verus!
