//! The per-guild ordered collection of pending track requests.
//!
//! Insertion order is play order, except where `shuffle` establishes a new
//! fixed order. The currently-playing track is never held here: once a track
//! is dispatched to playback it moves out of the pending queue and is held
//! by the session as `current`.

use vstd::prelude::*;

use crate::track::TrackRequest;

verus! {

/// Ordered sequence of pending track requests.
pub struct QueueStore {
    items: Vec<TrackRequest>,
}

impl View for QueueStore {
    type V = Seq<TrackRequest>;

    closed spec fn view(&self) -> Seq<TrackRequest> {
        self.items@
    }
}

impl QueueStore {
    /// An empty queue.
    pub fn new() -> (q: QueueStore)
        ensures
            q@ == Seq::<TrackRequest>::empty(),
    {
        QueueStore { items: Vec::new() }
    }

    pub fn len(&self) -> (n: usize)
        ensures
            n == self@.len(),
    {
        self.items.len()
    }

    pub fn is_empty(&self) -> (b: bool)
        ensures
            b == (self@.len() == 0),
    {
        self.items.len() == 0
    }

    /// Append a track at the tail.
    pub fn push(&mut self, track: TrackRequest)
        ensures
            final(self)@ == old(self)@.push(track),
    {
        self.items.push(track);
    }

    /// Remove and return the head, the next track to play.
    pub fn pop_next(&mut self) -> (r: Option<TrackRequest>)
        ensures
            old(self)@.len() == 0 ==> (r is None && final(self)@ == old(self)@),
            old(self)@.len() > 0 ==> (r == Some(old(self)@[0]) && final(self)@
                == old(self)@.drop_first()),
    {
        if self.items.len() == 0 {
            None
        } else {
            let head = self.items.remove(0);
            assert(final(self)@ =~= old(self)@.drop_first());
            Some(head)
        }
    }

    /// Drop every pending track.
    pub fn clear(&mut self)
        ensures
            final(self)@ == Seq::<TrackRequest>::empty(),
    {
        self.items.clear();
    }

    /// The pending tracks in play order, for display; non-mutating.
    pub fn peek_all(&self) -> (r: &Vec<TrackRequest>)
        ensures
            r@ == self@,
    {
        &self.items
    }

    pub fn get(&self, i: usize) -> (r: &TrackRequest)
        requires
            i < self@.len(),
        ensures
            *r == self@[i as int],
    {
        &self.items[i]
    }

    /// Randomly permute the pending tracks with an unbiased Fisher–Yates
    /// pass; the multiset of pending tracks is unchanged.
    pub fn shuffle(&mut self)
        ensures
            final(self)@.to_multiset() == old(self)@.to_multiset(),
            final(self)@.len() == old(self)@.len(),
            exists|picks: Seq<int>|
                crate::shuffle::fy_picks_ok(picks, old(self)@.len() as int)
                    && final(self)@ =~= crate::shuffle::fy_apply(old(self)@, picks),
    {
        crate::shuffle::fisher_yates(&mut self.items);
    }
}

} // verus!
