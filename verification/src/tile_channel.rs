//! Channel model for the UI to request tiles from the fetcher.
//!
//! The producer replaces a snapshot of the currently wanted tiles (split
//! into visible and speculative) before enqueueing each batch; the
//! consumer re-checks every tile against the snapshot at the moment it is
//! dequeued. Tiles no longer wanted are dropped, so stale requests vanish
//! under rapid panning without explicit cancellation.

use vstd::prelude::*;
use crate::geom::TileIndex;

verus! {

/// Incoming request seen by the fetcher.
#[derive(Clone, Copy, Debug, PartialEq, Eq, Structural)]
pub enum TileRequest {
    /// Tile requested.
    Tile(TileIndex),
    /// Speculative request of a tile.
    Speculate(TileIndex),
    /// Notification that the UI evicted a tile.
    Evicted(TileIndex),
    /// End of stream.
    End,
}

/// One enqueued message.
#[derive(Clone, Copy, Debug, PartialEq, Eq, Structural)]
pub enum Queued {
    /// A tile from a batch, to be classified against the snapshot when it
    /// is dequeued.
    Pending(TileIndex),
    /// Notification that the UI evicted a tile.
    Evicted(TileIndex),
    /// End of stream.
    End,
}

/// What one receive attempt yields.
#[derive(Clone, Copy, Debug, PartialEq, Eq, Structural)]
pub enum ChannelPoll {
    /// Nothing queued right now.
    Empty,
    /// The producer closed the channel.
    Closed,
    /// A live request.
    Request(TileRequest),
}

/// How a dequeued tile is classified against the snapshot: still visible
/// tiles stay requests, merely speculative ones become speculative
/// requests, and all others are dropped.
pub open spec fn classify(
    visible: Seq<TileIndex>,
    speculative: Seq<TileIndex>,
    t: TileIndex,
) -> Option<TileRequest> {
    if visible.contains(t) {
        Some(TileRequest::Tile(t))
    } else if speculative.contains(t) {
        Some(TileRequest::Speculate(t))
    } else {
        None
    }
}

/// Scans the queue for the first message that yields something under the
/// snapshot, returning the poll outcome and the queue left behind.
pub open spec fn spec_drain(
    q: Seq<Queued>,
    visible: Seq<TileIndex>,
    speculative: Seq<TileIndex>,
) -> (ChannelPoll, Seq<Queued>)
    decreases q.len(),
{
    if q.len() == 0 {
        (ChannelPoll::Empty, q)
    } else {
        match q[0] {
            Queued::Pending(t) => match classify(visible, speculative, t) {
                Some(r) => (ChannelPoll::Request(r), q.drop_first()),
                None => spec_drain(q.drop_first(), visible, speculative),
            },
            Queued::Evicted(t) => (
                ChannelPoll::Request(TileRequest::Evicted(t)),
                q.drop_first(),
            ),
            Queued::End => (ChannelPoll::Closed, q.drop_first()),
        }
    }
}

/// The queued form of a batch: one pending message per tile, in order.
pub open spec fn spec_batch(tiles: Seq<TileIndex>) -> Seq<Queued> {
    Seq::new(tiles.len(), |i: int| Queued::Pending(tiles[i]))
}

/// The request channel with its snapshot of currently wanted tiles.
pub struct TileChannel {
    /// Queued messages, oldest first.
    pub queue: Vec<Queued>,
    /// Snapshot: tiles currently visible.
    pub visible: Vec<TileIndex>,
    /// Snapshot: tiles currently speculated.
    pub speculative: Vec<TileIndex>,
    /// Whether the consumer has seen the end-of-stream marker.
    pub closed: bool,
}

/// Constructs an empty channel.
pub fn tile_channel() -> (r: TileChannel)
    ensures
        r.queue@.len() == 0,
        r.visible@.len() == 0,
        r.speculative@.len() == 0,
        !r.closed,
{
    TileChannel {
        queue: Vec::new(),
        visible: Vec::new(),
        speculative: Vec::new(),
        closed: false,
    }
}

/// Checks whether a list of tiles contains the given one.
pub fn contains_tile(tiles: &Vec<TileIndex>, t: &TileIndex) -> (r: bool)
    ensures
        r == tiles@.contains(*t),
{
    let mut i: usize = 0;
    let n = tiles.len();
    while i < n
        invariant
            n == tiles@.len(),
            i <= n,
            forall|j: int| 0 <= j < i ==> tiles@[j] != *t,
        decreases n - i,
    {
        if tiles[i] == *t {
            proof { assert(tiles@[i as int] == *t); }
            return true;
        }
        i = i + 1;
    }
    proof {
        if tiles@.contains(*t) {
            let j = choose|j: int| 0 <= j < tiles@.len() && tiles@[j] == *t;
            assert(tiles@[j] != *t);
        }
    }
    false
}

impl TileChannel {
    /// Requests a set of tiles: first the snapshot is replaced (visible
    /// only when given, speculative always), then the visible batch is
    /// enqueued, then the speculative batch.
    pub fn request_tiles(&mut self, tiles: Option<Vec<TileIndex>>, speculative: Vec<TileIndex>)
        ensures
            final(self).closed == old(self).closed,
            final(self).visible@ == match tiles {
                Some(ts) => ts@,
                None => old(self).visible@,
            },
            final(self).speculative@ == speculative@,
            final(self).queue@ == old(self).queue@
                + match tiles {
                    Some(ts) => spec_batch(ts@),
                    None => Seq::<Queued>::empty(),
                }
                + spec_batch(speculative@),
    {
        let ghost oldq = self.queue@;
        match tiles {
            Some(ts) => {
                let ghost tseq = ts@;
                self.push_batch(&ts);
                self.visible = ts;
                proof {
                    assert(self.queue@ =~= oldq + spec_batch(tseq));
                }
            },
            None => {
                proof {
                    assert(self.queue@ =~= oldq + Seq::<Queued>::empty());
                }
            },
        }
        let ghost midq = self.queue@;
        self.push_batch(&speculative);
        self.speculative = speculative;
        proof {
            assert(self.queue@ =~= midq + spec_batch(self.speculative@));
        }
    }

    /// Appends one pending message per tile of the batch.
    fn push_batch(&mut self, tiles: &Vec<TileIndex>)
        ensures
            final(self).queue@ == old(self).queue@ + spec_batch(tiles@),
            final(self).visible == old(self).visible,
            final(self).speculative == old(self).speculative,
            final(self).closed == old(self).closed,
    {
        let mut i: usize = 0;
        let n = tiles.len();
        while i < n
            invariant
                n == tiles@.len(),
                i <= n,
                self.visible == old(self).visible,
                self.speculative == old(self).speculative,
                self.closed == old(self).closed,
                self.queue@ == old(self).queue@ + spec_batch(tiles@.take(i as int)),
            decreases n - i,
        {
            self.queue.push(Queued::Pending(tiles[i]));
            proof {
                assert(spec_batch(tiles@.take(i + 1)) =~= spec_batch(tiles@.take(i as int))
                    .push(Queued::Pending(tiles@[i as int])));
                assert(self.queue@ =~= old(self).queue@ + spec_batch(tiles@.take(i + 1)));
            }
            i = i + 1;
        }
        proof {
            assert(tiles@.take(n as int) =~= tiles@);
        }
    }

    /// Notifies that a tile is evicted.
    pub fn evict_tile(&mut self, tile: TileIndex)
        ensures
            final(self).queue@ == old(self).queue@.push(Queued::Evicted(tile)),
            final(self).visible == old(self).visible,
            final(self).speculative == old(self).speculative,
            final(self).closed == old(self).closed,
    {
        self.queue.push(Queued::Evicted(tile));
    }

    /// Notifies that the channel is ready to close.
    pub fn close(&mut self)
        ensures
            final(self).queue@ == old(self).queue@.push(Queued::End),
            final(self).visible == old(self).visible,
            final(self).speculative == old(self).speculative,
            final(self).closed == old(self).closed,
    {
        self.queue.push(Queued::End);
    }

    /// Receives the next live request: queued tiles are classified against
    /// the snapshot as they are dequeued, and stale ones are dropped.
    pub fn next_request(&mut self) -> (r: ChannelPoll)
        ensures
            final(self).visible == old(self).visible,
            final(self).speculative == old(self).speculative,
            old(self).closed ==> r == ChannelPoll::Closed && *final(self) == *old(self),
            !old(self).closed ==> {
                &&& r == spec_drain(old(self).queue@, old(self).visible@, old(self).speculative@).0
                &&& final(self).queue@
                    == spec_drain(old(self).queue@, old(self).visible@, old(self).speculative@).1
                &&& final(self).closed == (r == ChannelPoll::Closed)
            },
    {
        if self.closed {
            return ChannelPoll::Closed;
        }
        loop
            invariant
                !self.closed,
                !old(self).closed,
                self.visible == old(self).visible,
                self.speculative == old(self).speculative,
                spec_drain(old(self).queue@, old(self).visible@, old(self).speculative@)
                    == spec_drain(self.queue@, self.visible@, self.speculative@),
            decreases self.queue@.len(),
        {
            if self.queue.len() == 0 {
                return ChannelPoll::Empty;
            }
            let item = self.queue.remove(0);
            match item {
                Queued::Pending(t) => {
                    if contains_tile(&self.visible, &t) {
                        return ChannelPoll::Request(TileRequest::Tile(t));
                    } else if contains_tile(&self.speculative, &t) {
                        return ChannelPoll::Request(TileRequest::Speculate(t));
                    }
                    // Stale: drop and keep scanning.
                },
                Queued::Evicted(t) => {
                    return ChannelPoll::Request(TileRequest::Evicted(t));
                },
                Queued::End => {
                    self.closed = true;
                    return ChannelPoll::Closed;
                },
            }
        }
    }
}

} // verus!
