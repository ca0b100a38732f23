//! Tests of the tile request channel model and the fetcher's in-flight
//! set.

use ridemap::fetcher::{FetchAction, InFlightSet};
use ridemap::geom::TileIndex;
use ridemap::tile_channel::{tile_channel, ChannelPoll, TileRequest};

fn t(n: u32) -> TileIndex {
    TileIndex { z: 3, x: n, y: 0 }
}

#[test]
fn channel_stale_requests_dropped() {
    // Send [t1, t2, t3] as visible; before the consumer drains, replace
    // the visible set with [t4, t5]. Only t4 and t5 come out.
    let mut ch = tile_channel();
    ch.request_tiles(Some(vec![t(1), t(2), t(3)]), vec![]);
    ch.request_tiles(Some(vec![t(4), t(5)]), vec![]);
    assert_eq!(ch.next_request(), ChannelPoll::Request(TileRequest::Tile(t(4))));
    assert_eq!(ch.next_request(), ChannelPoll::Request(TileRequest::Tile(t(5))));
    assert_eq!(ch.next_request(), ChannelPoll::Empty);
}

#[test]
fn channel_speculative_classification() {
    // A tile that moved from the visible set to the speculative set is
    // dequeued in its speculative form.
    let mut ch = tile_channel();
    ch.request_tiles(Some(vec![t(1)]), vec![t(2)]);
    ch.request_tiles(Some(vec![t(3)]), vec![t(1)]);
    // t1 is now merely speculative, t2 is stale, t3 is visible, and the
    // re-sent t1 stays speculative.
    assert_eq!(ch.next_request(), ChannelPoll::Request(TileRequest::Speculate(t(1))));
    assert_eq!(ch.next_request(), ChannelPoll::Request(TileRequest::Tile(t(3))));
    assert_eq!(ch.next_request(), ChannelPoll::Request(TileRequest::Speculate(t(1))));
    assert_eq!(ch.next_request(), ChannelPoll::Empty);
}

#[test]
fn channel_eviction_and_close() {
    let mut ch = tile_channel();
    ch.evict_tile(t(7));
    ch.close();
    assert_eq!(ch.next_request(), ChannelPoll::Request(TileRequest::Evicted(t(7))));
    assert_eq!(ch.next_request(), ChannelPoll::Closed);
    assert_eq!(ch.next_request(), ChannelPoll::Closed);
}

#[test]
fn in_flight_deduplicates() {
    let mut set = InFlightSet::new();
    assert_eq!(set.on_request(TileRequest::Tile(t(1))), FetchAction::Fetch(t(1)));
    assert_eq!(
        set.on_request(TileRequest::Speculate(t(1))),
        FetchAction::AlreadyRequested(t(1))
    );
    assert_eq!(set.on_request(TileRequest::Evicted(t(1))), FetchAction::Forgotten(t(1)));
    // After the eviction the tile can be fetched again.
    assert_eq!(set.on_request(TileRequest::Tile(t(1))), FetchAction::Fetch(t(1)));
    assert_eq!(
        set.on_request(TileRequest::Evicted(t(9))),
        FetchAction::UnknownEviction(t(9))
    );
    assert_eq!(set.on_request(TileRequest::End), FetchAction::Finished);
}

#[test]
fn channel_speculative_batch_after_visible() {
    // Within one send, the visible batch is enqueued before the
    // speculative batch.
    let mut ch = tile_channel();
    ch.request_tiles(Some(vec![t(1)]), vec![t(2)]);
    assert_eq!(ch.next_request(), ChannelPoll::Request(TileRequest::Tile(t(1))));
    assert_eq!(ch.next_request(), ChannelPoll::Request(TileRequest::Speculate(t(2))));
    assert_eq!(ch.next_request(), ChannelPoll::Empty);
}
