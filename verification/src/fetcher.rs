//! The fetcher's side of the tile pipeline: the in-flight set that
//! deduplicates requests, the tile URL, and the PNG decoding step between
//! the fetched bytes and the message handed to the UI.

use vstd::prelude::*;
use crate::config::MapProvider;
use crate::geom::TileIndex;
use crate::text::{dec_str, append_u64};
use crate::tile_channel::TileRequest;

verus! {

/// What decoding a PNG byte stream yields: `None` when the bytes are not
/// a decodable image, otherwise the width, height and the RGBA pixel
/// buffer. The result depends on the bytes alone.
pub uninterp spec fn png_rgba(bytes: Seq<u8>) -> Option<(nat, nat, Seq<u8>)>;

/// Relies on image's `ImageReader::with_format` + `decode` for PNG, and
/// on `DynamicImage::to_rgba8` with `ImageBuffer::{width, height,
/// into_raw}`: the decoded image is returned as its dimensions and raw
/// RGBA buffer, which holds at least four bytes per pixel.
#[verifier::external_body]
fn decode_png_raw(bytes: &[u8]) -> (r: Option<(u32, u32, Vec<u8>)>)
    ensures
        match r {
            Some((w, h, p)) => png_rgba(bytes@) == Some((w as nat, h as nat, p@))
                && p@.len() >= 4 * w * h,
            None => png_rgba(bytes@) is None,
        },
{
    let reader = image::ImageReader::with_format(
        std::io::Cursor::new(bytes),
        image::ImageFormat::Png,
    );
    match reader.decode() {
        Ok(decoded) => {
            let img = decoded.to_rgba8();
            Some((img.width(), img.height(), img.into_raw()))
        },
        Err(_) => None,
    }
}

/// A tile decoded for the UI: its position, the raw bytes as fetched, and
/// the decoded RGBA raster.
pub struct DecodedTile {
    /// Position of this tile on the world map.
    pub index: TileIndex,
    /// Raw PNG bytes of this tile.
    pub png_image: Vec<u8>,
    /// Width of the decoded image.
    pub width: u32,
    /// Height of the decoded image.
    pub height: u32,
    /// Decoded pixels in RGBA order, four bytes per pixel.
    pub rgba_image: Vec<u8>,
}

/// Decodes fetched tile bytes into the message for the UI: `None` exactly
/// when the bytes do not decode as a PNG image, in which case the tile is
/// dropped and the pipeline continues.
pub fn decode_tile(index: TileIndex, bytes: Vec<u8>) -> (r: Option<DecodedTile>)
    ensures
        match r {
            Some(t) => {
                &&& png_rgba(bytes@) matches Some((w, h, p))
                    && t.width == w && t.height == h && t.rgba_image@ == p
                &&& t.index == index
                &&& t.png_image@ == bytes@
                &&& t.rgba_image@.len() >= 4 * t.width * t.height
            },
            None => png_rgba(bytes@) is None,
        },
{
    match decode_png_raw(bytes.as_slice()) {
        Some((width, height, rgba)) => Some(DecodedTile {
            index,
            png_image: bytes,
            width,
            height,
            rgba_image: rgba,
        }),
        None => None,
    }
}

/// The URL a tile is fetched from:
/// `https://{server}/{z}/{x}/{y}{extension}`.
pub open spec fn spec_tile_url(provider: MapProvider, index: TileIndex) -> Seq<char> {
    "https://"@ + provider.server@ + "/"@ + dec_str(index.z as nat) + "/"@
        + dec_str(index.x as nat) + "/"@ + dec_str(index.y as nat) + provider.extension@
}

/// Builds the URL to fetch the given tile from the given provider.
pub fn tile_url(provider: &MapProvider, index: &TileIndex) -> (r: String)
    ensures
        r@ == spec_tile_url(*provider, *index),
{
    let mut s = String::new();
    s.append("https://");
    s.append(provider.server.as_str());
    s.append("/");
    append_u64(&mut s, index.z as u64);
    s.append("/");
    append_u64(&mut s, index.x as u64);
    s.append("/");
    append_u64(&mut s, index.y as u64);
    s.append(provider.extension.as_str());
    proof {
        reveal_strlit("https://");
        reveal_strlit("/");
        assert(s@ =~= spec_tile_url(*provider, *index));
    }
    s
}

/// What the fetcher does with one incoming request.
#[derive(Clone, Copy, Debug, PartialEq, Eq, Structural)]
pub enum FetchAction {
    /// The tile is new: fetch it (disk cache first, then the network).
    Fetch(TileIndex),
    /// The tile is already in flight or loaded: drop the request.
    AlreadyRequested(TileIndex),
    /// The UI evicted the tile; it may be requested again later.
    Forgotten(TileIndex),
    /// The UI evicted a tile the fetcher never saw; worth a warning.
    UnknownEviction(TileIndex),
    /// The stream ended.
    Finished,
}

/// The set of tile indices for which a fetch is currently outstanding or
/// was completed and not evicted since.
pub struct InFlightSet {
    /// The requested tiles, each at most once.
    pub requested: Vec<TileIndex>,
}

impl InFlightSet {
    /// No tile appears twice.
    pub open spec fn wf(self) -> bool {
        forall|i: int, j: int| 0 <= i < j < self.requested@.len()
            ==> #[trigger] self.requested@[i] != #[trigger] self.requested@[j]
    }

    /// Whether the set holds the given tile.
    pub open spec fn contains_spec(self, t: TileIndex) -> bool {
        self.requested@.contains(t)
    }

    /// Creates an empty set.
    pub fn new() -> (r: Self)
        ensures
            r.wf(),
            r.requested@.len() == 0,
    {
        Self { requested: Vec::new() }
    }

    /// Finds the position of the given tile.
    fn find(&self, t: &TileIndex) -> (r: Option<usize>)
        ensures
            match r {
                Some(i) => i < self.requested@.len() && self.requested@[i as int] == *t,
                None => !self.contains_spec(*t),
            },
    {
        let mut i: usize = 0;
        let n = self.requested.len();
        while i < n
            invariant
                n == self.requested@.len(),
                i <= n,
                forall|j: int| 0 <= j < i ==> #[trigger] self.requested@[j] != *t,
            decreases n - i,
        {
            if self.requested[i] == *t {
                return Some(i);
            }
            i = i + 1;
        }
        proof {
            if self.requested@.contains(*t) {
                let j = choose|j: int| 0 <= j < n && self.requested@[j] == *t;
                assert(self.requested@[j] != *t);
            }
        }
        None
    }

    /// Adds the tile if it is not yet present; returns whether it was new.
    pub fn insert(&mut self, t: TileIndex) -> (r: bool)
        requires
            old(self).wf(),
        ensures
            final(self).wf(),
            r == !old(self).contains_spec(t),
            final(self).contains_spec(t),
            forall|x: TileIndex| final(self).contains_spec(x)
                <==> old(self).contains_spec(x) || x == t,
    {
        match self.find(&t) {
            Some(_) => {
                proof {
                    assert forall|x: TileIndex| self.contains_spec(x)
                        implies self.contains_spec(x) || x == t by {}
                }
                false
            },
            None => {
                self.requested.push(t);
                proof {
                    assert(self.requested@.last() == t);
                    assert(self.requested@.contains(t));
                    assert forall|x: TileIndex| #[trigger] self.contains_spec(x)
                        implies old(self).contains_spec(x) || x == t by {
                        let j = choose|j: int| 0 <= j < self.requested@.len()
                            && self.requested@[j] == x;
                        if j < self.requested@.len() - 1 {
                            assert(old(self).requested@[j] == x);
                        }
                    }
                    assert forall|x: TileIndex| old(self).contains_spec(x)
                        implies self.contains_spec(x) by {
                        let j = choose|j: int| 0 <= j < old(self).requested@.len()
                            && old(self).requested@[j] == x;
                        assert(self.requested@[j] == x);
                    }
                }
                true
            },
        }
    }

    /// Removes the tile if present; returns whether it was there.
    pub fn remove(&mut self, t: TileIndex) -> (r: bool)
        requires
            old(self).wf(),
        ensures
            final(self).wf(),
            r == old(self).contains_spec(t),
            !final(self).contains_spec(t),
            forall|x: TileIndex| final(self).contains_spec(x)
                <==> old(self).contains_spec(x) && x != t,
    {
        match self.find(&t) {
            None => false,
            Some(i) => {
                let ghost pre = self.requested@;
                self.requested.remove(i);
                proof {
                    assert forall|x: TileIndex| #[trigger] self.contains_spec(x)
                        implies old(self).contains_spec(x) && x != t by {
                        let j = choose|j: int| 0 <= j < self.requested@.len()
                            && self.requested@[j] == x;
                        if j < i {
                            assert(pre[j] == x);
                        } else {
                            assert(pre[j + 1] == x);
                        }
                    }
                    assert forall|x: TileIndex| old(self).contains_spec(x) && x != t
                        implies self.contains_spec(x) by {
                        let j = choose|j: int| 0 <= j < pre.len() && pre[j] == x;
                        if j < i {
                            assert(self.requested@[j] == x);
                        } else {
                            assert(self.requested@[j - 1] == x);
                        }
                    }
                }
                true
            },
        }
    }

    /// Decides what to do with one incoming request: a tile request is
    /// fetched only the first time (test-and-set on the in-flight set); an
    /// eviction forgets the tile so a later request can fetch it again,
    /// and is flagged when the fetcher never saw the tile.
    pub fn on_request(&mut self, req: TileRequest) -> (r: FetchAction)
        requires
            old(self).wf(),
        ensures
            final(self).wf(),
            match req {
                TileRequest::Tile(t) | TileRequest::Speculate(t) => {
                    &&& r == if old(self).contains_spec(t) {
                        FetchAction::AlreadyRequested(t)
                    } else {
                        FetchAction::Fetch(t)
                    }
                    &&& (forall|x: TileIndex| final(self).contains_spec(x)
                            <==> old(self).contains_spec(x) || x == t)
                },
                TileRequest::Evicted(t) => {
                    &&& r == if old(self).contains_spec(t) {
                        FetchAction::Forgotten(t)
                    } else {
                        FetchAction::UnknownEviction(t)
                    }
                    &&& (forall|x: TileIndex| final(self).contains_spec(x)
                            <==> old(self).contains_spec(x) && x != t)
                },
                TileRequest::End => r == FetchAction::Finished && *final(self) == *old(self),
            },
    {
        match req {
            TileRequest::Tile(t) | TileRequest::Speculate(t) => {
                if self.insert(t) {
                    FetchAction::Fetch(t)
                } else {
                    FetchAction::AlreadyRequested(t)
                }
            },
            TileRequest::Evicted(t) => {
                if self.remove(t) {
                    FetchAction::Forgotten(t)
                } else {
                    FetchAction::UnknownEviction(t)
                }
            },
            TileRequest::End => FetchAction::Finished,
        }
    }
}

} // verus!
