//! Decoder for Google-encoded polylines.
//!
//! An encoded polyline is an ASCII byte stream. Each signed integer is
//! formed by reading base-64 chunks of 5 bits, least significant first,
//! until a chunk with the `0x20` continuation bit clear; the resulting
//! unsigned value is ZigZag-decoded (if the LSB is set, bitwise-NOT the
//! whole 32-bit value; arithmetic right-shift by 1). Values come in
//! (Δlat, Δlon) pairs.

use vstd::prelude::*;
use vstd::string::StringSliceAdditionalSpecFns;
use crate::geom::Point;

verus! {

/// One base-64 digit of the stream: the byte minus 63, meaningful only
/// when the result is below 64.
pub open spec fn digit_of(b: u8) -> int {
    b - 63
}

/// Reads one unsigned value from `s` starting at `i`, least significant
/// 5-bit chunk first: `Some((value, next))` with the index just past the
/// value, or `None` on a bad digit or when the stream ends mid-value.
/// The value is unbounded here; the executable decoder additionally
/// rejects values that do not fit 32 bits.
pub open spec fn raw_value_at(s: Seq<u8>, i: int) -> Option<(nat, int)>
    decreases s.len() - i,
{
    if i < 0 || i >= s.len() {
        None
    } else {
        let d = digit_of(s[i]);
        if !(0 <= d < 64) {
            None
        } else if d < 32 {
            Some((d as nat, i + 1))
        } else {
            match raw_value_at(s, i + 1) {
                None => None,
                Some((v, j)) => Some((((d - 32) + 32 * v) as nat, j)),
            }
        }
    }
}

/// ZigZag decoding of the stream's unsigned values: if the LSB is set,
/// complement the whole 32-bit word; then interpret the word as a signed
/// 32-bit integer and halve it.
pub open spec fn zigzag_dec(v: nat) -> int
    recommends v <= u32::MAX,
{
    let w = if v % 2 == 1 { (u32::MAX - v) as nat } else { v };
    let s = if w < 0x8000_0000 { w as int } else { w - 0x1_0000_0000 };
    s / 2
}

/// Decodes the whole stream from `i` as (Δlat, Δlon) pairs; `None` on a
/// bad digit, a value over 32 bits, or a lone first half of a pair.
pub open spec fn decode_points(s: Seq<u8>, i: int) -> Option<Seq<Point<i32>>>
    decreases s.len() - i,
{
    if i == s.len() {
        Some(Seq::empty())
    } else {
        match raw_value_at(s, i) {
            None => None,
            Some((vx, j)) => {
                if vx > u32::MAX || !(i < j <= s.len()) {
                    None
                } else {
                    match raw_value_at(s, j) {
                        None => None,
                        Some((vy, k)) => {
                            if vy > u32::MAX || !(j < k <= s.len()) {
                                None
                            } else {
                                match decode_points(s, k) {
                                    None => None,
                                    Some(rest) => Some(
                                        seq![
                                            Point {
                                                x: zigzag_dec(vx) as i32,
                                                y: zigzag_dec(vy) as i32,
                                            }
                                        ] + rest,
                                    ),
                                }
                            }
                        }
                    }
                }
            }
        }
    }
}

/// The running sums of a delta sequence: entry `i` is the sum of the
/// first `i + 1` deltas.
pub open spec fn spec_absolute(deltas: Seq<Point<i32>>, i: int) -> Point<int>
    recommends 0 <= i < deltas.len(),
    decreases i,
{
    if i <= 0 {
        Point { x: deltas[0].x as int, y: deltas[0].y as int }
    } else {
        let prev = spec_absolute(deltas, i - 1);
        Point { x: prev.x + deltas[i].x, y: prev.y + deltas[i].y }
    }
}

/// A polyline stored as a starting point followed by relative increments,
/// all in scaled (1e5) latitude-longitude coordinates: `x` is latitude,
/// `y` longitude.
#[derive(Clone, Debug)]
pub struct Polyline {
    /// The decoded (Δlat, Δlon) pairs; the first pair is absolute.
    pub points: Vec<Point<i32>>,
}

impl Polyline {
    /// Reads a base-64 digit at position `i`, if it is valid.
    fn get_base64_digit(bytes: &[u8], i: usize) -> (r: Option<u8>)
        requires
            i < bytes@.len(),
        ensures
            0 <= digit_of(bytes@[i as int]) < 64 ==> r == Some(digit_of(bytes@[i as int]) as u8),
            !(0 <= digit_of(bytes@[i as int]) < 64) ==> r is None,
    {
        let b = bytes[i];
        if b >= 63 && b - 63 < 64 {
            Some(b - 63)
        } else {
            None
        }
    }

    /// Reads an encoded unsigned value starting at position `i`, returning
    /// the value and the position just past it. Values beyond 32 bits are
    /// rejected.
    fn get_raw_value(bytes: &[u8], i: usize) -> (r: Option<(u32, usize)>)
        requires
            i <= bytes@.len(),
        ensures
            match r {
                Some((v, j)) => {
                    &&& raw_value_at(bytes@, i as int) == Some((v as nat, j as int))
                    &&& i < j <= bytes@.len()
                },
                None => {
                    match raw_value_at(bytes@, i as int) {
                        None => true,
                        Some((v, j)) => v > u32::MAX,
                    }
                },
            },
    {
        let ghost s = bytes@;
        let mut value: u64 = 0;
        let mut k: u64 = 0;
        let mut pos = i;
        proof { lemma_pow2_5k_values(); }
        loop
            invariant
                i <= pos <= s.len(),
                s == bytes@,
                k <= pos - i,
                value < pow2_5k(if k <= 7 { k as nat } else { 7 }),
                // Reading the remaining chunks and weighting them by what is
                // already consumed reconstructs the whole value.
                match raw_value_at(s, pos as int) {
                    None => raw_value_at(s, i as int) is None,
                    Some((v, j)) => raw_value_at(s, i as int)
                        == Some(((value + pow2_5k(k as nat) * v) as nat, j)),
                },
            decreases s.len() - pos,
        {
            if pos >= bytes.len() {
                return None;
            }
            let d = match Self::get_base64_digit(bytes, pos) {
                Some(d) => d,
                None => {
                    return None;
                },
            };
            let c = d % 32;
            let ghost vrest = match raw_value_at(s, pos as int) {
                Some((v, j)) => v,
                None => 0,
            };
            proof {
                lemma_pow2_5k_values();
                lemma_pow2_5k_increases(0, k as nat);
            }
            if k < 7 {
                let p = pow2_5k_u64(k as u32);
                proof {
                    assert((c as int) * (p as int) <= 31 * 0x4000_0000) by (nonlinear_arith)
                        requires c <= 31, 0 <= p <= 0x4000_0000;
                }
                let add = (c as u64) * p;
                proof {
                    assert(value + add < pow2_5k((k + 1) as nat)) by (nonlinear_arith)
                        requires
                            value < pow2_5k(k as nat),
                            add == c * pow2_5k(k as nat),
                            c < 32,
                            pow2_5k((k + 1) as nat) == 32 * pow2_5k(k as nat),
                            pow2_5k(k as nat) >= 1;
                    lemma_pow2_5k_increases((k + 1) as nat, 8);
                }
                value = value + add;
            } else if c != 0 {
                // A non-zero chunk at weight 32^7 or beyond pushes the
                // total past 32 bits.
                proof {
                    lemma_pow2_5k_increases(7, k as nat);
                    if raw_value_at(s, pos as int) is Some {
                        assert(vrest >= 1);
                        assert(pow2_5k(k as nat) * vrest >= pow2_5k(7)) by (nonlinear_arith)
                            requires vrest >= 1, pow2_5k(k as nat) >= pow2_5k(7);
                    }
                }
                return None;
            }
            if d < 32 {
                // Continuation bit clear: this chunk terminates the value.
                proof {
                    assert(raw_value_at(s, pos as int) == Some((c as nat, pos + 1 as int)));
                    if k >= 7 {
                        assert(pow2_5k(k as nat) * vrest == 0) by (nonlinear_arith)
                            requires vrest == 0;
                    } else {
                        let oldv = (value - c * pow2_5k(k as nat)) as nat;
                        assert(oldv + pow2_5k(k as nat) * c == value) by (nonlinear_arith)
                            requires value == oldv + c * pow2_5k(k as nat);
                    }
                }
                if value <= 0xFFFF_FFFF {
                    return Some((value as u32, pos + 1));
                } else {
                    return None;
                }
            }
            // Continuation bit set: the chunk weights shift up one step.
            proof {
                let ghost vnext = if raw_value_at(s, pos + 1 as int) is Some {
                    raw_value_at(s, pos + 1 as int).unwrap().0
                } else {
                    0
                };
                if raw_value_at(s, pos + 1 as int) is Some {
                    assert(vrest == c + 32 * vnext);
                    if k < 7 {
                        let oldv = (value - c * pow2_5k(k as nat)) as nat;
                        assert(oldv + pow2_5k(k as nat) * (c + 32 * vnext)
                            == value + pow2_5k((k + 1) as nat) * vnext) by (nonlinear_arith)
                            requires
                                value == oldv + c * pow2_5k(k as nat),
                                pow2_5k((k + 1) as nat) == 32 * pow2_5k(k as nat);
                    } else {
                        assert(value + pow2_5k(k as nat) * (c + 32 * vnext)
                            == value + pow2_5k((k + 1) as nat) * vnext) by (nonlinear_arith)
                            requires
                                c == 0,
                                pow2_5k((k + 1) as nat) == 32 * pow2_5k(k as nat);
                    }
                }
                lemma_pow2_5k_unfold((k + 1) as nat);
            }
            pos = pos + 1;
            k = k + 1;
        }
    }

    /// Reads an encoded signed value starting at position `i`: the unsigned
    /// value, ZigZag-decoded.
    fn get_value(bytes: &[u8], i: usize) -> (r: Option<(i32, usize)>)
        requires
            i <= bytes@.len(),
        ensures
            match r {
                Some((x, j)) => {
                    &&& raw_value_at(bytes@, i as int) matches Some((v, jj))
                        && jj == j && v <= u32::MAX && x == zigzag_dec(v)
                    &&& i < j <= bytes@.len()
                },
                None => {
                    match raw_value_at(bytes@, i as int) {
                        None => true,
                        Some((v, j)) => v > u32::MAX,
                    }
                },
            },
    {
        match Self::get_raw_value(bytes, i) {
            None => None,
            Some((v, j)) => {
                let w: u32 = if v % 2 == 1 { u32::MAX - v } else { v };
                let x: i32 = if w < 0x8000_0000 {
                    (w / 2) as i32
                } else {
                    ((w / 2) as i64 - 0x8000_0000) as i32
                };
                Some((x, j))
            },
        }
    }

    /// Decodes a polyline encoded with Google's algorithm: `None` on a bad
    /// digit, a value beyond 32 bits, or a lone first half of a pair.
    pub fn new(encoded: &str) -> (r: Option<Self>)
        ensures
            match r {
                Some(p) => decode_points(encoded.spec_bytes(), 0) == Some(p.points@),
                None => decode_points(encoded.spec_bytes(), 0) is None,
            },
    {
        let bytes = encoded.as_bytes();
        let ghost s = bytes@;
        let mut points: Vec<Point<i32>> = Vec::new();
        let mut pos: usize = 0;
        loop
            invariant
                pos <= s.len(),
                s == bytes@,
                s == encoded.spec_bytes(),
                // What has been decoded so far is a prefix: the final answer
                // is the prefix plus whatever decodes from `pos` on.
                match decode_points(s, pos as int) {
                    None => decode_points(s, 0) is None,
                    Some(rest) => decode_points(s, 0) == Some(points@ + rest),
                },
            decreases s.len() - pos,
        {
            if pos >= bytes.len() {
                proof {
                    assert(decode_points(s, pos as int) == Some(Seq::<Point<i32>>::empty()));
                    assert(points@ + Seq::<Point<i32>>::empty() =~= points@);
                }
                return Some(Polyline { points });
            }
            let (x, j) = match Self::get_value(bytes, pos) {
                Some(p) => p,
                None => {
                    return None;
                },
            };
            let (y, k) = match Self::get_value(bytes, j) {
                Some(p) => p,
                None => {
                    return None;
                },
            };
            proof {
                let rest0 = decode_points(s, pos as int);
                let rest1 = decode_points(s, k as int);
                if rest1 is Some {
                    assert(rest0 == Some(seq![Point { x, y }] + rest1.unwrap()));
                    assert((points@ + seq![Point { x, y }]) + rest1.unwrap()
                        =~= points@ + (seq![Point { x, y }] + rest1.unwrap()));
                }
            }
            points.push(Point { x, y });
            pos = k;
        }
    }

    /// Returns the number of points on the polyline.
    pub fn len(&self) -> (r: usize)
        ensures
            r == self.points@.len(),
    {
        self.points.len()
    }

    /// Checks whether the polyline contains any point.
    pub fn is_empty(&self) -> (r: bool)
        ensures
            r == (self.points@.len() == 0),
    {
        self.points.len() == 0
    }

    /// Accumulates the delta pairs into absolute scaled coordinates: entry
    /// `i` is the sum of the first `i + 1` deltas.
    pub fn absolute_points(&self) -> (r: Vec<Point<i64>>)
        requires
            self.points@.len() <= 0x7FFF_FFFF,
        ensures
            r@.len() == self.points@.len(),
            forall|i: int| 0 <= i < r@.len()
                ==> r@[i].x == spec_absolute(self.points@, i).x
                    && r@[i].y == spec_absolute(self.points@, i).y,
    {
        let mut result: Vec<Point<i64>> = Vec::new();
        let mut cx: i64 = 0;
        let mut cy: i64 = 0;
        let n = self.points.len();
        let mut i: usize = 0;
        while i < n
            invariant
                n == self.points@.len() <= 0x7FFF_FFFF,
                i <= n,
                result@.len() == i,
                i > 0 ==> cx == spec_absolute(self.points@, i - 1).x
                    && cy == spec_absolute(self.points@, i - 1).y,
                i == 0 ==> cx == 0 && cy == 0,
                -0x4000_0000_0000_0000 <= cx <= 0x4000_0000_0000_0000,
                -0x4000_0000_0000_0000 <= cy <= 0x4000_0000_0000_0000,
                forall|j: int| 0 <= j < i
                    ==> result@[j].x == spec_absolute(self.points@, j).x
                        && result@[j].y == spec_absolute(self.points@, j).y,
            decreases n - i,
        {
            proof {
                lemma_spec_absolute_bound(self.points@, i as int);
            }
            cx = cx + self.points[i].x as i64;
            cy = cy + self.points[i].y as i64;
            result.push(Point { x: cx, y: cy });
            i = i + 1;
        }
        result
    }
}

/// ZigZag encoding: non-negative values to even, negative to odd.
pub open spec fn zigzag_enc(n: int) -> nat
    recommends -0x4000_0000 <= n < 0x4000_0000,
{
    if n >= 0 {
        (2 * n) as nat
    } else {
        (-2 * n - 1) as nat
    }
}

/// Encodes one unsigned value as base-64 chunks of 5 bits, least
/// significant first, the continuation bit set on all but the last.
pub open spec fn encode_uint(v: nat) -> Seq<u8>
    decreases v,
{
    if v < 32 {
        seq![(v + 63) as u8]
    } else {
        seq![(v % 32 + 32 + 63) as u8] + encode_uint(v / 32)
    }
}

/// Encodes one (Δlat, Δlon) pair.
pub open spec fn encode_pair(p: Point<i32>) -> Seq<u8> {
    encode_uint(zigzag_enc(p.x as int)) + encode_uint(zigzag_enc(p.y as int))
}

/// Encodes a delta sequence as a polyline byte stream.
pub open spec fn encode_points(ps: Seq<Point<i32>>) -> Seq<u8>
    decreases ps.len(),
{
    if ps.len() == 0 {
        Seq::empty()
    } else {
        encode_pair(ps[0]) + encode_points(ps.drop_first())
    }
}

/// Reading an encoded unsigned value back yields the value and stops just
/// past its chunks, whatever follows in the stream.
proof fn lemma_raw_roundtrip(s: Seq<u8>, i: int, v: nat)
    requires
        0 <= i,
        i + encode_uint(v).len() <= s.len(),
        forall|t: int| 0 <= t < encode_uint(v).len() ==> s[i + t] == encode_uint(v)[t],
    ensures
        raw_value_at(s, i) == Some((v, i + encode_uint(v).len())),
    decreases v,
{
    if v < 32 {
        assert(s[i + 0] == encode_uint(v)[0]);
        assert(digit_of(s[i]) == v);
    } else {
        assert(s[i + 0] == encode_uint(v)[0]);
        assert(digit_of(s[i]) == v % 32 + 32);
        assert(0 <= v % 32 < 32);
        let rest = encode_uint(v / 32);
        assert forall|t: int| 0 <= t < rest.len() implies s[i + 1 + t] == rest[t] by {
            assert(s[i + (t + 1)] == encode_uint(v)[t + 1]);
        }
        assert(v / 32 < v);
        lemma_raw_roundtrip(s, i + 1, v / 32);
        assert(v % 32 + 32 * (v / 32) == v) by {
            vstd::arithmetic::div_mod::lemma_fundamental_div_mod(v as int, 32);
        }
    }
}

/// ZigZag decoding undoes ZigZag encoding on the in-range deltas.
proof fn lemma_zigzag_roundtrip(n: int)
    requires
        -0x4000_0000 <= n < 0x4000_0000,
    ensures
        zigzag_enc(n) <= u32::MAX,
        zigzag_dec(zigzag_enc(n)) == n,
{
    let v = zigzag_enc(n);
    if n >= 0 {
        assert(v == 2 * n && v % 2 == 0);
        assert(v / 2 == n);
    } else {
        assert(v == -2 * n - 1 && v % 2 == 1);
        let w = (u32::MAX - v) as nat;
        assert(w == 0x1_0000_0000 + 2 * n);
        assert(w >= 0x8000_0000);
        assert((2 * n) / 2 == n);
    }
}

/// Decoding picks up the encoded deltas from position `i` on, given that
/// the rest of the stream from `i` is exactly their encoding.
proof fn lemma_decode_encode_at(s: Seq<u8>, i: int, ps: Seq<Point<i32>>)
    requires
        0 <= i,
        i + encode_points(ps).len() == s.len(),
        forall|t: int| 0 <= t < encode_points(ps).len() ==> s[i + t] == encode_points(ps)[t],
        forall|t: int| 0 <= t < ps.len()
            ==> -0x4000_0000 <= #[trigger] ps[t].x < 0x4000_0000
                && -0x4000_0000 <= ps[t].y < 0x4000_0000,
    ensures
        decode_points(s, i) == Some(ps),
    decreases ps.len(),
{
    if ps.len() == 0 {
        assert(i == s.len());
    } else {
        let p = ps[0];
        let vx = zigzag_enc(p.x as int);
        let vy = zigzag_enc(p.y as int);
        let ex = encode_uint(vx);
        let ey = encode_uint(vy);
        let etail = encode_points(ps.drop_first());
        lemma_zigzag_roundtrip(p.x as int);
        lemma_zigzag_roundtrip(p.y as int);
        assert(encode_points(ps) == encode_pair(p) + etail);
        assert(encode_pair(p) == ex + ey);
        assert forall|t: int| 0 <= t < ex.len() implies s[i + t] == ex[t] by {
            assert(encode_points(ps)[t] == ex[t]);
        }
        lemma_raw_roundtrip(s, i, vx);
        let j = i + ex.len();
        assert forall|t: int| 0 <= t < ey.len() implies s[j + t] == ey[t] by {
            assert(encode_points(ps)[ex.len() + t] == ey[t]);
            assert(s[i + (ex.len() + t)] == encode_points(ps)[ex.len() + t]);
        }
        lemma_raw_roundtrip(s, j, vy);
        let k = j + ey.len();
        assert forall|t: int| 0 <= t < etail.len() implies s[k + t] == etail[t] by {
            assert(encode_points(ps)[ex.len() + ey.len() + t] == etail[t]);
            assert(s[i + (ex.len() + ey.len() + t)]
                == encode_points(ps)[ex.len() + ey.len() + t]);
        }
        assert forall|t: int| 0 <= t < ps.drop_first().len()
            implies -0x4000_0000 <= #[trigger] ps.drop_first()[t].x < 0x4000_0000
                && -0x4000_0000 <= ps.drop_first()[t].y < 0x4000_0000 by {
            assert(ps.drop_first()[t] == ps[t + 1]);
        }
        lemma_decode_encode_at(s, k, ps.drop_first());
        assert(decode_points(s, i) == Some(seq![Point { x: p.x, y: p.y }] + ps.drop_first()));
        assert(seq![Point { x: p.x, y: p.y }] + ps.drop_first() =~= ps);
    }
}

/// Law: decoding an encoded delta list gives the list back, for any
/// finite list of pairs whose deltas fit the ZigZag range.
pub proof fn lemma_polyline_roundtrip(ps: Seq<Point<i32>>)
    requires
        forall|t: int| 0 <= t < ps.len()
            ==> -0x4000_0000 <= #[trigger] ps[t].x < 0x4000_0000
                && -0x4000_0000 <= ps[t].y < 0x4000_0000,
    ensures
        decode_points(encode_points(ps), 0) == Some(ps),
{
    lemma_decode_encode_at(encode_points(ps), 0, ps);
}

/// `32^k`, the weight of the `k`-th 5-bit chunk.
pub open spec fn pow2_5k(k: nat) -> nat
    decreases k,
{
    if k == 0 {
        1
    } else {
        32 * pow2_5k((k - 1) as nat)
    }
}

/// One unfolding of the chunk weight.
proof fn lemma_pow2_5k_unfold(k: nat)
    requires
        k >= 1,
    ensures
        pow2_5k(k) == 32 * pow2_5k((k - 1) as nat),
{
}

/// The chunk weights needed by the decoder, written out.
proof fn lemma_pow2_5k_values()
    ensures
        pow2_5k(0) == 1,
        pow2_5k(1) == 32,
        pow2_5k(2) == 0x400,
        pow2_5k(3) == 0x8000,
        pow2_5k(4) == 0x10_0000,
        pow2_5k(5) == 0x200_0000,
        pow2_5k(6) == 0x4000_0000,
        pow2_5k(7) == 0x8_0000_0000,
        pow2_5k(8) == 0x100_0000_0000,
{
    reveal_with_fuel(pow2_5k, 10);
}

/// Computes `32^k` for the first seven chunks.
fn pow2_5k_u64(k: u32) -> (r: u64)
    requires
        k <= 6,
    ensures
        r == pow2_5k(k as nat),
{
    proof { lemma_pow2_5k_values(); }
    let mut r: u64 = 1;
    let mut i: u32 = 0;
    while i < k
        invariant
            i <= k <= 6,
            r == pow2_5k(i as nat),
            r <= 0x4000_0000,
        decreases k - i,
    {
        proof { lemma_pow2_5k_values(); }
        r = r * 32;
        i = i + 1;
    }
    r
}

/// `32^k` is positive.
proof fn lemma_pow2_5k_pos(k: nat)
    ensures
        pow2_5k(k) >= 1,
    decreases k,
{
    if k > 0 {
        lemma_pow2_5k_pos((k - 1) as nat);
        assert(32 * pow2_5k((k - 1) as nat) >= 1) by (nonlinear_arith)
            requires pow2_5k((k - 1) as nat) >= 1;
    }
}

/// `32^k` is monotone in `k`.
proof fn lemma_pow2_5k_increases(k1: nat, k2: nat)
    requires
        k1 <= k2,
    ensures
        pow2_5k(k1) <= pow2_5k(k2),
        pow2_5k(k2) >= 1,
    decreases k2,
{
    lemma_pow2_5k_pos(k2);
    if k2 > k1 {
        lemma_pow2_5k_increases(k1, (k2 - 1) as nat);
        assert(pow2_5k((k2 - 1) as nat) <= 32 * pow2_5k((k2 - 1) as nat)) by (nonlinear_arith)
            requires pow2_5k((k2 - 1) as nat) >= 0;
    }
}

/// Every running sum of at most `2^31` deltas, each below `2^31` in
/// magnitude, stays well within an `i64`.
proof fn lemma_spec_absolute_bound(deltas: Seq<Point<i32>>, i: int)
    requires
        0 <= i < deltas.len(),
        deltas.len() <= 0x7FFF_FFFF,
    ensures
        -0x4000_0000_0000_0000 <= spec_absolute(deltas, i).x <= 0x4000_0000_0000_0000,
        -0x4000_0000_0000_0000 <= spec_absolute(deltas, i).y <= 0x4000_0000_0000_0000,
        spec_absolute(deltas, i).x - 0x8000_0000 >= -0x4000_0000_0000_0000,
        spec_absolute(deltas, i).x + 0x8000_0000 <= 0x4000_0000_0000_0000,
        spec_absolute(deltas, i).y - 0x8000_0000 >= -0x4000_0000_0000_0000,
        spec_absolute(deltas, i).y + 0x8000_0000 <= 0x4000_0000_0000_0000,
    decreases i,
{
    lemma_spec_absolute_linear_bound(deltas, i);
}

/// The running sum after `i + 1` deltas is bounded by `(i + 1) * 2^31`.
proof fn lemma_spec_absolute_linear_bound(deltas: Seq<Point<i32>>, i: int)
    requires
        0 <= i < deltas.len(),
    ensures
        -(i + 1) * 0x8000_0000 <= spec_absolute(deltas, i).x <= (i + 1) * 0x8000_0000,
        -(i + 1) * 0x8000_0000 <= spec_absolute(deltas, i).y <= (i + 1) * 0x8000_0000,
    decreases i,
{
    if i > 0 {
        lemma_spec_absolute_linear_bound(deltas, i - 1);
    }
}

} // verus!
