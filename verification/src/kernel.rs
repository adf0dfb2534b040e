//! The frame-differencing kernel: one score and one dispersion estimate for a
//! pair of frames, over the pixels that a mask lets through.

use vstd::prelude::*;
use crate::fixed::{SCALE, sqrt_floor, sqrt_floor_u64, lemma_quotient_bounded, lemma_sqrt_floor_zero};
use crate::frame::{RgbFrame, GrayMask};

verus! {

/// The largest distance between two pixels: three channels, each 255 apart.
pub const MAX_PIXEL_DISTANCE: u64 = 195_075;

/// The largest score a frame pair can get, in thousandths.
pub const MAX_CHANGE: u64 = 195_075_000;

/// Squared difference of one channel.
pub open spec fn channel_gap(a: u8, b: u8) -> nat {
    ((a - b) * (a - b)) as nat
}

/// Squared distance between pixel `i` of `a` and pixel `i` of `b`: the sum of
/// the squared differences of its three channels.
pub open spec fn pixel_distance(a: Seq<u8>, b: Seq<u8>, i: int) -> nat {
    channel_gap(a[3 * i], b[3 * i]) + channel_gap(a[3 * i + 1], b[3 * i + 1]) + channel_gap(
        a[3 * i + 2],
        b[3 * i + 2],
    )
}

/// Whether pixel `i` takes part: always without a mask; with one, where the
/// mask is zero or has no byte for the pixel.
pub open spec fn pixel_included(mask: Option<Seq<u8>>, i: int) -> bool {
    match mask {
        None => true,
        Some(m) => i >= m.len() || m[i] == 0,
    }
}

/// Number of whole pixels in a buffer of RGB bytes.
pub open spec fn pixel_count(bytes: Seq<u8>) -> nat {
    bytes.len() / 3
}

/// Squared difference of two fixed-point values, in millionths.
pub open spec fn square_gap(x: nat, y: nat) -> nat {
    ((x - y) * (x - y)) as nat
}

/// Running totals over the pixels seen so far.
pub struct Tally {
    /// Pixels that took part.
    pub count: nat,
    /// Sum of their distances.
    pub sum: nat,
    /// Sum, in millionths, of the squared gaps between each distance and the
    /// mean of the distances before it.
    pub spread: nat,
}

/// The totals once a pixel at distance `d` has taken part. The gap is taken
/// against the mean of the pixels before this one, so the first pixel adds no
/// spread.
pub open spec fn tally_add(t: Tally, d: nat) -> Tally {
    Tally {
        count: t.count + 1,
        sum: t.sum + d,
        spread: if t.count > 0 {
            t.spread + square_gap(d * SCALE as nat, t.sum * SCALE as nat / t.count)
        } else {
            t.spread
        },
    }
}

/// The totals over the first `k` pixels of `a` and `b`, in row-major order.
pub open spec fn tally(a: Seq<u8>, b: Seq<u8>, mask: Option<Seq<u8>>, k: nat) -> Tally
    decreases k,
{
    if k == 0 {
        Tally { count: 0, sum: 0, spread: 0 }
    } else {
        let before = tally(a, b, mask, (k - 1) as nat);
        if pixel_included(mask, k - 1) {
            tally_add(before, pixel_distance(a, b, k - 1))
        } else {
            before
        }
    }
}

/// Score of one frame pair, in thousandths.
#[derive(Clone, Copy, Debug, PartialEq, Eq, Structural)]
pub struct MotionDetectionResult {
    /// Mean distance of the pixels that took part.
    pub average: u64,
    /// Dispersion of their distances: the square root of the mean squared gap
    /// to the running mean.
    pub std_dev_estimate: u64,
}

/// What comparing `a` with `b` under `mask` gives: nothing when no pixel takes
/// part, else the mean distance and the dispersion estimate.
pub open spec fn frame_score(a: Seq<u8>, b: Seq<u8>, mask: Option<Seq<u8>>) -> Option<
    MotionDetectionResult,
> {
    let t = tally(a, b, mask, pixel_count(a));
    if t.count == 0 {
        None
    } else {
        Some(
            MotionDetectionResult {
                average: (t.sum * SCALE as nat / t.count) as u64,
                std_dev_estimate: sqrt_floor(t.spread / t.count) as u64,
            },
        )
    }
}

/// The bytes of an optional mask.
pub open spec fn mask_bytes(mask: Option<&GrayMask>) -> Option<Seq<u8>> {
    match mask {
        Some(m) => Some(m@.data),
        None => None,
    }
}

/// The totals never outgrow what `count` pixels at the largest distance give.
pub proof fn lemma_tally_bounds(a: Seq<u8>, b: Seq<u8>, mask: Option<Seq<u8>>, k: nat)
    ensures
        tally(a, b, mask, k).count <= k,
        tally(a, b, mask, k).sum <= tally(a, b, mask, k).count * MAX_PIXEL_DISTANCE,
        tally(a, b, mask, k).spread <= tally(a, b, mask, k).count * (MAX_CHANGE * MAX_CHANGE),
    decreases k,
{
    if k > 0 {
        lemma_tally_bounds(a, b, mask, (k - 1) as nat);
        let before = tally(a, b, mask, (k - 1) as nat);
        if pixel_included(mask, k - 1) {
            let d = pixel_distance(a, b, k - 1);
            lemma_pixel_distance_bounded(a, b, k - 1);
            lemma_tally_add_bounds(before, d);
        }
    }
}

/// No two pixels are further apart than `MAX_PIXEL_DISTANCE`.
pub proof fn lemma_pixel_distance_bounded(a: Seq<u8>, b: Seq<u8>, i: int)
    ensures
        pixel_distance(a, b, i) <= MAX_PIXEL_DISTANCE,
{
    lemma_channel_gap_bounded(a[3 * i], b[3 * i]);
    lemma_channel_gap_bounded(a[3 * i + 1], b[3 * i + 1]);
    lemma_channel_gap_bounded(a[3 * i + 2], b[3 * i + 2]);
}

proof fn lemma_channel_gap_bounded(a: u8, b: u8)
    ensures
        channel_gap(a, b) <= 65025,
{
    let d: int = a - b;
    assert(0 <= d * d <= 65025) by (nonlinear_arith)
        requires
            -255 <= d <= 255,
    ;
}

/// Adding one pixel keeps the totals within their bounds.
pub proof fn lemma_tally_add_bounds(t: Tally, d: nat)
    requires
        d <= MAX_PIXEL_DISTANCE,
        t.sum <= t.count * MAX_PIXEL_DISTANCE,
        t.spread <= t.count * (MAX_CHANGE * MAX_CHANGE),
    ensures
        tally_add(t, d).sum <= tally_add(t, d).count * MAX_PIXEL_DISTANCE,
        tally_add(t, d).spread <= tally_add(t, d).count * (MAX_CHANGE * MAX_CHANGE),
        t.count > 0 ==> t.sum * SCALE as nat / t.count <= MAX_CHANGE,
        t.count > 0 ==> square_gap(d * SCALE as nat, t.sum * SCALE as nat / t.count) <= MAX_CHANGE
            * MAX_CHANGE,
{
    assert((t.count + 1) * (MAX_CHANGE * MAX_CHANGE) == t.count * (MAX_CHANGE * MAX_CHANGE)
        + MAX_CHANGE * MAX_CHANGE) by (nonlinear_arith);
    if t.count > 0 {
        let mean = t.sum * SCALE as nat / t.count;
        assert(t.sum * SCALE as nat <= MAX_CHANGE as nat * t.count) by (nonlinear_arith)
            requires
                t.sum <= t.count * MAX_PIXEL_DISTANCE,
                MAX_CHANGE == MAX_PIXEL_DISTANCE * SCALE,
        ;
        lemma_quotient_bounded(t.sum * SCALE as nat, t.count, MAX_CHANGE as nat);
        let gap: int = d * SCALE as nat - mean;
        assert(0 <= gap * gap <= MAX_CHANGE * MAX_CHANGE) by (nonlinear_arith)
            requires
                -(MAX_CHANGE as int) <= gap <= MAX_CHANGE as int,
        ;
    }
}

/// Comparing a frame with itself finds no distance anywhere.
pub proof fn lemma_tally_identical(f: Seq<u8>, mask: Option<Seq<u8>>, k: nat)
    ensures
        tally(f, f, mask, k).sum == 0,
        tally(f, f, mask, k).spread == 0,
    decreases k,
{
    if k > 0 {
        lemma_tally_identical(f, mask, (k - 1) as nat);
        let before = tally(f, f, mask, (k - 1) as nat);
        if before.count > 0 {
            assert(0 * SCALE as nat / before.count == 0) by (nonlinear_arith)
                requires
                    before.count > 0,
            ;
        }
    }
}

/// The totals do not depend on which frame comes first.
pub proof fn lemma_tally_symmetric(a: Seq<u8>, b: Seq<u8>, mask: Option<Seq<u8>>, k: nat)
    ensures
        tally(a, b, mask, k) == tally(b, a, mask, k),
    decreases k,
{
    if k > 0 {
        lemma_tally_symmetric(a, b, mask, (k - 1) as nat);
        lemma_pixel_distance_symmetric(a, b, k - 1);
    }
}

/// The distance between two pixels does not depend on their order.
pub proof fn lemma_pixel_distance_symmetric(a: Seq<u8>, b: Seq<u8>, i: int)
    ensures
        pixel_distance(a, b, i) == pixel_distance(b, a, i),
{
    lemma_channel_gap_symmetric(a[3 * i], b[3 * i]);
    lemma_channel_gap_symmetric(a[3 * i + 1], b[3 * i + 1]);
    lemma_channel_gap_symmetric(a[3 * i + 2], b[3 * i + 2]);
}

proof fn lemma_channel_gap_symmetric(a: u8, b: u8)
    ensures
        channel_gap(a, b) == channel_gap(b, a),
{
    assert((a - b) * (a - b) == (b - a) * (b - a)) by (nonlinear_arith);
}

/// A frame compared with itself scores zero on both counts, under any mask
/// that lets at least one pixel through.
pub proof fn law_identical_frames_score_zero(f: Seq<u8>, mask: Option<Seq<u8>>)
    requires
        tally(f, f, mask, pixel_count(f)).count > 0,
    ensures
        frame_score(f, f, mask) == Some(MotionDetectionResult { average: 0, std_dev_estimate: 0 }),
{
    lemma_tally_identical(f, mask, pixel_count(f));
    lemma_sqrt_floor_zero();
    let t = tally(f, f, mask, pixel_count(f));
    assert(0 * SCALE as nat / t.count == 0) by (nonlinear_arith)
        requires
            t.count > 0,
    ;
    assert(0nat / t.count == 0) by (nonlinear_arith)
        requires
            t.count > 0,
    ;
}

/// Swapping the two frames changes nothing in the score: each pixel's
/// distance is a sum of squares.
pub proof fn law_score_symmetric(a: Seq<u8>, b: Seq<u8>, mask: Option<Seq<u8>>)
    requires
        a.len() == b.len(),
    ensures
        frame_score(a, b, mask) == frame_score(b, a, mask),
{
    lemma_tally_symmetric(a, b, mask, pixel_count(a));
}

/// Every score lies between zero and `MAX_CHANGE`.
pub proof fn lemma_score_bounded(a: Seq<u8>, b: Seq<u8>, mask: Option<Seq<u8>>)
    ensures
        frame_score(a, b, mask) matches Some(s) ==> s.average <= MAX_CHANGE && s.std_dev_estimate
            <= MAX_CHANGE && s.average == tally(a, b, mask, pixel_count(a)).sum * SCALE as nat
            / tally(a, b, mask, pixel_count(a)).count && s.std_dev_estimate == sqrt_floor(
            tally(a, b, mask, pixel_count(a)).spread / tally(a, b, mask, pixel_count(a)).count,
        ),
{
    let t = tally(a, b, mask, pixel_count(a));
    lemma_tally_bounds(a, b, mask, pixel_count(a));
    if t.count > 0 {
        assert(t.sum * SCALE as nat <= MAX_CHANGE as nat * t.count) by (nonlinear_arith)
            requires
                t.sum <= t.count * MAX_PIXEL_DISTANCE,
                MAX_CHANGE == MAX_PIXEL_DISTANCE * SCALE,
        ;
        lemma_quotient_bounded(t.sum * SCALE as nat, t.count, MAX_CHANGE as nat);
        assert(t.spread <= (MAX_CHANGE * MAX_CHANGE) as nat * t.count) by (nonlinear_arith)
            requires
                t.spread <= t.count * (MAX_CHANGE * MAX_CHANGE),
        ;
        lemma_quotient_bounded(t.spread, t.count, (MAX_CHANGE * MAX_CHANGE) as nat);
        let v = t.spread / t.count;
        let r = sqrt_floor(v);
        crate::fixed::lemma_sqrt_floor_bounded(v, MAX_CHANGE as nat);
    }
}

fn channel_gap_of(a: u8, b: u8) -> (r: u64)
    ensures
        r == channel_gap(a, b),
        r <= 65025,
{
    let d: u64 = if a >= b {
        (a - b) as u64
    } else {
        (b - a) as u64
    };
    assert(d * d <= 65025) by (nonlinear_arith)
        requires
            d <= 255,
    ;
    assert(d * d == (a - b) * (a - b) && d * d >= 0) by (nonlinear_arith)
        requires
            d == a - b || d == b - a,
    ;
    d * d
}

fn pixel_distance_of(a: &Vec<u8>, b: &Vec<u8>, i: usize) -> (r: u64)
    requires
        3 * i + 2 < a.len(),
        3 * i + 2 < b.len(),
    ensures
        r == pixel_distance(a@, b@, i as int),
        r <= MAX_PIXEL_DISTANCE,
{
    let base: usize = 3 * i;
    channel_gap_of(a[base], b[base]) + channel_gap_of(a[base + 1], b[base + 1]) + channel_gap_of(
        a[base + 2],
        b[base + 2],
    )
}

fn pixel_included_at(mask: Option<&GrayMask>, i: usize) -> (r: bool)
    ensures
        r == pixel_included(mask_bytes(mask), i as int),
{
    match mask {
        None => true,
        Some(m) => {
            let bytes = m.as_raw();
            i >= bytes.len() || bytes[i] == 0
        },
    }
}

/// The kernel that scores one frame against another.
pub struct MotionDetector {}

impl MotionDetector {
    /// Scores `frame2` against `frame1`. Walks the pixels in row-major order,
    /// leaves out those the mask excludes, and returns the mean distance and
    /// the dispersion estimate in thousandths, or `None` when the mask lets no
    /// pixel through.
    pub fn frame_diff(
        &self,
        frame1: &RgbFrame,
        frame2: &RgbFrame,
        mask: Option<&GrayMask>,
    ) -> (r: Option<MotionDetectionResult>)
        requires
            frame1@.data.len() == frame2@.data.len(),
        ensures
            r == frame_score(frame1@.data, frame2@.data, mask_bytes(mask)),
            r matches Some(s) ==> s.average <= MAX_CHANGE && s.std_dev_estimate <= MAX_CHANGE,
    {
        let a = frame1.as_raw();
        let b = frame2.as_raw();
        let pixels: usize = a.len() / 3;
        let ghost m = mask_bytes(mask);
        let mut count: u64 = 0;
        let mut sum: u128 = 0;
        let mut spread: u128 = 0;
        let mut i: usize = 0;
        while i < pixels
            invariant
                i <= pixels,
                pixels == a@.len() / 3,
                a@.len() == b@.len(),
                m == mask_bytes(mask),
                tally(a@, b@, m, i as nat) == (Tally {
                    count: count as nat,
                    sum: sum as nat,
                    spread: spread as nat,
                }),
                count <= i,
                sum <= count * MAX_PIXEL_DISTANCE,
                spread <= count * (MAX_CHANGE * MAX_CHANGE),
            decreases pixels - i,
        {
            let ghost before = tally(a@, b@, m, i as nat);
            if pixel_included_at(mask, i) {
                let d: u64 = pixel_distance_of(a, b, i);
                proof {
                    lemma_tally_add_bounds(before, d as nat);
                    assert(count * MAX_PIXEL_DISTANCE <= 0xffff_ffff_ffff_ffff * 195_075)
                        by (nonlinear_arith)
                        requires
                            count <= 0xffff_ffff_ffff_ffff,
                            MAX_PIXEL_DISTANCE == 195_075,
                    ;
                    assert((count + 1) * (MAX_CHANGE * MAX_CHANGE) <= 0x1_0000_0000_0000_0000
                        * (195_075_000 * 195_075_000)) by (nonlinear_arith)
                        requires
                            count <= 0xffff_ffff_ffff_ffff,
                            MAX_CHANGE == 195_075_000,
                    ;
                }
                if count > 0 {
                    let mean: u128 = sum * 1000 / (count as u128);
                    let scaled: u128 = (d as u128) * 1000;
                    let gap: u128 = if scaled >= mean {
                        scaled - mean
                    } else {
                        mean - scaled
                    };
                    assert(gap * gap == square_gap(scaled as nat, mean as nat)) by (nonlinear_arith)
                        requires
                            gap == scaled - mean || gap == mean - scaled,
                    ;
                    spread = spread + gap * gap;
                }
                count = count + 1;
                sum = sum + d as u128;
            }
            i = i + 1;
        }
        if count == 0 {
            None
        } else {
            proof {
                lemma_score_bounded(a@, b@, m);
                assert(spread <= (MAX_CHANGE * MAX_CHANGE) as nat * count as nat)
                    by (nonlinear_arith)
                    requires
                        spread <= count * (MAX_CHANGE * MAX_CHANGE),
                ;
                lemma_quotient_bounded(
                    spread as nat,
                    count as nat,
                    (MAX_CHANGE * MAX_CHANGE) as nat,
                );
            }
            let average: u128 = sum * 1000 / (count as u128);
            let variance: u128 = spread / (count as u128);
            Some(
                MotionDetectionResult {
                    average: average as u64,
                    std_dev_estimate: sqrt_floor_u64(variance as u64),
                },
            )
        }
    }

    /// A picture of where `frame2` differs from `frame1`: each pixel is gray,
    /// as bright as the square root of its distance, rounded down and capped
    /// at 255. Pixels that `frame2` has no counterpart for stay as `frame1`
    /// has them.
    pub fn frame_diff_img(&self, frame1: &RgbFrame, frame2: &RgbFrame) -> (picture: RgbFrame)
        ensures
            picture@.width == frame1@.width,
            picture@.height == frame1@.height,
            picture@.data.len() == frame1@.data.len(),
            forall|i: int|
                0 <= i < picture@.data.len() ==> #[trigger] picture@.data[i] == difference_byte(
                    frame1@.data,
                    frame2@.data,
                    i,
                ),
    {
        let a = frame1.as_raw();
        let b = frame2.as_raw();
        let shared: usize = if a.len() <= b.len() {
            a.len() / 3
        } else {
            b.len() / 3
        };
        let mut data: Vec<u8> = Vec::new();
        let mut i: usize = 0;
        while i < a.len()
            invariant
                i <= a.len(),
                data@.len() == i,
                shared == pixel_count(a@) || shared == pixel_count(b@),
                shared <= pixel_count(a@),
                shared <= pixel_count(b@),
                forall|j: int| 0 <= j < i ==> #[trigger] data@[j] == difference_byte(a@, b@, j),
            decreases a.len() - i,
        {
            let pixel: usize = i / 3;
            let byte: u8 = if pixel < shared {
                let d = pixel_distance_of(a, b, pixel);
                let root = sqrt_floor_u64(d);
                if root > 255 {
                    255
                } else {
                    root as u8
                }
            } else {
                a[i]
            };
            data.push(byte);
            i = i + 1;
        }
        let width = frame1.width();
        let height = frame1.height();
        RgbFrame::from_raw(width, height, data).unwrap()
    }
}

/// One byte of the picture of differences between `a` and `b`.
pub open spec fn difference_byte(a: Seq<u8>, b: Seq<u8>, i: int) -> u8 {
    let pixel = i / 3;
    if pixel < pixel_count(a) && pixel < pixel_count(b) {
        let root = sqrt_floor(pixel_distance(a, b, pixel));
        if root > 255 {
            255u8
        } else {
            root as u8
        }
    } else {
        a[i]
    }
}

} // verus!
