//! The BDHC height solver: the ground height under a position.
//!
//! A cell's BDHC block ([`Bdhc`]) is a set of *plates*, each the
//! rectangle spanned by two corner *points* on the plane a *slope*
//! (a normal) and a *height* (the plane offset) define; z *strips*
//! index the plates, each strip naming a run of the *access list*. For
//! a position the solver binary-searches the strip, tests the plates
//! the strip lists for containment and evaluates each hit's plane as
//! `y = -(nx * x + nz * z + h) / ny`; with several hits the caller's
//! [`HeightMode`] picks the one nearest the current y, the highest or
//! the lowest.
//!
//! Positions are fx32 world units relative to the cell centre, and the
//! heights come back absolute.
//!
//! | array | element |
//! |---|---|
//! | points | `{fx32 x; fx32 z}` |
//! | slopes | `{fx32 nx; fx32 ny; fx32 nz}` |
//! | heights | `fx32 h` |
//! | plates | `{u16 point1; u16 point2; u16 slope; u16 height}` |
//! | strips | `{fx32 z; u16 count; u16 first}` |
//! | access list | `u16 plate` |

use vstd::prelude::*;

use super::LandCell;
use super::land::Bdhc;
use super::map_object::TILE_FX32;
use crate::nds::{spec_u16le, spec_u32le};

verus! {

/// How the solver picks among several plates under one position.
#[derive(Debug, Clone, Copy, PartialEq, Eq, Hash, Default, Structural)]
pub enum HeightMode {
    /// The plate whose height is nearest the current y (the map
    /// object's per-step refresh).
    #[default]
    Nearest,
    /// The highest plate.
    Highest,
    /// The lowest plate.
    Lowest,
}

/// The most plates one lookup collects.
pub const MAX_HITS: usize = 10;

/// The little-endian `i32` at `at`, if the slice holds it.
pub open spec fn spec_i32_at(s: Seq<u8>, at: int) -> Option<i32> {
    if 0 <= at && at + 4 <= s.len() {
        Some(spec_u32le(s, at) as i32)
    } else {
        None
    }
}

/// The little-endian `u16` at `at`, if the slice holds it.
pub open spec fn spec_u16_at(s: Seq<u8>, at: int) -> Option<u16> {
    if 0 <= at && at + 2 <= s.len() {
        Some(spec_u16le(s, at))
    } else {
        None
    }
}

fn i32le(bytes: &[u8], at: usize) -> (res: Option<i32>)
    ensures
        res == spec_i32_at(bytes@, at as int),
{
    if at > bytes.len() || bytes.len() - at < 4 {
        return None;
    }
    let v: u32 = bytes[at] as u32 + bytes[at + 1] as u32 * 0x100 + bytes[at + 2] as u32 * 0x10000
        + bytes[at + 3] as u32 * 0x1000000;
    Some(v as i32)
}

fn u16le(bytes: &[u8], at: usize) -> (res: Option<u16>)
    ensures
        res == spec_u16_at(bytes@, at as int),
{
    if at > bytes.len() || bytes.len() - at < 2 {
        return None;
    }
    let v: u16 = bytes[at] as u16 + bytes[at + 1] as u16 * 0x100;
    Some(v)
}

/// One step of the strip search over `lo..=hi` (probing their middle).
pub open spec fn strip_walk(strips: Seq<u8>, z: i32, lo: int, hi: int) -> Option<usize>
    decreases hi - lo,
{
    let mid = (lo + hi) / 2;
    if lo >= hi {
        None
    } else {
        match spec_i32_at(strips, mid * 8) {
            None => None,
            Some(boundary) => if boundary > z {
                if hi - 1 <= lo {
                    Some(mid as usize)
                } else {
                    strip_walk(strips, z, lo, mid)
                }
            } else {
                if lo + 1 >= hi {
                    Some((mid + 1) as usize)
                } else {
                    strip_walk(strips, z, mid, hi)
                }
            },
        }
    }
}

/// The strip whose plates may cover `z`: the binary search over the
/// strips' z boundaries, as its walk of `lo`, `hi` and `mid` lands it.
pub open spec fn spec_find_strip(strips: Seq<u8>, count: int, z: i32) -> Option<usize> {
    if count <= 0 {
        None
    } else if count == 1 {
        Some(0)
    } else {
        strip_walk(strips, z, 0, count - 1)
    }
}

proof fn lemma_strip_walk_bound(strips: Seq<u8>, z: i32, lo: int, hi: int)
    requires
        0 <= lo,
        hi < usize::MAX,
    ensures
        strip_walk(strips, z, lo, hi) matches Some(i) ==> lo <= i <= hi,
    decreases hi - lo,
{
    let mid = (lo + hi) / 2;
    if lo < hi {
        if hi - 1 > lo {
            lemma_strip_walk_bound(strips, z, lo, mid);
        }
        if lo + 1 < hi {
            lemma_strip_walk_bound(strips, z, mid, hi);
        }
    }
}

/// The strip whose plates may cover `z`: the binary search over the
/// strips' z boundaries, ported step for step (its answer on a boundary
/// is the search's, not a textbook's). `None` when there are no strips
/// or a boundary lies past the data.
pub fn find_strip(strips: &[u8], count: usize, z: i32) -> (res: Option<usize>)
    ensures
        res == spec_find_strip(strips@, count as int, z),
        res matches Some(i) ==> i < count,
{
    if count == 0 {
        return None;
    }
    if count == 1 {
        return Some(0);
    }
    proof {
        lemma_strip_walk_bound(strips@, z, 0, count - 1);
    }
    let len = strips.len();
    let mut hi: usize = count - 1;
    let mut lo: usize = 0;
    let mut mid: usize = hi / 2;
    loop
        invariant
            lo < hi < count,
            len == strips@.len(),
            mid == (lo + hi) / 2,
            strip_walk(strips@, z, lo as int, hi as int) == spec_find_strip(
                strips@,
                count as int,
                z,
            ),
        decreases hi - lo,
    {
        if mid > usize::MAX / 8 {
            return None;
        }
        let boundary_z = match i32le(strips, mid * 8) {
            Some(b) => b,
            None => return None,
        };
        if boundary_z > z {
            if hi - 1 <= lo {
                return Some(mid);
            }
            hi = mid;
            mid = (lo + mid) / 2;
        } else {
            if lo + 1 >= hi {
                return Some(mid + 1);
            }
            let sum = mid + hi;
            lo = mid;
            mid = sum / 2;
        }
    }
}

/// The fixed-point product: `(a * b + 0x800) >> 12`, truncated to 32
/// bits.
pub open spec fn spec_mul_fx(a: i32, b: i32) -> i32 {
    (((a as int * b as int + 0x800) as i64) >> 12u64) as i32
}

/// The fixed-point product: `(a * b + 0x800) >> 12`, truncated to 32
/// bits.
pub fn mul_fx(a: i32, b: i32) -> (res: i32)
    ensures
        res == spec_mul_fx(a, b),
{
    proof {
        assert(a as int * b as int <= 0x4000_0000_0000_0000) by (nonlinear_arith);
        assert(a as int * b as int >= -0x4000_0000_0000_0000) by (nonlinear_arith);
    }
    let p: i64 = a as i64 * b as i64 + 0x800;
    (p >> 12u64) as i32
}

/// Integer division truncating toward zero.
pub open spec fn trunc_div(a: int, b: int) -> int {
    let q: int = vstd::math::abs(a) as int / vstd::math::abs(b) as int;
    if (a >= 0) == (b > 0) {
        q
    } else {
        -q
    }
}

/// The fixed-point quotient: `(a << 12) / b`, truncating toward zero,
/// truncated to 32 bits; `None` for a zero divisor.
pub open spec fn spec_fx_div(a: i32, b: i32) -> Option<i32> {
    if b == 0 {
        None
    } else {
        Some(trunc_div(a as int * 4096, b as int) as i32)
    }
}

/// The fixed-point quotient: `(a << 12) / b`, truncating toward zero;
/// `None` for a zero divisor (a degenerate slope).
pub fn fx_div(a: i32, b: i32) -> (res: Option<i32>)
    ensures
        res == spec_fx_div(a, b),
{
    if b == 0 {
        return None;
    }
    let na: u64 = if a < 0 {
        (-(a as i64)) as u64
    } else {
        a as u64
    };
    let nb: u64 = if b < 0 {
        (-(b as i64)) as u64
    } else {
        b as u64
    };
    let q: u64 = na * 4096 / nb;
    let signed: i64 = if (a >= 0) == (b > 0) {
        q as i64
    } else {
        -(q as i64)
    };
    proof {
        assert(na * 4096 == vstd::math::abs(a as int * 4096)) by (nonlinear_arith)
            requires
                na == vstd::math::abs(a as int),
        ;
        assert(q <= na * 4096) by (nonlinear_arith)
            requires
                nb >= 1,
                q == (na * 4096) as int / nb as int,
        ;
    }
    Some(signed as i32)
}

/// Whether `(x, z)` lies within the rectangle the two corners span,
/// inclusive on all sides, corners in either order.
pub open spec fn spec_inside(a: (i32, i32), b: (i32, i32), x: i32, z: i32) -> bool {
    &&& vstd::math::min(a.0 as int, b.0 as int) <= x <= vstd::math::max(a.0 as int, b.0 as int)
    &&& vstd::math::min(a.1 as int, b.1 as int) <= z <= vstd::math::max(a.1 as int, b.1 as int)
}

fn inside(corner_a: (i32, i32), corner_b: (i32, i32), x: i32, z: i32) -> (res: bool)
    ensures
        res == spec_inside(corner_a, corner_b, x, z),
{
    let (min_x, max_x) = if corner_a.0 > corner_b.0 {
        (corner_b.0, corner_a.0)
    } else {
        (corner_a.0, corner_b.0)
    };
    let (min_z, max_z) = if corner_a.1 > corner_b.1 {
        (corner_b.1, corner_a.1)
    } else {
        (corner_a.1, corner_b.1)
    };
    min_x <= x && x <= max_x && min_z <= z && z <= max_z
}

/// The plane height of plate `plate` at `(x, z)`: `None` when the plate
/// does not cover the position, its slope is degenerate, or an element
/// lies past the data.
#[verifier::opaque]
pub open spec fn spec_plate_height_at(b: Bdhc, plate: int, x: i32, z: i32) -> Option<i32> {
    let points = b.sections@[0]@;
    let slopes = b.sections@[1]@;
    let heights = b.sections@[2]@;
    let plates = b.sections@[3]@;
    let p1 = spec_u16_at(plates, plate * 8);
    let p2 = spec_u16_at(plates, plate * 8 + 2);
    let s = spec_u16_at(plates, plate * 8 + 4);
    let hi = spec_u16_at(plates, plate * 8 + 6);
    if p1 is None || p2 is None || s is None || hi is None {
        None
    } else {
        let ax = spec_i32_at(points, p1->0 * 8);
        let az = spec_i32_at(points, p1->0 * 8 + 4);
        let bx = spec_i32_at(points, p2->0 * 8);
        let bz = spec_i32_at(points, p2->0 * 8 + 4);
        let nx = spec_i32_at(slopes, s->0 * 12);
        let ny = spec_i32_at(slopes, s->0 * 12 + 4);
        let nz = spec_i32_at(slopes, s->0 * 12 + 8);
        let h = spec_i32_at(heights, hi->0 * 4);
        if ax is None || az is None || bx is None || bz is None {
            None
        } else if !spec_inside((ax->0, az->0), (bx->0, bz->0), x, z) {
            None
        } else if nx is None || ny is None || nz is None || h is None {
            None
        } else {
            let sum = spec_mul_fx(nx->0, x).wrapping_add(spec_mul_fx(nz->0, z)).wrapping_add(h->0);
            spec_fx_div(0i32.wrapping_sub(sum), ny->0)
        }
    }
}

fn plate_height_at(bdhc: &Bdhc, plate: usize, x: i32, z: i32) -> (res: Option<i32>)
    ensures
        res == spec_plate_height_at(*bdhc, plate as int, x, z),
{
    proof {
        reveal(spec_plate_height_at);
    }
    let plates = bdhc.plates();
    let points = bdhc.points();
    let len = plates.len();
    if plate > usize::MAX / 8 - 1 {
        return None;
    }
    let p1 = match u16le(plates, plate * 8) {
        Some(v) => v as usize,
        None => return None,
    };
    let p2 = match u16le(plates, plate * 8 + 2) {
        Some(v) => v as usize,
        None => return None,
    };
    let ax = i32le(points, p1 * 8);
    let az = i32le(points, p1 * 8 + 4);
    let bx = i32le(points, p2 * 8);
    let bz = i32le(points, p2 * 8 + 4);
    let s = u16le(plates, plate * 8 + 4);
    let hi = u16le(plates, plate * 8 + 6);
    if s.is_none() || hi.is_none() {
        return None;
    }
    let (ax, az, bx, bz) = match (ax, az, bx, bz) {
        (Some(ax), Some(az), Some(bx), Some(bz)) => (ax, az, bx, bz),
        _ => return None,
    };
    if !inside((ax, az), (bx, bz), x, z) {
        return None;
    }
    let s = s.unwrap() as usize;
    let hi = hi.unwrap() as usize;
    let slopes = bdhc.slopes();
    let nx = i32le(slopes, s * 12);
    let ny = i32le(slopes, s * 12 + 4);
    let nz = i32le(slopes, s * 12 + 8);
    let h = i32le(bdhc.heights(), hi * 4);
    let (nx, ny, nz, h) = match (nx, ny, nz, h) {
        (Some(nx), Some(ny), Some(nz), Some(h)) => (nx, ny, nz, h),
        _ => return None,
    };
    let sum = mul_fx(nx, x).wrapping_add(mul_fx(nz, z)).wrapping_add(h);
    fx_div(0i32.wrapping_sub(sum), ny)
}

/// The heights of the plates that access entries `first + i..` list
/// and that cover `(x, z)`, after the `acc` already collected: `None`
/// when an entry lies past the list; the collection stops at
/// [`MAX_HITS`].
pub open spec fn spec_hits(
    b: Bdhc,
    first: int,
    count: int,
    x: i32,
    z: i32,
    i: int,
    acc: Seq<i32>,
) -> Option<Seq<i32>>
    decreases count - i,
{
    if i >= count {
        Some(acc)
    } else {
        match spec_u16_at(b.sections@[5]@, (first + i) * 2) {
            None => None,
            Some(plate) => {
                let acc2 = match spec_plate_height_at(b, plate as int, x, z) {
                    Some(h) => acc.push(h),
                    None => acc,
                };
                if acc2.len() >= MAX_HITS {
                    Some(acc2)
                } else {
                    spec_hits(b, first, count, x, z, i + 1, acc2)
                }
            },
        }
    }
}

/// The distance between two heights, as the solver measures it.
pub open spec fn height_distance(y: i32, h: i32) -> i32 {
    (vstd::math::max(y as int, h as int) - vstd::math::min(y as int, h as int)) as i32
}

/// The index the solver picks among the first `n` hits, and the value
/// it compares by.
pub open spec fn spec_pick(hits: Seq<i32>, mode: HeightMode, y: i32, n: int) -> (int, i32)
    decreases n,
{
    if n <= 0 {
        match mode {
            HeightMode::Highest => (0, 0xFF00_0000u32 as i32),
            HeightMode::Lowest => (0, 0x0100_0000i32),
            HeightMode::Nearest => (0, height_distance(y, hits[0])),
        }
    } else {
        let (best, v) = spec_pick(hits, mode, y, n - 1);
        let h = hits[n - 1];
        match mode {
            HeightMode::Highest => if h > v {
                (n - 1, h)
            } else {
                (best, v)
            },
            HeightMode::Lowest => if h < v {
                (n - 1, h)
            } else {
                (best, v)
            },
            HeightMode::Nearest => if n - 1 >= 1 && height_distance(y, h) < v {
                (n - 1, height_distance(y, h))
            } else {
                (best, v)
            },
        }
    }
}

/// The ground height under `(x, z)` (fx32, relative to the cell
/// centre), or `None` when no plate covers it.
pub open spec fn spec_plate_height(b: Bdhc, mode: HeightMode, y: i32, x: i32, z: i32) -> Option<
    i32,
> {
    let strips = b.sections@[4]@;
    match spec_find_strip(strips, b.counts@[4] as int, z) {
        None => None,
        Some(strip) => {
            let count = spec_u16_at(strips, strip * 8 + 4);
            let first = spec_u16_at(strips, strip * 8 + 6);
            if count is None || first is None {
                None
            } else {
                match spec_hits(b, first->0 as int, count->0 as int, x, z, 0, Seq::empty()) {
                    None => None,
                    Some(hits) => if hits.len() == 0 {
                        None
                    } else if hits.len() == 1 {
                        Some(hits[0])
                    } else {
                        Some(hits[spec_pick(hits, mode, y, hits.len() as int).0])
                    },
                }
            }
        },
    }
}

/// In highest mode the solver picks the first highest hit, unless no
/// hit rises above the sentinel `0xFF000000`, when it keeps the first.
pub proof fn lemma_pick_highest(hits: Seq<i32>, y: i32, n: int)
    requires
        0 <= n <= hits.len(),
    ensures
        ({
            let (b, v) = spec_pick(hits, HeightMode::Highest, y, n);
            &&& forall|k: int| 0 <= k < n ==> hits[k] <= v
            &&& (v == 0xFF00_0000u32 as i32 && b == 0) || (0 <= b < n && hits[b] == v && forall|k: int|
                0 <= k < b ==> hits[k] < v)
        }),
    decreases n,
{
    if n > 0 {
        lemma_pick_highest(hits, y, n - 1);
    }
}

/// In lowest mode the solver picks the first lowest hit, unless no hit
/// falls below the sentinel `0x01000000`, when it keeps the first.
pub proof fn lemma_pick_lowest(hits: Seq<i32>, y: i32, n: int)
    requires
        0 <= n <= hits.len(),
    ensures
        ({
            let (b, v) = spec_pick(hits, HeightMode::Lowest, y, n);
            &&& forall|k: int| 0 <= k < n ==> hits[k] >= v
            &&& (v == 0x0100_0000i32 && b == 0) || (0 <= b < n && hits[b] == v && forall|k: int|
                0 <= k < b ==> hits[k] > v)
        }),
    decreases n,
{
    if n > 0 {
        lemma_pick_lowest(hits, y, n - 1);
    }
}

/// In nearest mode the solver picks the first hit nearest to `y`.
pub proof fn lemma_pick_nearest(hits: Seq<i32>, y: i32, n: int)
    requires
        1 <= n <= hits.len(),
    ensures
        ({
            let (b, v) = spec_pick(hits, HeightMode::Nearest, y, n);
            &&& 0 <= b < n
            &&& v == height_distance(y, hits[b])
            &&& forall|k: int| 0 <= k < n ==> height_distance(y, hits[k]) >= v
            &&& forall|k: int| 0 <= k < b ==> height_distance(y, hits[k]) > v
        }),
    decreases n,
{
    if n > 1 {
        lemma_pick_nearest(hits, y, n - 1);
    } else {
        assert(spec_pick(hits, HeightMode::Nearest, y, 0) == (0int, height_distance(y, hits[0])));
    }
}

proof fn lemma_pick_in_range(hits: Seq<i32>, mode: HeightMode, y: i32, n: int)
    requires
        0 <= n <= hits.len(),
        hits.len() > 0,
    ensures
        0 <= spec_pick(hits, mode, y, n).0 < hits.len(),
        n > 0 ==> spec_pick(hits, mode, y, n).0 < n,
    decreases n,
{
    if n > 0 {
        lemma_pick_in_range(hits, mode, y, n - 1);
    }
}

fn select(hits: &Vec<i32>, mode: HeightMode, y: i32) -> (res: usize)
    requires
        hits@.len() > 1,
    ensures
        res == spec_pick(hits@, mode, y, hits@.len() as int).0,
        res < hits@.len(),
{
    let mut best: usize = 0;
    let mut value: i32 = match mode {
        HeightMode::Highest => 0xFF00_0000u32 as i32,
        HeightMode::Lowest => 0x0100_0000i32,
        HeightMode::Nearest => {
            let h = hits[0];
            let d = if y > h {
                (y as i64 - h as i64) as i32
            } else {
                (h as i64 - y as i64) as i32
            };
            d
        },
    };
    let mut i: usize = 0;
    while i < hits.len()
        invariant
            i <= hits@.len(),
            hits@.len() > 1,
            (best as int, value) == spec_pick(hits@, mode, y, i as int),
        decreases hits@.len() - i,
    {
        let h = hits[i];
        match mode {
            HeightMode::Highest => {
                if h > value {
                    value = h;
                    best = i;
                }
            },
            HeightMode::Lowest => {
                if h < value {
                    value = h;
                    best = i;
                }
            },
            HeightMode::Nearest => {
                let d = if y > h {
                    (y as i64 - h as i64) as i32
                } else {
                    (h as i64 - y as i64) as i32
                };
                if i >= 1 && d < value {
                    value = d;
                    best = i;
                }
            },
        }
        i = i + 1;
    }
    proof {
        lemma_pick_in_range(hits@, mode, y, hits@.len() as int);
    }
    best
}

fn collect_hits(bdhc: &Bdhc, first: usize, count: usize, x: i32, z: i32) -> (res: Option<
    Vec<i32>,
>)
    requires
        count <= 0xFFFF,
        first <= 0xFFFF,
    ensures
        match res {
            Some(v) => spec_hits(*bdhc, first as int, count as int, x, z, 0, Seq::empty()) == Some(
                v@,
            ),
            None => spec_hits(*bdhc, first as int, count as int, x, z, 0, Seq::empty()) is None,
        },
{
    let access = bdhc.access_list();
    let mut hits: Vec<i32> = Vec::new();
    let mut i: usize = 0;
    while i < count
        invariant
            i <= count,
            count <= 0xFFFF,
            first <= 0xFFFF,
            access@ == bdhc.sections@[5]@,
            hits@.len() < MAX_HITS,
            spec_hits(*bdhc, first as int, count as int, x, z, i as int, hits@) == spec_hits(
                *bdhc,
                first as int,
                count as int,
                x,
                z,
                0,
                Seq::empty(),
            ),
        decreases count - i,
    {
        let plate = match u16le(access, (first + i) * 2) {
            Some(p) => p as usize,
            None => return None,
        };
        match plate_height_at(bdhc, plate, x, z) {
            Some(height) => {
                hits.push(height);
                if hits.len() >= MAX_HITS {
                    return Some(hits);
                }
            },
            None => {},
        }
        i = i + 1;
    }
    Some(hits)
}

/// The ground height under `(x, z)` (fx32, relative to the cell
/// centre) or `None` when no plate covers it; `y` is the current height
/// the nearest mode measures from.
pub fn plate_height(bdhc: &Bdhc, mode: HeightMode, y: i32, x: i32, z: i32) -> (res: Option<i32>)
    ensures
        res == spec_plate_height(*bdhc, mode, y, x, z),
{
    let strips = bdhc.strips();
    let len = strips.len();
    let strip = match find_strip(strips, bdhc.counts[4] as usize, z) {
        Some(s) => s,
        None => return None,
    };
    if strip > usize::MAX / 8 - 1 {
        return None;
    }
    let count = u16le(strips, strip * 8 + 4);
    let first = u16le(strips, strip * 8 + 6);
    let (count, first) = match (count, first) {
        (Some(c), Some(f)) => (c as usize, f as usize),
        _ => return None,
    };
    let hits = match collect_hits(bdhc, first, count, x, z) {
        Some(h) => h,
        None => return None,
    };
    if hits.len() == 0 {
        None
    } else if hits.len() == 1 {
        Some(hits[0])
    } else {
        let k = select(&hits, mode, y);
        Some(hits[k])
    }
}

/// The tile of an fx32 coordinate, truncating toward zero.
pub open spec fn tile_of(v: i32) -> int {
    trunc_div(v as int, TILE_FX32 as int)
}

/// The cell of a tile (floor division by 32).
pub open spec fn cell_of_tile(t: int) -> int {
    t / 32
}

/// The fx32 centre of cell `c` along one axis, wrapped to 32 bits.
pub open spec fn cell_centre(c: int) -> i32 {
    ((c * 32 + 16) * 0x10000) as i32
}

/// Whether cell `cell` is the one at `(cx, cz)`.
pub open spec fn cell_is(cell: LandCell, cx: int, cz: int) -> bool {
    cell.cell_x as int == cx && cell.cell_z as int == cz
}

/// The ground height at world position `(x, z)` over the resident
/// cells: the first resident cell holding the position, and the height
/// under the position relative to that cell's centre.
pub open spec fn spec_scene_height(
    cells: Seq<LandCell>,
    mode: HeightMode,
    x: i32,
    y: i32,
    z: i32,
) -> Option<i32> {
    let cx = cell_of_tile(tile_of(x));
    let cz = cell_of_tile(tile_of(z));
    if exists|i: int| 0 <= i < cells.len() && cell_is(cells[i], cx, cz) {
        let i = choose|i: int|
            0 <= i < cells.len() && cell_is(cells[i], cx, cz) && forall|j: int|
                0 <= j < i ==> !cell_is(#[trigger] cells[j], cx, cz);
        spec_plate_height(
            cells[i].bdhc,
            mode,
            y,
            x.wrapping_sub(cell_centre(cx)),
            z.wrapping_sub(cell_centre(cz)),
        )
    } else {
        None
    }
}

fn trunc_tile(v: i32) -> (res: i32)
    ensures
        res == tile_of(v),
{
    let m: i64 = if v < 0 {
        -(v as i64)
    } else {
        v as i64
    };
    let q = m / 65536;
    if v < 0 {
        (-q) as i32
    } else {
        q as i32
    }
}

/// The ground height at world position `(x, z)` (fx32) over a resident
/// cell set: the cell holding the position (the first such in `cells`)
/// and the height under the position relative to that cell's centre;
/// `None` when the cell is not resident or no plate covers the
/// position.
pub fn scene_height(cells: &[LandCell], mode: HeightMode, x: i32, y: i32, z: i32) -> (res: Option<
    i32,
>)
    ensures
        res == spec_scene_height(cells@, mode, x, y, z),
{
    let tile_x = trunc_tile(x);
    let tile_z = trunc_tile(z);
    let cell_x = tile_x >> 5u32;
    let cell_z = tile_z >> 5u32;
    proof {
        assert(tile_x >> 5u32 == tile_x / 32) by (bit_vector);
        assert(tile_z >> 5u32 == tile_z / 32) by (bit_vector);
    }
    let cx_origin = #[verifier::truncate] (((cell_x as i64 * 32 + 16) * 0x10000) as i32);
    let cz_origin = #[verifier::truncate] (((cell_z as i64 * 32 + 16) * 0x10000) as i32);
    assert(cx_origin == cell_centre(cell_x as int));
    assert(cz_origin == cell_centre(cell_z as int));
    let rel_x = x.wrapping_sub(cx_origin);
    let rel_z = z.wrapping_sub(cz_origin);
    let mut i: usize = 0;
    while i < cells.len()
        invariant
            i <= cells@.len(),
            cell_x == cell_of_tile(tile_of(x)),
            cell_z == cell_of_tile(tile_of(z)),
            rel_x == x.wrapping_sub(cell_centre(cell_x as int)),
            rel_z == z.wrapping_sub(cell_centre(cell_z as int)),
            forall|j: int| 0 <= j < i ==> !cell_is(#[trigger] cells@[j], cell_x as int, cell_z as int),
        decreases cells@.len() - i,
    {
        if cells[i].cell_x as i32 == cell_x && cells[i].cell_z as i32 == cell_z {
            proof {
                let cx = cell_x as int;
                let cz = cell_z as int;
                let first = |k: int|
                    0 <= k < cells@.len() && cell_is(cells@[k], cx, cz) && forall|j: int|
                        0 <= j < k ==> !cell_is(#[trigger] cells@[j], cx, cz);
                assert(first(i as int));
                let k = choose|k: int|
                    0 <= k < cells@.len() && cell_is(cells@[k], cx, cz) && forall|j: int|
                        0 <= j < k ==> !cell_is(#[trigger] cells@[j], cx, cz);
                assert(0 <= k < cells@.len() && cell_is(cells@[k], cx, cz));
                if k < i {
                    assert(!cell_is(cells@[k], cx, cz));
                }
                if k > i {
                    assert(!cell_is(cells@[i as int], cx, cz));
                }
                assert(k == i);
            }
            return plate_height(&cells[i].bdhc, mode, y, rel_x, rel_z);
        }
        i = i + 1;
    }
    None
}

} // verus!
