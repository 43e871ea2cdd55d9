//! Splitting of long recordings into overlapping chunks, cut where the audio
//! is quietest.
//!
//! The samples themselves stay with the caller. The planner sees the length
//! of the recording and, for the analysis windows laid on a grid of half a
//! window, an order key of each window's mean-square energy (for energies,
//! which are never negative, the bit pattern of the `f32` orders them as the
//! values do). It returns the sample range of each chunk.
use vstd::prelude::*;
use vstd::arithmetic::div_mod::lemma_fundamental_div_mod;

verus! {

/// The longest chunk by default, in seconds.
pub const DEFAULT_MAX_CHUNK_SEC: u32 = 30;

/// The percentage of a chunk's window after which a quiet cut point is sought.
pub const QUIET_SEARCH_START_PERCENT: u64 = 70;

/// The length of the energy analysis window, in milliseconds.
pub const RMS_WINDOW_MS: u64 = 20;

/// The analysis window in samples at `rate`.
pub open spec fn rms_window(rate: nat) -> int {
    (rate * RMS_WINDOW_MS / 1000) as int
}

/// The overlap carried back from each cut: 1.5 s.
pub open spec fn overlap_samples(rate: nat) -> int {
    (rate * 3 / 2) as int
}

/// The shortest trailing chunk: 5 s.
pub open spec fn min_chunk_samples(rate: nat) -> int {
    (rate * 5) as int
}

/// The first index in `[lo, hi)` at which `keys` is least.
pub open spec fn first_min(keys: Seq<u32>, lo: int, hi: int) -> int
    decreases hi - lo,
{
    if hi - lo <= 1 {
        lo
    } else {
        let m = first_min(keys, lo, hi - 1);
        if keys[hi - 1] < keys[m] {
            hi - 1
        } else {
            m
        }
    }
}

/// The grid windows that lie in `[s, e)`: from `lo` (inclusive) to `hi`.
pub open spec fn grid_lo(w: int, s: int) -> int {
    (s + w / 2 - 1) / (w / 2)
}

pub open spec fn grid_hi(keys: Seq<u32>, w: int, e: int) -> int {
    let h = (e - w + w / 2 - 1) / (w / 2);
    if h < keys.len() {
        h
    } else {
        keys.len() as int
    }
}

/// The quietest point of the segment `[s, e)`: the middle of its first
/// window of least energy. There is none where the segment is shorter than
/// two windows or the window is under two samples.
pub open spec fn quiet_point(keys: Seq<u32>, w: int, s: int, e: int) -> Option<int> {
    if w < 2 || e - s < 2 * w || grid_lo(w, s) >= grid_hi(keys, w, e) {
        None
    } else {
        Some(first_min(keys, grid_lo(w, s), grid_hi(keys, w, e)) * (w / 2) + w / 2)
    }
}

proof fn lemma_first_min_range(keys: Seq<u32>, lo: int, hi: int)
    requires
        lo < hi,
    ensures
        lo <= first_min(keys, lo, hi) < hi,
    decreases hi - lo,
{
    if hi - lo > 1 {
        lemma_first_min_range(keys, lo, hi - 1);
    }
}

/// A quiet point lies strictly inside its segment, at least half a window
/// past its start.
pub proof fn lemma_quiet_point_inside(keys: Seq<u32>, w: int, s: int, e: int)
    requires
        0 <= s,
    ensures
        quiet_point(keys, w, s, e) matches Some(p) ==> s + w / 2 <= p < e,
{
    if let Some(p) = quiet_point(keys, w, s, e) {
        let step = w / 2;
        let lo = grid_lo(w, s);
        let hi = grid_hi(keys, w, e);
        let h = (e - w + step - 1) / step;
        let j = first_min(keys, lo, hi);
        lemma_first_min_range(keys, lo, hi);
        lemma_fundamental_div_mod(s + step - 1, step);
        lemma_fundamental_div_mod(e - w + step - 1, step);
        assert(lo * step >= s) by (nonlinear_arith)
            requires
                lo * step + (s + step - 1) % step == s + step - 1,
                (s + step - 1) % step < step,
        ;
        assert(j * step >= lo * step) by (nonlinear_arith)
            requires
                j >= lo,
                step > 0,
        ;
        assert(j * step <= (h - 1) * step) by (nonlinear_arith)
            requires
                j <= h - 1,
                step > 0,
        ;
        assert((h - 1) * step <= e - w - 1) by (nonlinear_arith)
            requires
                h * step + (e - w + step - 1) % step == e - w + step - 1,
                0 <= (e - w + step - 1) % step,
        ;
    }
}

/// The chunks of `[offset, len)`, each at most `max` long where it can be.
pub open spec fn chunks_from(
    keys: Seq<u32>,
    len: int,
    max: int,
    overlap: int,
    min: int,
    w: int,
    offset: int,
) -> Seq<(int, int)>
    decreases len - offset,
{
    if offset < 0 || max <= 0 || overlap < 0 || offset >= len {
        seq![]
    } else if len - offset <= max {
        seq![(offset, len)]
    } else {
        let s = offset + max * QUIET_SEARCH_START_PERCENT / 100;
        let e = offset + max;
        let split = match quiet_point(keys, w, s, e) {
            Some(p) => p,
            None => e,
        };
        let end = if len - split < min {
            len
        } else {
            split
        };
        if end >= len {
            seq![(offset, len)]
        } else {
            let next = if end > offset + overlap {
                end - overlap
            } else {
                end
            };
            proof {
                lemma_quiet_point_inside(keys, w, s, e);
                assert(max * QUIET_SEARCH_START_PERCENT / 100 >= 0) by (nonlinear_arith)
                    requires
                        max > 0,
                ;
            }
            seq![(offset, end)] + chunks_from(keys, len, max, overlap, min, w, next)
        }
    }
}

/// The sample ranges of the chunks of a recording of `len` samples at
/// `rate`, with chunks of at most `max_chunk_sec` seconds.
pub open spec fn chunk_plan(keys: Seq<u32>, len: nat, rate: nat, max_chunk_sec: nat) -> Seq<
    (int, int),
> {
    let max = max_chunk_sec * rate;
    if rate == 0 || max_chunk_sec == 0 || len <= max {
        seq![(0, len as int)]
    } else {
        chunks_from(
            keys,
            len as int,
            max as int,
            overlap_samples(rate),
            min_chunk_samples(rate),
            rms_window(rate),
            0,
        )
    }
}

/// The chunks from `offset` start there, end at `len`, each start lies
/// before its end, and each chunk starts after the previous one starts and
/// no later than it ends; every chunk but the last is at least
/// `max * 70 / 100` long.
proof fn lemma_chunks_from_shape(
    keys: Seq<u32>,
    len: int,
    max: int,
    overlap: int,
    min: int,
    w: int,
    offset: int,
)
    requires
        0 <= offset < len,
        max > 0,
        overlap >= 0,
    ensures
        ({
            let r = chunks_from(keys, len, max, overlap, min, w, offset);
            &&& r.len() > 0
            &&& r[0].0 == offset
            &&& r.last().1 == len
            &&& forall|k: int| 0 <= k < r.len() ==> (#[trigger] r[k]).0 < r[k].1
            &&& forall|k: int|
                0 <= k < r.len() - 1 ==> (#[trigger] r[k]).0 < r[k + 1].0 <= r[k].1
            &&& forall|k: int|
                0 <= k < r.len() - 1 ==> (#[trigger] r[k]).1 - r[k].0 >= max
                    * QUIET_SEARCH_START_PERCENT / 100
            &&& forall|k: int| 0 <= k < r.len() - 1 ==> (#[trigger] r[k]).1 - r[k].0 <= max
        }),
    decreases len - offset,
{
    let r = chunks_from(keys, len, max, overlap, min, w, offset);
    if len - offset > max {
        let s = offset + max * QUIET_SEARCH_START_PERCENT / 100;
        let e = offset + max;
        assert(max * QUIET_SEARCH_START_PERCENT / 100 <= max) by (nonlinear_arith)
            requires
                max > 0,
        ;
        assert(max * QUIET_SEARCH_START_PERCENT / 100 >= 0) by (nonlinear_arith)
            requires
                max > 0,
        ;
        lemma_quiet_point_inside(keys, w, s, e);
        let split = match quiet_point(keys, w, s, e) {
            Some(p) => p,
            None => e,
        };
        let end = if len - split < min {
            len
        } else {
            split
        };
        if end < len {
            let next = if end > offset + overlap {
                end - overlap
            } else {
                end
            };
            lemma_chunks_from_shape(keys, len, max, overlap, min, w, next);
            let t = chunks_from(keys, len, max, overlap, min, w, next);
            assert(r == seq![(offset, end)] + t);
            assert forall|k: int| 0 <= k < r.len() - 1 implies (#[trigger] r[k]).0 < r[k + 1].0
                <= r[k].1 by {
                if k > 0 {
                    assert(r[k] == t[k - 1]);
                    assert(r[k + 1] == t[k]);
                } else {
                    assert(r[1] == t[0]);
                }
            }
            assert forall|k: int| 0 <= k < r.len() implies (#[trigger] r[k]).0 < r[k].1 by {
                if 0 < k < r.len() {
                    assert(r[k] == t[k - 1]);
                }
            }
            assert forall|k: int| 0 <= k < r.len() - 1 implies (#[trigger] r[k]).1 - r[k].0
                >= max * QUIET_SEARCH_START_PERCENT / 100 by {
                if k > 0 {
                    assert(r[k] == t[k - 1]);
                }
            }
            assert forall|k: int| 0 <= k < r.len() - 1 implies (#[trigger] r[k]).1 - r[k].0
                <= max by {
                if k > 0 {
                    assert(r[k] == t[k - 1]);
                }
            }
        }
    }
}

/// Sample index `i` lies in one of the chunks `r`.
pub open spec fn in_some_chunk(r: Seq<(int, int)>, i: int) -> bool {
    exists|k: int| 0 <= k < r.len() && r[k].0 <= i < #[trigger] r[k].1
}

/// Chunks cover every sample of the recording with no gap: each sample
/// index lies in some chunk. The chunks are ordered and overlap only where
/// a cut carries the overlap back.
pub proof fn lemma_chunks_cover(keys: Seq<u32>, len: nat, rate: nat, max_chunk_sec: nat)
    ensures
        ({
            let r = chunk_plan(keys, len, rate, max_chunk_sec);
            &&& r.len() > 0
            &&& r[0].0 == 0
            &&& r.last().1 == len
            &&& forall|k: int| 0 <= k < r.len() - 1 ==> (#[trigger] r[k]).0 < r[k + 1].0 <= r[k].1
            &&& forall|i: int| 0 <= i < len ==> #[trigger] in_some_chunk(r, i)
        }),
{
    let r = chunk_plan(keys, len, rate, max_chunk_sec);
    let max = max_chunk_sec * rate;
    if !(rate == 0 || max_chunk_sec == 0 || len <= max) {
        assert(max > 0) by (nonlinear_arith)
            requires
                max == max_chunk_sec * rate,
                rate > 0,
                max_chunk_sec > 0,
        ;
        lemma_chunks_from_shape(
            keys,
            len as int,
            max as int,
            overlap_samples(rate),
            min_chunk_samples(rate),
            rms_window(rate),
            0,
        );
    }
    assert forall|i: int| 0 <= i < len implies #[trigger] in_some_chunk(r, i) by {
        lemma_index_in_some_chunk(r, i, r.len() - 1);
    }
}

/// In chunks laid out as `lemma_chunks_cover` states, an index below the end
/// of chunk `k` that is not before the first start lies in one of chunks
/// `0..=k`.
proof fn lemma_index_in_some_chunk(r: Seq<(int, int)>, i: int, k: int)
    requires
        0 <= k < r.len(),
        r[0].0 <= i < r[k].1,
        forall|j: int| 0 <= j < r.len() - 1 ==> (#[trigger] r[j]).0 < r[j + 1].0 <= r[j].1,
    ensures
        in_some_chunk(r, i),
    decreases k,
{
    if r[k].0 <= i {
        assert(r[k].0 <= i < r[k].1);
    } else {
        assert(r[k - 1].0 < r[k].0 <= r[k - 1].1);
        lemma_index_in_some_chunk(r, i, k - 1);
    }
}

/// A recording that fits in one chunk, or one with a zero rate or a zero
/// maximum duration, yields exactly one chunk: the whole recording.
pub proof fn lemma_single_chunk(keys: Seq<u32>, len: nat, rate: nat, max_chunk_sec: nat)
    requires
        rate == 0 || max_chunk_sec == 0 || len <= max_chunk_sec * rate,
    ensures
        chunk_plan(keys, len, rate, max_chunk_sec) == seq![(0int, len as int)],
{
}

/// With chunks of eight seconds or more, no chunk but the last is shorter
/// than the five-second minimum.
pub proof fn lemma_no_short_inner_chunk(keys: Seq<u32>, len: nat, rate: nat, max_chunk_sec: nat)
    requires
        max_chunk_sec >= 8,
    ensures
        ({
            let r = chunk_plan(keys, len, rate, max_chunk_sec);
            forall|k: int| 0 <= k < r.len() - 1 ==> (#[trigger] r[k]).1 - r[k].0 >= min_chunk_samples(rate)
        }),
{
    let max = max_chunk_sec * rate;
    if !(rate == 0 || len <= max) {
        assert(max > 0) by (nonlinear_arith)
            requires
                max == max_chunk_sec * rate,
                rate > 0,
                max_chunk_sec > 0,
        ;
        assert(max * QUIET_SEARCH_START_PERCENT / 100 >= rate * 5) by (nonlinear_arith)
            requires
                max == max_chunk_sec * rate,
                max_chunk_sec >= 8,
        ;
        lemma_chunks_from_shape(
            keys,
            len as int,
            max as int,
            overlap_samples(rate),
            min_chunk_samples(rate),
            rms_window(rate),
            0,
        );
    }
}

/// Every chunk but the last was cut in the last 30% of its window: it is at
/// least `max * 70 / 100` and at most `max` samples long, where `max` is
/// `max_chunk_sec * rate`.
pub proof fn lemma_inner_chunk_window(keys: Seq<u32>, len: nat, rate: nat, max_chunk_sec: nat)
    ensures
        ({
            let r = chunk_plan(keys, len, rate, max_chunk_sec);
            let max = max_chunk_sec * rate;
            forall|k: int|
                0 <= k < r.len() - 1 ==> max * QUIET_SEARCH_START_PERCENT / 100 <= (
                #[trigger] r[k]).1 - r[k].0 <= max
        }),
{
    let max = max_chunk_sec * rate;
    if !(rate == 0 || max_chunk_sec == 0 || len <= max) {
        assert(max > 0) by (nonlinear_arith)
            requires
                max == max_chunk_sec * rate,
                rate > 0,
                max_chunk_sec > 0,
        ;
        lemma_chunks_from_shape(
            keys,
            len as int,
            max as int,
            overlap_samples(rate),
            min_chunk_samples(rate),
            rms_window(rate),
            0,
        );
    }
}

/// The first grid window of least energy within `[s, e)`, as a cut point.
pub fn find_quiet_point(keys: &Vec<u32>, w: usize, s: usize, e: usize) -> (r: Option<usize>)
    requires
        s <= e,
    ensures
        r matches Some(p) ==> quiet_point(keys@, w as int, s as int, e as int) == Some(p as int),
        r is None ==> quiet_point(keys@, w as int, s as int, e as int) is None,
{
    if w < 2 || ((e - s) as u128) < 2 * (w as u128) {
        return None;
    }
    let step = w / 2;
    let lo = (s + step - 1) / step;
    let h = (e - w + step - 1) / step;
    let hi = if h < keys.len() {
        h
    } else {
        keys.len()
    };
    if lo >= hi {
        return None;
    }
    let mut best = lo;
    let mut j = lo + 1;
    while j < hi
        invariant
            lo < j <= hi,
            hi <= keys@.len(),
            lo <= best < j,
            best == first_min(keys@, lo as int, j as int),
        decreases hi - j,
    {
        proof {
            lemma_first_min_range(keys@, lo as int, j as int);
        }
        if keys[j] < keys[best] {
            best = j;
        }
        j = j + 1;
    }
    proof {
        lemma_quiet_point_inside(keys@, w as int, s as int, e as int);
    }
    Some(best * step + step)
}

/// Plans the chunks of a recording of `len` samples at `sample_rate`, each
/// at most `max_chunk_sec` seconds, given the energy order keys of the grid
/// windows (window `j` starts at sample `j * (rms_window / 2)`). Invalid
/// parameters give the whole recording as one chunk.
pub fn chunk_bounds(len: usize, sample_rate: u32, max_chunk_sec: u32, window_keys: &Vec<u32>) -> (r:
    Vec<(usize, usize)>)
    ensures
        r@.len() == chunk_plan(window_keys@, len as nat, sample_rate as nat, max_chunk_sec as nat).len(),
        forall|i: int|
            0 <= i < r@.len() ==> #[trigger] chunk_plan(
                window_keys@,
                len as nat,
                sample_rate as nat,
                max_chunk_sec as nat,
            )[i] == (r@[i].0 as int, r@[i].1 as int),
{
    let ghost keys = window_keys@;
    assert((max_chunk_sec as u128) * (sample_rate as u128) <= 0xffff_ffff * 0xffff_ffff)
        by (nonlinear_arith)
        requires
            max_chunk_sec <= 0xffff_ffff,
            sample_rate <= 0xffff_ffff,
    ;
    let max64 = (max_chunk_sec as u128) * (sample_rate as u128);
    if sample_rate == 0 || max_chunk_sec == 0 || (len as u128) <= max64 {
        let mut r = Vec::new();
        r.push((0, len));
        return r;
    }
    let max = max64 as usize;
    assert(max64 > 0) by (nonlinear_arith)
        requires
            max64 == max_chunk_sec as int * sample_rate as int,
            max_chunk_sec > 0,
            sample_rate > 0,
    ;
    let rate = sample_rate as u64;
    let overlap = (rate * 3 / 2) as u128;
    let min = (rate * 5) as u128;
    let w = (rate * RMS_WINDOW_MS / 1000) as usize;
    let ghost go = overlap_samples(sample_rate as nat);
    let ghost gm = min_chunk_samples(sample_rate as nat);
    let ghost gw = rms_window(sample_rate as nat);
    let mut r: Vec<(usize, usize)> = Vec::new();
    let mut offset: usize = 0;
    while offset < len
        invariant
            keys == window_keys@,
            0 < max < len,
            max as int == max_chunk_sec as int * sample_rate as int,
            overlap as int == go,
            overlap <= 0xffff_ffff_ffff,
            min as int == gm,
            w as int == gw,
            go >= 0,
            offset <= len,
            chunk_plan(keys, len as nat, sample_rate as nat, max_chunk_sec as nat) == r@.map_values(
                |c: (usize, usize)| (c.0 as int, c.1 as int),
            ) + chunks_from(keys, len as int, max as int, go, gm, gw, offset as int),
        decreases len - offset,
    {
        let ghost before = r@;
        if len - offset <= max {
            r.push((offset, len));
            proof {
                assert(r@.map_values(|c: (usize, usize)| (c.0 as int, c.1 as int)) =~= before.map_values(
                    |c: (usize, usize)| (c.0 as int, c.1 as int),
                ) + seq![(offset as int, len as int)]);
                assert(chunks_from(keys, len as int, max as int, go, gm, gw, len as int) =~= seq![]);
            }
            offset = len;
        } else {
            let s = offset + ((max as u128) * (QUIET_SEARCH_START_PERCENT as u128) / 100) as usize;
            assert(s as int == offset + max * QUIET_SEARCH_START_PERCENT / 100) by (nonlinear_arith)
                requires
                    s as int == offset + (max as int) * 70 / 100,
            ;
            let e = offset + max;
            let split = match find_quiet_point(window_keys, w, s, e) {
                Some(p) => p,
                None => e,
            };
            proof {
                lemma_quiet_point_inside(keys, w as int, s as int, e as int);
            }
            let end = if ((len - split) as u128) < min {
                len
            } else {
                split
            };
            r.push((offset, end));
            if end >= len {
                proof {
                    assert(r@.map_values(|c: (usize, usize)| (c.0 as int, c.1 as int))
                        =~= before.map_values(|c: (usize, usize)| (c.0 as int, c.1 as int)) + seq![
                        (offset as int, len as int)]);
                    assert(chunks_from(keys, len as int, max as int, go, gm, gw, len as int) =~= seq![]);
                }
                offset = len;
            } else {
                let next = if (end as u128) > (offset as u128) + overlap {
                    end - (overlap as usize)
                } else {
                    end
                };
                proof {
                    assert(r@.map_values(|c: (usize, usize)| (c.0 as int, c.1 as int))
                        =~= before.map_values(|c: (usize, usize)| (c.0 as int, c.1 as int)) + seq![
                        (offset as int, end as int)]);
                }
                proof {
                    assert(chunks_from(keys, len as int, max as int, go, gm, gw, offset as int)
                        == seq![(offset as int, end as int)] + chunks_from(
                        keys,
                        len as int,
                        max as int,
                        go,
                        gm,
                        gw,
                        next as int,
                    ));
                }
                offset = next;
            }
        }
    }
    proof {
        assert(chunks_from(keys, len as int, max as int, go, gm, gw, offset as int) =~= seq![]);
        assert(chunk_plan(keys, len as nat, sample_rate as nat, max_chunk_sec as nat) =~= r@.map_values(
            |c: (usize, usize)| (c.0 as int, c.1 as int),
        ));
    }
    r
}

} // verus!
