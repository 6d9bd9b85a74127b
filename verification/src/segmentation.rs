//! Splitting a recording into alternating stretches of silence and sound.
//!
//! The recording is cut into frames of 10 ms; each frame is silent when its
//! RMS level is below -60 dBFS. Runs of silent frames shorter than 250 ms
//! (25 frames) are absorbed into the sound before them, and neighbouring
//! stretches of the same kind are joined.

use vstd::prelude::*;
use crate::level::Db;
use vstd::arithmetic::div_mod::{lemma_div_multiples_vanish, lemma_mod_multiples_basic};

verus! {

/// Frames whose RMS level lies below this many nano-decibels are silent
/// (-60 dBFS).
pub const SILENCE_THRESHOLD_NANO: i64 = -60_000_000_000;

/// Shortest silent run, in frames, kept as a segment of its own (250 ms at
/// 10 ms per frame).
pub const MIN_SILENCE_FRAMES: usize = 25;

/// A stretch `[start_sample, end_sample)` of a recording.
#[derive(Debug, Clone, Copy, PartialEq, Eq, Structural)]
pub struct Segment {
    pub start_sample: usize,
    pub end_sample: usize,
}

/// Number of samples in one 10 ms frame (at least 1).
pub open spec fn frame_size_of(sample_rate: u32) -> int {
    if sample_rate / 100 >= 1 {
        (sample_rate / 100) as int
    } else {
        1
    }
}

/// Number of samples in one 10 ms frame at `sample_rate` (at least 1).
pub fn frame_size(sample_rate: u32) -> (r: usize)
    ensures
        r == frame_size_of(sample_rate),
        r >= 1,
{
    let f = (sample_rate / 100) as usize;
    if f >= 1 {
        f
    } else {
        1
    }
}

/// A frame at this RMS level counts as silent.
pub open spec fn frame_silent(level: Db) -> bool {
    level.nano < SILENCE_THRESHOLD_NANO
}

/// Which frames are silent.
pub open spec fn silence_flags(levels: Seq<Db>) -> Seq<bool> {
    Seq::new(levels.len(), |i: int| frame_silent(levels[i]))
}

/// Every frame in `[a, b)` is silent.
pub open spec fn silent_between(f: Seq<bool>, a: int, b: int) -> bool {
    forall|j: int| a <= j < b ==> #[trigger] f[j]
}

/// The `MIN_SILENCE_FRAMES` frames from `a` on are all silent.
pub open spec fn silent_window(f: Seq<bool>, a: int) -> bool {
    silent_between(f, a, a + MIN_SILENCE_FRAMES)
}

/// Frame `i` ends up in a silent segment: it is silent, and either all
/// frames from the start of the recording up to it are silent, or it lies
/// in a silent stretch of at least `MIN_SILENCE_FRAMES` frames.
pub open spec fn kept_silent(f: Seq<bool>, i: int) -> bool {
    &&& f[i]
    &&& {
        ||| silent_between(f, 0, i + 1)
        ||| exists|a: int|
            a <= i < a + MIN_SILENCE_FRAMES && a + MIN_SILENCE_FRAMES <= f.len()
                && #[trigger] silent_window(f, a)
    }
}

/// For each frame, whether it ends up in a silent segment.
pub open spec fn kept_flags(f: Seq<bool>) -> Seq<bool> {
    Seq::new(f.len(), |i: int| kept_silent(f, i))
}

/// First frame of segment `k`.
pub open spec fn start_frame(r: Seq<Segment>, k: int, frame_size: int) -> int {
    (r[k].start_sample as int) / frame_size
}

/// One past the last frame of segment `k`, for `n` frames in all.
pub open spec fn end_frame(r: Seq<Segment>, k: int, frame_size: int, n: int) -> int {
    if k + 1 < r.len() {
        start_frame(r, k + 1, frame_size)
    } else {
        n
    }
}

/// `r` cuts `total` samples, in frames of `frame_size` labelled by `labels`,
/// into the maximal runs of equally labelled frames: the segments follow one
/// another without gap from sample 0 to `total`, each starts on a frame
/// boundary, all frames of a segment carry the same label, and the label
/// changes where a segment begins.
pub open spec fn is_segmentation(r: Seq<Segment>, labels: Seq<bool>, frame_size: int, total: int) -> bool {
    let n = labels.len() as int;
    &&& (r.len() == 0) == (n == 0)
    &&& r.len() > 0 ==> r[0].start_sample == 0 && r[r.len() - 1].end_sample == total
    &&& forall|k: int| 0 <= k < r.len() - 1 ==> (#[trigger] r[k]).end_sample == r[k + 1].start_sample
    &&& forall|k: int|
        0 <= k < r.len() ==> {
            &&& (#[trigger] r[k]).start_sample as int % frame_size == 0
            &&& r[k].start_sample < r[k].end_sample
            &&& start_frame(r, k, frame_size) < end_frame(r, k, frame_size, n)
        }
    &&& forall|k: int, i: int|
        #![trigger r[k], labels[i]]
        0 <= k < r.len() && start_frame(r, k, frame_size) <= i < end_frame(r, k, frame_size, n)
            ==> labels[i] == labels[start_frame(r, k, frame_size)]
    &&& forall|k: int|
        #![trigger r[k]]
        0 < k < r.len() ==> labels[start_frame(r, k, frame_size) - 1] != labels[start_frame(
            r,
            k,
            frame_size,
        )]
}

/// A silent gap shorter than `MIN_SILENCE_FRAMES` frames that has sound
/// before it is never kept as silence: its frames end up in the segment of
/// the sound around them.
pub proof fn lemma_short_gap_absorbed(f: Seq<bool>, a: int, b: int, i: int)
    requires
        0 < a <= i < b <= f.len(),
        b - a < MIN_SILENCE_FRAMES,
        !f[a - 1],
        b == f.len() || !f[b],
    ensures
        !kept_silent(f, i),
{
    assert(!silent_between(f, 0, i + 1)) by {
        assert(!f[a - 1]);
    }
    if f[i] {
        assert forall|w: int|
            w <= i < w + MIN_SILENCE_FRAMES && w + MIN_SILENCE_FRAMES <= f.len() implies
            !#[trigger] silent_window(f, w) by {
            if w < a {
                assert(!f[a - 1]);
            } else {
                assert(b < f.len());
                assert(!f[b]);
            }
        }
    }
}

// ---- frame runs -------------------------------------------------------------

/// The runs `(label, start, end)` cover the frames `[0, n)` in order, each
/// run non-empty and each starting where the previous one ends.
pub open spec fn tiles(rs: Seq<(bool, usize, usize)>, n: int) -> bool {
    &&& (rs.len() == 0) == (n == 0)
    &&& rs.len() > 0 ==> rs[0].1 == 0 && rs[rs.len() - 1].2 == n
    &&& forall|k: int| 0 <= k < rs.len() ==> (#[trigger] rs[k]).1 < rs[k].2
    &&& forall|k: int| 0 <= k < rs.len() - 1 ==> (#[trigger] rs[k]).2 == rs[k + 1].1
}

/// Every frame of a run carries the run's label.
pub open spec fn labelled(rs: Seq<(bool, usize, usize)>, lab: Seq<bool>) -> bool {
    forall|k: int, i: int|
        #![trigger rs[k], lab[i]]
        0 <= k < rs.len() && rs[k].1 <= i < rs[k].2 ==> rs[k].0 == lab[i]
}

/// Neighbouring runs carry different labels.
pub open spec fn alternating(rs: Seq<(bool, usize, usize)>) -> bool {
    forall|k: int| 0 <= k < rs.len() - 1 ==> (#[trigger] rs[k]).0 != rs[k + 1].0
}

/// Maximal runs of equal flags.
fn frame_runs(flags: &Vec<bool>) -> (runs: Vec<(bool, usize, usize)>)
    ensures
        tiles(runs@, flags@.len() as int),
        labelled(runs@, flags@),
        alternating(runs@),
{
    let mut runs: Vec<(bool, usize, usize)> = Vec::new();
    let mut i: usize = 0;
    while i < flags.len()
        invariant
            i <= flags.len(),
            tiles(runs@, i as int),
            labelled(runs@, flags@),
            alternating(runs@),
            runs@.len() > 0 && i < flags@.len() ==> runs@[runs@.len() - 1].0 != flags@[i as int],
        decreases flags.len() - i,
    {
        let label = flags[i];
        let start = i;
        while i < flags.len() && flags[i] == label
            invariant
                start <= i <= flags.len(),
                start < flags.len(),
                flags@[start as int] == label,
                forall|j: int| start <= j < i ==> flags@[j] == label,
            decreases flags.len() - i,
        {
            i += 1;
        }
        let ghost old_runs = runs@;
        runs.push((label, start, i));
        proof {
            assert(runs@ == old_runs.push((label, start, i)));
            assert forall|k: int, j: int|
                #![trigger runs@[k], flags@[j]]
                0 <= k < runs@.len() && runs@[k].1 <= j < runs@[k].2 implies runs@[k].0
                == flags@[j] by {
                if k < old_runs.len() {
                    assert(old_runs[k] == runs@[k]);
                }
            }
            assert forall|k: int| 0 <= k < runs@.len() - 1 implies (#[trigger] runs@[k]).0
                != runs@[k + 1].0 by {
                if k < old_runs.len() - 1 {
                    assert(old_runs[k] == runs@[k]);
                    assert(old_runs[k + 1] == runs@[k + 1]);
                }
            }
            assert forall|k: int| 0 <= k < runs@.len() - 1 implies (#[trigger] runs@[k]).2
                == runs@[k + 1].1 by {
                if k < old_runs.len() - 1 {
                    assert(old_runs[k] == runs@[k]);
                    assert(old_runs[k + 1] == runs@[k + 1]);
                }
            }
        }
    }
    runs
}

/// Every run of a tiling ends within the tiled range.
proof fn lemma_tiles_within(rs: Seq<(bool, usize, usize)>, n: int, k: int)
    requires
        tiles(rs, n),
        0 <= k < rs.len(),
    ensures
        rs[k].1 < rs[k].2 <= n,
    decreases rs.len() - k,
{
    if k + 1 < rs.len() {
        lemma_tiles_within(rs, n, k + 1);
        assert(rs[k].2 == rs[k + 1].1);
    }
}

/// All frames of run `k` carry its label.
proof fn lemma_run_uniform(rs: Seq<(bool, usize, usize)>, f: Seq<bool>, k: int)
    requires
        labelled(rs, f),
        0 <= k < rs.len(),
    ensures
        forall|j: int| rs[k].1 <= j < rs[k].2 ==> #[trigger] f[j] == rs[k].0,
{
    assert forall|j: int| rs[k].1 <= j < rs[k].2 implies #[trigger] f[j] == rs[k].0 by {
        assert(rs[k].0 == f[j]);
    }
}

/// Within maximal runs of flags, a frame stays in a silent segment exactly
/// when its run is silent and either starts the recording or is long enough.
proof fn lemma_run_kept(rs: Seq<(bool, usize, usize)>, f: Seq<bool>, k: int, i: int)
    requires
        tiles(rs, f.len() as int),
        labelled(rs, f),
        alternating(rs),
        0 <= k < rs.len(),
        rs[k].1 <= i < rs[k].2,
    ensures
        kept_silent(f, i) == (rs[k].0 && (rs[k].1 == 0 || rs[k].2 - rs[k].1
            >= MIN_SILENCE_FRAMES)),
{
    let s = rs[k].1 as int;
    let e = rs[k].2 as int;
    lemma_tiles_within(rs, f.len() as int, k);
    lemma_run_uniform(rs, f, k);
    if rs[k].0 {
        if s == 0 {
            assert(silent_between(f, 0, i + 1));
        } else if e - s >= MIN_SILENCE_FRAMES {
            let a = if i < e - MIN_SILENCE_FRAMES {
                i
            } else {
                e - MIN_SILENCE_FRAMES
            };
            assert(silent_window(f, a));
        } else {
            // The frames just outside the run are not silent.
            assert(k > 0);
            let before = rs[k - 1];
            assert(before.2 == s && before.1 < before.2 && before.0 != rs[k].0);
            lemma_run_uniform(rs, f, k - 1);
            assert(!f[s - 1]);
            assert(!silent_between(f, 0, i + 1));
            assert forall|a: int|
                a <= i < a + MIN_SILENCE_FRAMES && a + MIN_SILENCE_FRAMES <= f.len() implies
                !#[trigger] silent_window(f, a) by {
                if a < s {
                    assert(!f[s - 1]);
                } else {
                    assert(k < rs.len() - 1);
                    let after = rs[k + 1];
                    assert(after.1 == e && after.1 < after.2 && after.0 != rs[k].0);
                    lemma_run_uniform(rs, f, k + 1);
                    assert(!f[e]);
                }
            }
        }
    }
}

/// Absorbs each silent run shorter than `MIN_SILENCE_FRAMES` into the run
/// before it; a short silent run at the very start is kept.
fn absorb_short_silences(runs: &Vec<(bool, usize, usize)>, Ghost(f): Ghost<Seq<bool>>) -> (merged: Vec<
    (bool, usize, usize),
>)
    requires
        tiles(runs@, f.len() as int),
        labelled(runs@, f),
        alternating(runs@),
    ensures
        tiles(merged@, f.len() as int),
        labelled(merged@, kept_flags(f)),
{
    let ghost kept = kept_flags(f);
    let mut merged: Vec<(bool, usize, usize)> = Vec::new();
    let mut idx: usize = 0;
    while idx < runs.len()
        invariant
            idx <= runs@.len(),
            tiles(runs@, f.len() as int),
            labelled(runs@, f),
            alternating(runs@),
            kept == kept_flags(f),
            tiles(merged@, if idx == 0 { 0 } else { runs@[idx - 1].2 as int }),
            labelled(merged@, kept),
            idx > 0 && !runs@[idx - 1].0 ==> merged@.len() > 0 && !merged@[merged@.len() - 1].0,
        decreases runs.len() - idx,
    {
        let (is_silent, start, end) = runs[idx];
        proof {
            lemma_tiles_within(runs@, f.len() as int, idx as int);
            assert forall|i: int| start <= i < end implies #[trigger] kept[i] == (is_silent && (
            start == 0 || end - start >= MIN_SILENCE_FRAMES)) by {
                lemma_run_kept(runs@, f, idx as int, i);
            }
            if idx > 0 {
                assert(runs@[idx - 1].2 == runs@[idx as int].1);
                assert(runs@[idx - 1].1 < runs@[idx - 1].2);
            }
        }
        let too_short = is_silent && (end - start) < MIN_SILENCE_FRAMES;
        let ghost old_merged = merged@;
        if too_short && merged.len() > 0 {
            let last = merged.len() - 1;
            let prev = merged[last];
            merged.set(last, (prev.0, prev.1, end));
            proof {
                assert(idx > 0);
                assert(runs@[idx - 1].0 != runs@[idx as int].0);
                assert forall|k: int, i: int|
                    #![trigger merged@[k], kept[i]]
                    0 <= k < merged@.len() && merged@[k].1 <= i < merged@[k].2 implies merged@[k].0
                    == kept[i] by {
                    if k < last {
                        assert(old_merged[k] == merged@[k]);
                    } else if i < prev.2 {
                        assert(old_merged[k] == prev);
                    }
                }
                assert forall|k: int| 0 <= k < merged@.len() - 1 implies (#[trigger] merged@[k]).2
                    == merged@[k + 1].1 by {
                    assert(old_merged[k] == merged@[k]);
                    if k + 1 < last {
                        assert(old_merged[k + 1] == merged@[k + 1]);
                    }
                }
                assert forall|k: int| 0 <= k < merged@.len() implies (#[trigger] merged@[k]).1
                    < merged@[k].2 by {
                    if k < last {
                        assert(old_merged[k] == merged@[k]);
                    }
                }
            }
        } else {
            merged.push((is_silent, start, end));
            proof {
                assert(merged@ == old_merged.push((is_silent, start, end)));
                assert forall|k: int, i: int|
                    #![trigger merged@[k], kept[i]]
                    0 <= k < merged@.len() && merged@[k].1 <= i < merged@[k].2 implies merged@[k].0
                    == kept[i] by {
                    if k < old_merged.len() {
                        assert(old_merged[k] == merged@[k]);
                    }
                }
                assert forall|k: int| 0 <= k < merged@.len() - 1 implies (#[trigger] merged@[k]).2
                    == merged@[k + 1].1 by {
                    if k + 1 < old_merged.len() {
                        assert(old_merged[k] == merged@[k]);
                        assert(old_merged[k + 1] == merged@[k + 1]);
                    } else {
                        assert(old_merged[k] == merged@[k]);
                    }
                }
                assert forall|k: int| 0 <= k < merged@.len() implies (#[trigger] merged@[k]).1
                    < merged@[k].2 by {
                    if k < old_merged.len() {
                        assert(old_merged[k] == merged@[k]);
                    }
                }
            }
        }
        idx += 1;
    }
    merged
}

/// Joins neighbouring runs that carry the same label.
fn coalesce(merged: &Vec<(bool, usize, usize)>, Ghost(lab): Ghost<Seq<bool>>) -> (out: Vec<
    (bool, usize, usize),
>)
    requires
        tiles(merged@, lab.len() as int),
        labelled(merged@, lab),
    ensures
        tiles(out@, lab.len() as int),
        labelled(out@, lab),
        alternating(out@),
{
    let mut out: Vec<(bool, usize, usize)> = Vec::new();
    let mut idx: usize = 0;
    while idx < merged.len()
        invariant
            idx <= merged@.len(),
            tiles(merged@, lab.len() as int),
            labelled(merged@, lab),
            tiles(out@, if idx == 0 { 0 } else { merged@[idx - 1].2 as int }),
            labelled(out@, lab),
            alternating(out@),
            idx > 0 ==> out@.len() > 0 && out@[out@.len() - 1].0 == merged@[idx - 1].0,
        decreases merged.len() - idx,
    {
        let run = merged[idx];
        proof {
            if idx > 0 {
                assert(merged@[idx - 1].2 == merged@[idx as int].1);
                assert(merged@[idx - 1].1 < merged@[idx - 1].2);
            }
            assert(run.1 < run.2);
        }
        let ghost old_out = out@;
        if out.len() > 0 && out[out.len() - 1].0 == run.0 {
            let last = out.len() - 1;
            let prev = out[last];
            out.set(last, (prev.0, prev.1, run.2));
            proof {
                assert forall|k: int, i: int|
                    #![trigger out@[k], lab[i]]
                    0 <= k < out@.len() && out@[k].1 <= i < out@[k].2 implies out@[k].0
                    == lab[i] by {
                    if k < last {
                        assert(old_out[k] == out@[k]);
                    } else if i < prev.2 {
                        assert(old_out[k] == prev);
                    } else {
                        assert(merged@[idx as int] == run);
                    }
                }
                assert forall|k: int| 0 <= k < out@.len() - 1 implies (#[trigger] out@[k]).2
                    == out@[k + 1].1 by {
                    assert(old_out[k] == out@[k]);
                    if k + 1 < last {
                        assert(old_out[k + 1] == out@[k + 1]);
                    }
                }
                assert forall|k: int| 0 <= k < out@.len() implies (#[trigger] out@[k]).1
                    < out@[k].2 by {
                    if k < last {
                        assert(old_out[k] == out@[k]);
                    }
                }
                assert forall|k: int| 0 <= k < out@.len() - 1 implies (#[trigger] out@[k]).0
                    != out@[k + 1].0 by {
                    assert(old_out[k] == out@[k]);
                    if k + 1 < last {
                        assert(old_out[k + 1] == out@[k + 1]);
                    }
                }
            }
        } else {
            out.push(run);
            proof {
                assert(out@ == old_out.push(run));
                assert forall|k: int, i: int|
                    #![trigger out@[k], lab[i]]
                    0 <= k < out@.len() && out@[k].1 <= i < out@[k].2 implies out@[k].0
                    == lab[i] by {
                    if k < old_out.len() {
                        assert(old_out[k] == out@[k]);
                    } else {
                        assert(merged@[idx as int] == run);
                    }
                }
                assert forall|k: int| 0 <= k < out@.len() - 1 implies (#[trigger] out@[k]).2
                    == out@[k + 1].1 by {
                    assert(old_out[k] == out@[k]);
                    if k + 1 < old_out.len() {
                        assert(old_out[k + 1] == out@[k + 1]);
                    }
                }
                assert forall|k: int| 0 <= k < out@.len() implies (#[trigger] out@[k]).1
                    < out@[k].2 by {
                    if k < old_out.len() {
                        assert(old_out[k] == out@[k]);
                    }
                }
                assert forall|k: int| 0 <= k < out@.len() - 1 implies (#[trigger] out@[k]).0
                    != out@[k + 1].0 by {
                    assert(old_out[k] == out@[k]);
                    if k + 1 < old_out.len() {
                        assert(old_out[k + 1] == out@[k + 1]);
                    }
                }
            }
        }
        idx += 1;
    }
    out
}

// ---- from frame runs to sample segments ----------------------------------

proof fn lemma_frame_sample(a: int, fs: int)
    requires
        a >= 0,
        fs > 0,
    ensures
        (a * fs) / fs == a,
        (a * fs) % fs == 0,
{
    lemma_div_multiples_vanish(a, fs);
    lemma_mod_multiples_basic(a, fs);
    assert(fs * a == a * fs) by (nonlinear_arith);
}

proof fn lemma_mul_le(a: int, b: int, fs: int)
    requires
        0 <= a <= b,
        fs >= 0,
    ensures
        a * fs <= b * fs,
{
    assert(a * fs <= b * fs) by (nonlinear_arith)
        requires
            0 <= a <= b,
            fs >= 0,
    ;
}

proof fn lemma_mul_succ(a: int, fs: int)
    ensures
        (a + 1) * fs == a * fs + fs,
{
    assert((a + 1) * fs == a * fs + fs) by (nonlinear_arith);
}

/// The sample segments made from a tiling of the frames by alternating,
/// uniformly labelled runs form the segmentation of those labels.
proof fn lemma_segments_from_runs(
    c: Seq<(bool, usize, usize)>,
    labels: Seq<bool>,
    fs: int,
    total: int,
    r: Seq<Segment>,
)
    requires
        fs >= 1,
        total <= labels.len() * fs,
        labels.len() * fs < total + fs,
        tiles(c, labels.len() as int),
        labelled(c, labels),
        alternating(c),
        r.len() == c.len(),
        forall|k: int|
            0 <= k < r.len() ==> (#[trigger] r[k]).start_sample == c[k].1 * fs && r[k].end_sample
                == if c[k].2 * fs < total {
                c[k].2 * fs
            } else {
                total
            },
    ensures
        is_segmentation(r, labels, fs, total),
{
    let n = labels.len() as int;
    assert forall|k: int| 0 <= k < r.len() implies start_frame(r, k, fs) == c[k].1 && end_frame(
        r,
        k,
        fs,
        n,
    ) == c[k].2 by {
        lemma_frame_sample(c[k].1 as int, fs);
        if k + 1 < r.len() {
            lemma_frame_sample(c[k + 1].1 as int, fs);
            assert(c[k].2 == c[k + 1].1);
        } else {
            assert(c[k].2 == n);
        }
    }
    assert forall|k: int| 0 <= k < r.len() - 1 implies (#[trigger] r[k]).end_sample == r[k
        + 1].start_sample by {
        lemma_tiles_within(c, n, k + 1);
        assert(c[k].2 == c[k + 1].1);
        lemma_mul_le(c[k].2 as int, n - 1, fs);
        lemma_mul_succ(n - 1, fs);
    }
    assert forall|k: int| 0 <= k < r.len() implies {
        &&& (#[trigger] r[k]).start_sample as int % fs == 0
        &&& r[k].start_sample < r[k].end_sample
        &&& start_frame(r, k, fs) < end_frame(r, k, fs, n)
    } by {
        lemma_frame_sample(c[k].1 as int, fs);
        lemma_tiles_within(c, n, k);
        lemma_mul_le(c[k].1 as int, n - 1, fs);
        lemma_mul_succ(n - 1, fs);
        lemma_mul_le(c[k].1 as int + 1, c[k].2 as int, fs);
        lemma_mul_succ(c[k].1 as int, fs);
    }
    if r.len() > 0 {
        lemma_frame_sample(0, fs);
        assert(c[r.len() - 1].2 == n);
    }
    assert forall|k: int, i: int|
        #![trigger r[k], labels[i]]
        0 <= k < r.len() && start_frame(r, k, fs) <= i < end_frame(r, k, fs, n) implies labels[i]
        == labels[start_frame(r, k, fs)] by {
        assert(c[k].0 == labels[i]);
        assert(c[k].0 == labels[c[k].1 as int]);
    }
    assert forall|k: int|
        #![trigger r[k]]
        0 < k < r.len() implies labels[start_frame(r, k, fs) - 1] != labels[start_frame(
            r,
            k,
            fs,
        )] by {
        let prev = c[k - 1];
        assert(prev.2 == c[k].1 && prev.1 < prev.2 && prev.0 != c[k].0);
        assert(c[k].1 < c[k].2);
        assert(prev.0 == labels[c[k].1 - 1]);
        assert(c[k].0 == labels[c[k].1 as int]);
    }
}

/// Segments a recording of `total_samples` samples, given the RMS level of
/// each of its frames of `frame_size` samples (the last frame may be
/// shorter).
pub fn segment(frame_levels: &[Db], frame_size: usize, total_samples: usize) -> (r: Vec<Segment>)
    requires
        frame_size >= 1,
        total_samples <= frame_levels@.len() * frame_size,
        frame_levels@.len() * frame_size < total_samples + frame_size,
    ensures
        is_segmentation(
            r@,
            kept_flags(silence_flags(frame_levels@)),
            frame_size as int,
            total_samples as int,
        ),
{
    let n = frame_levels.len();
    let mut flags: Vec<bool> = Vec::new();
    let mut i: usize = 0;
    while i < n
        invariant
            i <= n,
            n == frame_levels@.len(),
            flags@ == silence_flags(frame_levels@).subrange(0, i as int),
        decreases n - i,
    {
        flags.push(frame_levels[i].nano < SILENCE_THRESHOLD_NANO);
        i += 1;
        proof {
            assert(flags@ =~= silence_flags(frame_levels@).subrange(0, i as int));
        }
    }
    proof {
        assert(flags@ =~= silence_flags(frame_levels@));
    }
    let runs = frame_runs(&flags);
    let merged = absorb_short_silences(&runs, Ghost(flags@));
    let coalesced = coalesce(&merged, Ghost(kept_flags(flags@)));
    let mut out: Vec<Segment> = Vec::new();
    let mut k: usize = 0;
    while k < coalesced.len()
        invariant
            k <= coalesced@.len(),
            tiles(coalesced@, n as int),
            n == frame_levels@.len(),
            frame_size >= 1,
            total_samples <= n * frame_size,
            n * frame_size < total_samples + frame_size,
            out@.len() == k,
            forall|j: int|
                0 <= j < k ==> (#[trigger] out@[j]).start_sample == coalesced@[j].1 * frame_size
                    && out@[j].end_sample == if coalesced@[j].2 * frame_size < total_samples {
                    coalesced@[j].2 * frame_size
                } else {
                    total_samples as int
                },
        decreases coalesced.len() - k,
    {
        let (_, start_frame, end_frame) = coalesced[k];
        proof {
            lemma_tiles_within(coalesced@, n as int, k as int);
            lemma_mul_le(start_frame as int, n as int - 1, frame_size as int);
            lemma_mul_succ(n as int - 1, frame_size as int);
        }
        let start = start_frame * frame_size;
        let end = match end_frame.checked_mul(frame_size) {
            Some(x) => if x < total_samples {
                x
            } else {
                total_samples
            },
            None => total_samples,
        };
        let ghost old_out = out@;
        out.push(Segment { start_sample: start, end_sample: end });
        proof {
            assert forall|j: int|
                0 <= j < k + 1 implies (#[trigger] out@[j]).start_sample == coalesced@[j].1
                * frame_size && out@[j].end_sample == if coalesced@[j].2 * frame_size
                < total_samples {
                coalesced@[j].2 * frame_size
            } else {
                total_samples as int
            } by {
                if j < k {
                    assert(old_out[j] == out@[j]);
                }
            }
        }
        k += 1;
    }
    proof {
        lemma_segments_from_runs(
            coalesced@,
            kept_flags(flags@),
            frame_size as int,
            total_samples as int,
            out@,
        );
    }
    out
}

/// A frame lasts 10 ms: at a rate of 100 samples per second or more it holds
/// `sample_rate / 100` samples, rounded down; below that, one sample.
pub proof fn lemma_frame_is_ten_milliseconds(sample_rate: u32)
    ensures
        sample_rate >= 100 ==> 100 * frame_size_of(sample_rate) <= sample_rate < 100 * (
        frame_size_of(sample_rate) + 1),
        sample_rate < 100 ==> frame_size_of(sample_rate) == 1,
{
}

/// A frame is silent exactly when its RMS level is below -60 dBFS.
pub proof fn lemma_silence_threshold(level: Db)
    ensures
        frame_silent(level) <==> level.nano < -60_000_000_000,
{
}

/// A stretch of silent frames with sound before it, and sound or the end of
/// the recording after it, stays silence when it lasts 25 frames (250 ms)
/// or more, and is absorbed into the sound when it is shorter.
pub proof fn lemma_gap_kept_exactly_when_long(f: Seq<bool>, a: int, b: int, i: int)
    requires
        0 < a <= i < b <= f.len(),
        silent_between(f, a, b),
        !f[a - 1],
        b == f.len() || !f[b],
    ensures
        kept_silent(f, i) <==> b - a >= 25,
{
    if b - a >= 25 {
        let w = if i <= b - 25 {
            i
        } else {
            b - 25
        };
        assert(silent_window(f, w));
        assert(f[i]);
    } else {
        lemma_short_gap_absorbed(f, a, b, i);
    }
}

} // verus!
