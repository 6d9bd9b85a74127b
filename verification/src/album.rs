//! Album consistency: a loudness anchor chosen from the tracks whose
//! integrated loudness was measured, and a per-track gain towards it.

use vstd::prelude::*;
use vstd::relations::{sorted_by, total_ordering};
use vstd::seq_lib::group_to_multiset_ensures;
use crate::api::{
    is_whole_file_map, lufs_unavailable, preset_params, preset_to_params, whole_file_recommendation,
    RecommendationPreset, TrackAnalysis,
};
use crate::decision::measured_level;
use crate::error::GainError;
use crate::gain_map::{
    AlbumAnchor, AlbumAnchorMethod, GainRecommendationMap, MeasureType, MeasurementQuality, PresetId,
};
use crate::level::Db;

verus! {

/// The level a loudness target reads from a track: its integrated loudness,
/// or its RMS level where none was measured.
pub open spec fn track_loudness(t: TrackAnalysis) -> i64 {
    measured_level(t.measurements, MeasureType::Lufs).nano
}

/// The track's integrated loudness counts towards the anchor: it was
/// measured and verified.
pub open spec fn has_verified_lufs(t: TrackAnalysis) -> bool {
    t.measurements.integrated_lufs.quality == MeasurementQuality::Verified
        && t.measurements.integrated_lufs.value is Some
}

/// The verified integrated loudness of the tracks that have one, in order;
/// the other tracks are left out.
pub open spec fn anchor_loudness(tracks: Seq<TrackAnalysis>) -> Seq<i64>
    decreases tracks.len(),
{
    if tracks.len() == 0 {
        Seq::empty()
    } else {
        let rest = anchor_loudness(tracks.drop_last());
        let t = tracks.last();
        if has_verified_lufs(t) {
            rest.push(t.measurements.integrated_lufs.value.unwrap().nano)
        } else {
            rest
        }
    }
}

/// Ascending order on levels.
pub open spec fn ascending() -> spec_fn(i64, i64) -> bool {
    |a: i64, b: i64| a <= b
}

/// The median of an ascending sequence: its middle element, or the mean of
/// its two middle elements rounded down to the nano-decibel.
pub open spec fn median_of_sorted(s: Seq<i64>) -> int {
    let l = s.len() as int;
    if l % 2 == 0 {
        s[l / 2 - 1] + (s[l / 2] - s[l / 2 - 1]) / 2
    } else {
        s[l / 2] as int
    }
}

/// The median of the loudness values.
pub open spec fn median_loudness(values: Seq<i64>) -> int {
    median_of_sorted(values.sort_by(ascending()))
}

/// `v` is the largest of `values`.
pub open spec fn is_maximum(v: int, values: Seq<i64>) -> bool {
    &&& exists|i: int| 0 <= i < values.len() && values[i] == v
    &&& forall|i: int| 0 <= i < values.len() ==> #[trigger] values[i] <= v
}

/// The anchor level that `method` picks from non-empty `values`.
pub open spec fn anchor_matches(target: Db, values: Seq<i64>, method: AlbumAnchorMethod) -> bool {
    match method {
        AlbumAnchorMethod::Median => target.nano == median_loudness(values),
        AlbumAnchorMethod::Maximum => is_maximum(target.nano as int, values),
        AlbumAnchorMethod::Custom(v) => target == v,
    }
}

proof fn lemma_ascending_total()
    ensures
        total_ordering(ascending()),
{
}

/// The values in ascending order.
fn sorted_copy(values: &Vec<i64>) -> (s: Vec<i64>)
    ensures
        sorted_by(s@, ascending()),
        s@.to_multiset() == values@.to_multiset(),
{
    broadcast use group_to_multiset_ensures;

    let mut s: Vec<i64> = Vec::new();
    let mut k: usize = 0;
    while k < values.len()
        invariant
            k <= values@.len(),
            sorted_by(s@, ascending()),
            s@.to_multiset() == values@.subrange(0, k as int).to_multiset(),
        decreases values.len() - k,
    {
        let x = values[k];
        let mut p: usize = 0;
        while p < s.len() && s[p] <= x
            invariant
                p <= s@.len(),
                forall|i: int| 0 <= i < p ==> s@[i] <= x,
            decreases s.len() - p,
        {
            p += 1;
        }
        let ghost old_s = s@;
        s.insert(p, x);
        proof {
            assert(s@ == old_s.insert(p as int, x));
            assert(values@.subrange(0, k + 1) =~= values@.subrange(0, k as int).push(x));
            vstd::seq_lib::to_multiset_insert(old_s, p as int, x);
            vstd::seq_lib::to_multiset_build(values@.subrange(0, k as int), x);
            assert forall|i: int, j: int| 0 <= i < j < s@.len() implies #[trigger] (ascending())(
                s@[i],
                s@[j],
            ) by {
                assert((ascending())(s@[i], s@[j]) == (s@[i] <= s@[j]));
                if j < p {
                    assert((ascending())(old_s[i], old_s[j]));
                } else if j == p {
                    assert(s@[i] == old_s[i]);
                } else if i < p {
                    assert(s@[j] == old_s[j - 1]);
                    assert(p < old_s.len());
                    assert(old_s[p as int] > x);
                    if j - 1 > p {
                        assert((ascending())(old_s[p as int], old_s[j - 1]));
                    }
                } else if i == p {
                    assert(old_s[p as int] > x);
                    if j - 1 > p {
                        assert((ascending())(old_s[p as int], old_s[j - 1]));
                    }
                } else {
                    assert((ascending())(old_s[i - 1], old_s[j - 1]));
                }
            }
        }
        k += 1;
    }
    proof {
        assert(values@.subrange(0, values@.len() as int) =~= values@);
    }
    s
}

/// Chooses the album's loudness anchor from the verified integrated
/// loudness of the tracks; tracks without it are left out. Fails when there
/// are no tracks, or when no track has verified integrated loudness.
pub fn compute_album_anchor(tracks: &[TrackAnalysis], method: AlbumAnchorMethod) -> (r: Result<
    AlbumAnchor,
    GainError,
>)
    ensures
        anchor_loudness(tracks@).len() == 0 <==> r is Err,
        tracks@.len() == 0 ==> (r matches Err(GainError::AnalysisFailure { details }) && details@
            == "no results to anchor"@),
        tracks@.len() > 0 && anchor_loudness(tracks@).len() == 0 ==> (r matches Err(
            GainError::AnalysisFailure { details },
        ) && details@ == "no track has verified integrated LUFS"@),
        r matches Ok(a) ==> a.method == method && anchor_matches(
            a.target_lufs,
            anchor_loudness(tracks@),
            method,
        ),
{
    if tracks.len() == 0 {
        return Err(GainError::AnalysisFailure { details: String::from_str("no results to anchor") });
    }
    let mut values: Vec<i64> = Vec::new();
    let mut k: usize = 0;
    while k < tracks.len()
        invariant
            k <= tracks@.len(),
            values@ == anchor_loudness(tracks@.subrange(0, k as int)),
        decreases tracks.len() - k,
    {
        let lufs = tracks[k].measurements.integrated_lufs;
        if lufs.quality == MeasurementQuality::Verified {
            if let Some(v) = lufs.value {
                values.push(v.nano);
            }
        }
        proof {
            assert(tracks@.subrange(0, k + 1).drop_last() =~= tracks@.subrange(0, k as int));
            assert(tracks@.subrange(0, k + 1).last() == tracks@[k as int]);
        }
        k += 1;
    }
    proof {
        assert(tracks@.subrange(0, tracks@.len() as int) =~= tracks@);
    }
    if values.len() == 0 {
        return Err(
            GainError::AnalysisFailure {
                details: String::from_str("no track has verified integrated LUFS"),
            },
        );
    }
    let target = match method {
        AlbumAnchorMethod::Median => {
            let sorted = sorted_copy(&values);
            proof {
                lemma_ascending_total();
                values@.lemma_sort_by_ensures(ascending());
                vstd::seq_lib::lemma_sorted_unique(sorted@, values@.sort_by(ascending()), ascending());
                broadcast use group_to_multiset_ensures;
                assert(sorted@.to_multiset().len() == sorted@.len());
                assert(values@.to_multiset().len() == values@.len());
            }
            let len = sorted.len();
            if len % 2 == 0 {
                let lo = sorted[len / 2 - 1];
                let hi = sorted[len / 2];
                proof {
                    assert((ascending())(sorted@[len / 2 - 1], sorted@[(len / 2) as int]));
                }
                let spread = (hi as i128 - lo as i128) as u64;
                let half = spread / 2;
                Db { nano: (lo as i128 + half as i128) as i64 }
            } else {
                Db { nano: sorted[len / 2] }
            }
        },
        AlbumAnchorMethod::Maximum => {
            let mut best: i64 = i64::MIN;
            let mut at: usize = 0;
            let mut j: usize = 0;
            while j < values.len()
                invariant
                    j <= values@.len(),
                    values@.len() > 0,
                    at < values@.len(),
                    j > 0 ==> values@[at as int] == best,
                    forall|i: int| 0 <= i < j ==> #[trigger] values@[i] <= best,
                decreases values.len() - j,
            {
                if j == 0 || values[j] > best {
                    best = values[j];
                    at = j;
                }
                j += 1;
            }
            Db { nano: best }
        },
        AlbumAnchorMethod::Custom(v) => v,
    };
    Ok(AlbumAnchor { target_lufs: target, method })
}

/// One whole-file map per track, in order, each bringing the track's
/// integrated loudness to the anchor; the maps carry the identity of
/// `preset`. A track whose integrated loudness is only a placeholder makes
/// the whole call an analysis failure.
pub fn generate_album_recommendations(
    tracks: &[TrackAnalysis],
    anchor: &AlbumAnchor,
    preset: RecommendationPreset,
) -> (r: Result<Vec<GainRecommendationMap>, GainError>)
    ensures
        (exists|k: int| 0 <= k < tracks@.len() && lufs_unavailable(#[trigger] tracks@[k], MeasureType::Lufs))
            ==> (r matches Err(GainError::AnalysisFailure { details }) && details@
            == "LUFS measurement unavailable for this preset"@),
        (forall|k: int| 0 <= k < tracks@.len() ==> !lufs_unavailable(#[trigger] tracks@[k], MeasureType::Lufs))
            ==> (r matches Ok(maps) && maps@.len() == tracks@.len() && forall|k: int|
            0 <= k < tracks@.len() ==> is_whole_file_map(
                #[trigger] maps@[k],
                tracks@[k],
                MeasureType::Lufs,
                anchor.target_lufs,
                preset_params(preset).2,
            )),
{
    let (_, _, preset_id) = preset_to_params(preset);
    let mut maps: Vec<GainRecommendationMap> = Vec::new();
    let mut k: usize = 0;
    while k < tracks.len()
        invariant
            k <= tracks@.len(),
            preset_id == preset_params(preset).2,
            maps@.len() == k,
            forall|j: int| 0 <= j < k ==> !lufs_unavailable(#[trigger] tracks@[j], MeasureType::Lufs),
            forall|j: int|
                0 <= j < k ==> is_whole_file_map(
                    #[trigger] maps@[j],
                    tracks@[j],
                    MeasureType::Lufs,
                    anchor.target_lufs,
                    preset_id,
                ),
        decreases tracks.len() - k,
    {
        let map = match whole_file_recommendation(
            &tracks[k],
            MeasureType::Lufs,
            anchor.target_lufs,
            preset_id,
        ) {
            Ok(m) => m,
            Err(e) => {
                return Err(e);
            },
        };
        let ghost old_maps = maps@;
        maps.push(map);
        proof {
            assert forall|j: int|
                0 <= j < k + 1 implies is_whole_file_map(
                #[trigger] maps@[j],
                tracks@[j],
                MeasureType::Lufs,
                anchor.target_lufs,
                preset_id,
            ) by {
                if j < k {
                    assert(old_maps[j] == maps@[j]);
                }
            }
        }
        k += 1;
    }
    Ok(maps)
}

/// A track louder than the anchor is turned down, a quieter one is turned
/// up, and one at the anchor is left as it is.
pub proof fn lemma_album_gain_direction(
    map: GainRecommendationMap,
    track: TrackAnalysis,
    anchor: AlbumAnchor,
    preset_id: PresetId,
)
    requires
        is_whole_file_map(map, track, MeasureType::Lufs, anchor.target_lufs, preset_id),
    ensures
        map.recommendations@[0].decision.is_applicable,
        track_loudness(track) > anchor.target_lufs.nano ==> map.recommendations@[0].decision.gain_db.nano < 0,
        track_loudness(track) < anchor.target_lufs.nano ==> map.recommendations@[0].decision.gain_db.nano > 0,
        track_loudness(track) == anchor.target_lufs.nano ==> map.recommendations@[0].decision.gain_db.nano == 0,
{
}

/// The median anchor lies between the quietest and the loudest track.
pub proof fn lemma_median_within_range(values: Seq<i64>)
    requires
        values.len() > 0,
    ensures
        exists|i: int| 0 <= i < values.len() && values[i] <= median_loudness(values),
        exists|j: int| 0 <= j < values.len() && median_loudness(values) <= values[j],
{
    broadcast use group_to_multiset_ensures;

    lemma_ascending_total();
    values.lemma_sort_by_ensures(ascending());
    let s = values.sort_by(ascending());
    assert(s.to_multiset().len() == s.len());
    assert(values.to_multiset().len() == values.len());
    let l = s.len() as int;
    let lo_at = if l % 2 == 0 {
        l / 2 - 1
    } else {
        l / 2
    };
    let hi_at = l / 2;
    assert((ascending())(s[lo_at], s[hi_at]));
    assert(s[lo_at] <= median_of_sorted(s) <= s[hi_at]);
    assert(s.contains(s[lo_at]));
    assert(s.to_multiset().contains(s[lo_at]));
    assert(values.contains(s[lo_at]));
    assert(s.contains(s[hi_at]));
    assert(s.to_multiset().contains(s[hi_at]));
    assert(values.contains(s[hi_at]));
}

/// The anchor values of two runs of tracks, one after the other, are those
/// of the first run followed by those of the second.
proof fn lemma_anchor_loudness_concat(a: Seq<TrackAnalysis>, b: Seq<TrackAnalysis>)
    ensures
        anchor_loudness(a + b) == anchor_loudness(a) + anchor_loudness(b),
    decreases b.len(),
{
    if b.len() == 0 {
        assert(a + b =~= a);
        assert(anchor_loudness(a) + anchor_loudness(b) =~= anchor_loudness(a));
    } else {
        let ab = a + b;
        assert(ab.drop_last() =~= a + b.drop_last());
        assert(ab.last() == b.last());
        lemma_anchor_loudness_concat(a, b.drop_last());
        let x = anchor_loudness(a);
        let y = anchor_loudness(b.drop_last());
        let v = b.last().measurements.integrated_lufs.value.unwrap().nano;
        assert((x + y).push(v) =~= x + y.push(v));
    }
}

/// Tracks that are a reordering of one another give anchor values that are
/// a reordering of one another.
proof fn lemma_anchor_loudness_reordered(s1: Seq<TrackAnalysis>, s2: Seq<TrackAnalysis>)
    requires
        s1.to_multiset() == s2.to_multiset(),
    ensures
        anchor_loudness(s1).to_multiset() == anchor_loudness(s2).to_multiset(),
    decreases s1.len(),
{
    broadcast use group_to_multiset_ensures;
    broadcast use vstd::multiset::group_multiset_axioms;

    if s1.len() == 0 {
        assert(s2.to_multiset().len() == 0);
        assert(s2 =~= s1);
    } else {
        let t = s1.last();
        let r1 = s1.drop_last();
        assert(s1 =~= r1.push(t));
        assert(s1.to_multiset() == r1.to_multiset().insert(t));
        assert(s2.to_multiset().count(t) > 0);
        assert(s2.contains(t));
        let i = choose|i: int| 0 <= i < s2.len() && s2[i] == t;
        let r2 = s2.remove(i);
        assert(r2.to_multiset() == s2.to_multiset().remove(t));
        assert(r1.to_multiset() =~= r1.to_multiset().insert(t).remove(t));
        lemma_anchor_loudness_reordered(r1, r2);
        let p = s2.subrange(0, i);
        let q = s2.subrange(i + 1, s2.len() as int);
        let one = seq![t];
        assert(s2 =~= (p + one) + q);
        assert(r2 =~= p + q);
        assert(s1 =~= r1 + one);
        lemma_anchor_loudness_concat(p + one, q);
        lemma_anchor_loudness_concat(p, one);
        lemma_anchor_loudness_concat(p, q);
        lemma_anchor_loudness_concat(r1, one);
        let ap = anchor_loudness(p);
        let aq = anchor_loudness(q);
        let ao = anchor_loudness(one);
        vstd::seq_lib::lemma_multiset_commutative(ap + ao, aq);
        vstd::seq_lib::lemma_multiset_commutative(ap, ao);
        vstd::seq_lib::lemma_multiset_commutative(ap, aq);
        vstd::seq_lib::lemma_multiset_commutative(anchor_loudness(r1), ao);
        assert(anchor_loudness(s1).to_multiset() =~= anchor_loudness(s2).to_multiset());
    }
}

/// The album anchor does not depend on the order of the tracks: tracks
/// listed in any other order give as many verified loudness values, and the
/// same anchor by the same method.
pub proof fn lemma_anchor_ignores_track_order(
    tracks1: Seq<TrackAnalysis>,
    tracks2: Seq<TrackAnalysis>,
    method: AlbumAnchorMethod,
    anchor1: Db,
    anchor2: Db,
)
    requires
        tracks1.to_multiset() == tracks2.to_multiset(),
        anchor_matches(anchor1, anchor_loudness(tracks1), method),
        anchor_matches(anchor2, anchor_loudness(tracks2), method),
    ensures
        anchor_loudness(tracks1).len() == anchor_loudness(tracks2).len(),
        anchor1 == anchor2,
{
    broadcast use group_to_multiset_ensures;

    lemma_anchor_loudness_reordered(tracks1, tracks2);
    let v1 = anchor_loudness(tracks1);
    let v2 = anchor_loudness(tracks2);
    assert(v1.to_multiset().len() == v1.len());
    assert(v2.to_multiset().len() == v2.len());
    match method {
        AlbumAnchorMethod::Median => {
            lemma_ascending_total();
            v1.lemma_sort_by_ensures(ascending());
            v2.lemma_sort_by_ensures(ascending());
            vstd::seq_lib::lemma_sorted_unique(v1.sort_by(ascending()), v2.sort_by(ascending()), ascending());
        },
        AlbumAnchorMethod::Maximum => {
            let i1 = choose|i: int| 0 <= i < v1.len() && v1[i] == anchor1.nano;
            let i2 = choose|i: int| 0 <= i < v2.len() && v2[i] == anchor2.nano;
            assert(v1.contains(v1[i1]));
            assert(v1.to_multiset().count(v1[i1]) > 0);
            assert(v2.contains(v1[i1]));
            assert(v2.contains(v2[i2]));
            assert(v2.to_multiset().count(v2[i2]) > 0);
            assert(v1.contains(v2[i2]));
            assert(anchor1.nano == anchor2.nano);
        },
        AlbumAnchorMethod::Custom(_) => {},
    }
}

/// The median of one level is that level; the median of two levels is their
/// mean, rounded down to the nano-decibel, in whichever order they come.
pub proof fn lemma_median_of_one_and_two(a: i64, b: i64)
    ensures
        median_loudness(seq![a]) == a,
        median_loudness(seq![a, b]) == (a as int + b as int) / 2,
{
    broadcast use group_to_multiset_ensures;

    lemma_ascending_total();
    let one = seq![a];
    one.lemma_sort_by_ensures(ascending());
    vstd::seq_lib::lemma_sorted_unique(one, one.sort_by(ascending()), ascending());
    let two = seq![a, b];
    two.lemma_sort_by_ensures(ascending());
    let lo = if a <= b {
        a
    } else {
        b
    };
    let hi = if a <= b {
        b
    } else {
        a
    };
    let s = seq![lo, hi];
    assert(two =~= seq![a].push(b));
    assert(seq![a] =~= Seq::<i64>::empty().push(a));
    assert(s =~= seq![lo].push(hi));
    assert(seq![lo] =~= Seq::<i64>::empty().push(lo));
    assert(s.to_multiset() =~= two.to_multiset());
    assert(sorted_by(s, ascending())) by {
        assert forall|i: int, j: int| 0 <= i < j < s.len() implies #[trigger] (ascending())(s[i], s[j]) by {
            assert(i == 0 && j == 1);
        }
    }
    vstd::seq_lib::lemma_sorted_unique(s, two.sort_by(ascending()), ascending());
}

/// Levels strictly below `m`.
pub open spec fn below(m: int) -> spec_fn(i64) -> bool {
    |x: i64| (x as int) < m
}

/// Levels strictly above `m`.
pub open spec fn above(m: int) -> spec_fn(i64) -> bool {
    |x: i64| (x as int) > m
}

/// Reordering a sequence keeps how many of its elements pass a test.
proof fn lemma_filter_len_reordered(s1: Seq<i64>, s2: Seq<i64>, p: spec_fn(i64) -> bool)
    requires
        s1.to_multiset() == s2.to_multiset(),
    ensures
        s1.filter(p).len() == s2.filter(p).len(),
    decreases s1.len(),
{
    broadcast use group_to_multiset_ensures;
    broadcast use vstd::multiset::group_multiset_axioms;

    if s1.len() == 0 {
        assert(s2.to_multiset().len() == 0);
        assert(s2 =~= s1);
    } else {
        let t = s1.last();
        let r1 = s1.drop_last();
        assert(s1 =~= r1.push(t));
        assert(s2.to_multiset().count(t) > 0);
        assert(s2.contains(t));
        let i = choose|i: int| 0 <= i < s2.len() && s2[i] == t;
        let r2 = s2.remove(i);
        assert(r2.to_multiset() == s2.to_multiset().remove(t));
        assert(r1.to_multiset() =~= r1.to_multiset().insert(t).remove(t));
        lemma_filter_len_reordered(r1, r2, p);
        let a = s2.subrange(0, i);
        let q = s2.subrange(i + 1, s2.len() as int);
        let one = Seq::<i64>::empty().push(t);
        assert(s2 =~= (a + one) + q);
        assert(r2 =~= a + q);
        Seq::filter_distributes_over_add(a + one, q, p);
        Seq::filter_distributes_over_add(a, one, p);
        Seq::filter_distributes_over_add(a, q, p);
        r1.lemma_filter_len_push(p, t);
        Seq::<i64>::empty().lemma_filter_len_push(p, t);
        assert(Seq::<i64>::empty().filter(p).len() == 0) by {
            reveal(Seq::filter);
        }
    }
}

/// Of the elements of `s`, only those before position `k` or only those
/// from `k` on can pass `p`: the count that pass is bounded accordingly.
proof fn lemma_filter_len_split(s: Seq<i64>, p: spec_fn(i64) -> bool, k: int)
    requires
        0 <= k <= s.len(),
    ensures
        (forall|j: int| k <= j < s.len() ==> !p(#[trigger] s[j])) ==> s.filter(p).len() <= k,
        (forall|j: int| 0 <= j < k ==> !p(#[trigger] s[j])) ==> s.filter(p).len() <= s.len() - k,
{
    let x = s.take(k);
    let y = s.skip(k);
    assert(s =~= x + y);
    Seq::filter_distributes_over_add(x, y, p);
    x.lemma_filter_len(p);
    y.lemma_filter_len(p);
    if forall|j: int| k <= j < s.len() ==> !p(#[trigger] s[j]) {
        assert(y.all(|e: i64| !p(e))) by {
            assert forall|j: int| 0 <= j < y.len() implies !p(#[trigger] y[j]) by {
                assert(y[j] == s[k + j]);
            }
        }
        y.lemma_all_neg_filter_empty(p);
    }
    if forall|j: int| 0 <= j < k ==> !p(#[trigger] s[j]) {
        assert(x.all(|e: i64| !p(e))) by {
            assert forall|j: int| 0 <= j < x.len() implies !p(#[trigger] x[j]) by {
                assert(x[j] == s[j]);
            }
        }
        x.lemma_all_neg_filter_empty(p);
    }
}

/// The median splits the levels in half: at most half of them lie below
/// it, and at most half above it.
pub proof fn lemma_median_splits_in_half(values: Seq<i64>)
    requires
        values.len() > 0,
    ensures
        values.filter(below(median_loudness(values))).len() <= values.len() / 2,
        values.filter(above(median_loudness(values))).len() <= values.len() / 2,
{
    broadcast use group_to_multiset_ensures;

    lemma_ascending_total();
    values.lemma_sort_by_ensures(ascending());
    let s = values.sort_by(ascending());
    let m = median_loudness(values);
    assert(s.to_multiset().len() == s.len());
    assert(values.to_multiset().len() == values.len());
    let l = s.len() as int;
    let h = l / 2;
    let lo_at = if l % 2 == 0 {
        h - 1
    } else {
        h
    };
    assert((ascending())(s[lo_at], s[h]));
    assert(s[lo_at] <= m <= s[h]);
    lemma_filter_len_reordered(values, s, below(m));
    lemma_filter_len_reordered(values, s, above(m));
    assert forall|j: int| h <= j < l implies !(below(m))(#[trigger] s[j]) by {
        if j > h {
            assert((ascending())(s[h], s[j]));
        }
    }
    lemma_filter_len_split(s, below(m), h);
    assert forall|j: int| 0 <= j < l - h implies !(above(m))(#[trigger] s[j]) by {
        if j < lo_at {
            assert((ascending())(s[j], s[lo_at]));
        }
    }
    lemma_filter_len_split(s, above(m), l - h);
}

} // verus!
