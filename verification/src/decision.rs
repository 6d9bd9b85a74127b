//! Per-region gain decisions: silent regions are left alone; every other
//! region gets the gain that brings its chosen measurement to the target.

use vstd::prelude::*;
use crate::error::GainError;
use crate::gain_map::{
    AnalysisBundle, ContentClass, GainRecommendationMap, GainRegion, MeasureType, Measurements,
    PresetId, RegionAnalysis, RegionAnalysisView, RegionDecision, GAIN_MAP_SCHEMA_VERSION,
};
use crate::level::{db_difference, Confidence, Db, SampleTime};
use crate::text::{one_decimal, push_one_decimal};

verus! {

/// The level a measure reads from a region's measurements; LUFS falls back
/// to the RMS level where no integrated loudness was measured.
pub open spec fn measured_level(m: Measurements, measure: MeasureType) -> Db {
    match measure {
        MeasureType::Peak => m.peak_dbfs,
        MeasureType::Rms => m.rms_dbfs,
        MeasureType::Lufs => match m.integrated_lufs.value {
            Some(v) => v,
            None => m.rms_dbfs,
        },
    }
}

/// The name of a measure as it appears in a decision's reason.
pub open spec fn measure_label(measure: MeasureType) -> Seq<char> {
    match measure {
        MeasureType::Peak => "Peak"@,
        MeasureType::Rms => "RMS"@,
        MeasureType::Lufs => "LUFS"@,
    }
}

/// The reason given for a gain towards `target`, e.g. `Target -12.0 dBFS via Peak`.
pub open spec fn reason_text(target: Db, measure: MeasureType) -> Seq<char> {
    "Target "@ + one_decimal(target.nano as int) + " dBFS via "@ + measure_label(measure)
}

/// The reason given to a silent region, which gets no gain.
pub open spec fn silence_reason() -> Seq<char> {
    "Silence region \u{2014} not a recommendation domain"@
}

/// How far a region's length lets a decision on it be trusted, in
/// millionths: 0.9 for a region of a second or more at `sample_rate`, 0.75
/// for one of at least half a second, 0.6 for a shorter one.
pub open spec fn duration_confidence(region: RegionAnalysisView, sample_rate: u32) -> int {
    let len = region.end_sample - region.start_sample;
    if len >= sample_rate {
        900_000
    } else if 2 * len >= sample_rate {
        750_000
    } else {
        600_000
    }
}

/// The product of two confidences in millionths, in millionths, rounded
/// towards zero.
pub open spec fn scaled_confidence(c: int, factor: int) -> int {
    let p = c * factor;
    if p >= 0 {
        p / 1_000_000
    } else {
        -((-p) / 1_000_000)
    }
}

/// `d` is the decision for `region` of a recording at `sample_rate` under
/// `measure` and `target`: silence is not a recommendation domain (no gain,
/// no confidence, `silence_reason`); anything else takes the gain
/// `target - measured level`, and the region's classification confidence
/// scaled by `duration_confidence`.
pub open spec fn is_decision_for(
    d: RegionDecision,
    region: RegionAnalysisView,
    sample_rate: u32,
    measure: MeasureType,
    target: Db,
) -> bool {
    if region.content_class == ContentClass::Silence {
        &&& !d.is_applicable
        &&& d.gain_db.nano == 0
        &&& d.confidence.ppm == 0
        &&& d.reason@ == silence_reason()
    } else {
        &&& d.is_applicable
        &&& d.gain_db == db_difference(target, measured_level(region.measurements, measure))
        &&& d.confidence.ppm == scaled_confidence(
            region.classification_confidence.ppm as int,
            duration_confidence(region, sample_rate),
        )
        &&& d.reason@ == reason_text(target, measure)
    }
}

/// `g` is the recommendation for `region` of a recording at `sample_rate`.
pub open spec fn is_recommendation_for(
    g: GainRegion,
    region: RegionAnalysisView,
    sample_rate: u32,
    measure: MeasureType,
    target: Db,
) -> bool {
    &&& g.start_time == SampleTime { sample: region.start_sample, sample_rate }
    &&& g.end_time == SampleTime { sample: region.end_sample, sample_rate }
    &&& g.analysis@ == region
    &&& is_decision_for(g.decision, region, sample_rate, measure, target)
}

/// `map` holds, in order, one recommendation for each of `regions`.
pub open spec fn is_map_for(
    map: GainRecommendationMap,
    regions: Seq<RegionAnalysis>,
    sample_rate: u32,
    measure: MeasureType,
    target: Db,
    preset_id: PresetId,
) -> bool {
    &&& map.version == GAIN_MAP_SCHEMA_VERSION
    &&& map.preset_used == Some(preset_id)
    &&& map.recommendations@.len() == regions.len()
    &&& forall|k: int|
        0 <= k < regions.len() ==> is_recommendation_for(
            #[trigger] map.recommendations@[k],
            regions[k]@,
            sample_rate,
            measure,
            target,
        )
}

fn measure_name(measure: MeasureType) -> (s: &'static str)
    ensures
        s@ == measure_label(measure),
{
    match measure {
        MeasureType::Peak => "Peak",
        MeasureType::Rms => "RMS",
        MeasureType::Lufs => "LUFS",
    }
}

/// The reason text for a gain towards `target` via `measure`.
pub fn target_reason(target: Db, measure: MeasureType) -> (s: String)
    ensures
        s@ == reason_text(target, measure),
{
    let mut s = String::from_str("Target ");
    push_one_decimal(&mut s, target.nano);
    s.append(" dBFS via ");
    s.append(measure_name(measure));
    s
}

/// The level `measure` reads from `m`.
pub fn measured_level_of(m: &Measurements, measure: MeasureType) -> (r: Db)
    ensures
        r == measured_level(*m, measure),
{
    match measure {
        MeasureType::Peak => m.peak_dbfs,
        MeasureType::Rms => m.rms_dbfs,
        MeasureType::Lufs => match m.integrated_lufs.value {
            Some(v) => v,
            None => m.rms_dbfs,
        },
    }
}

/// The length factor of `region` at `sample_rate`, in millionths.
fn duration_factor(region: &RegionAnalysis, sample_rate: u32) -> (f: i64)
    ensures
        f as int == duration_confidence(region@, sample_rate),
{
    let start = region.start_sample();
    let end = region.end_sample();
    if end < start {
        return 600_000;
    }
    let len: usize = end - start;
    if len >= sample_rate as usize {
        900_000
    } else if len >= (sample_rate - sample_rate / 2) as usize {
        750_000
    } else {
        600_000
    }
}

/// `c` scaled by `factor`, both in millionths.
fn scale_confidence(c: Confidence, factor: i64) -> (r: Confidence)
    requires
        0 <= factor <= 1_000_000,
    ensures
        r.ppm == scaled_confidence(c.ppm as int, factor as int),
{
    let ci: i64 = c.ppm as i64;
    proof {
        assert(-0x8000_0000 * 1_000_000 <= ci * factor <= 0x7fff_ffff * 1_000_000) by (nonlinear_arith)
            requires
                -0x8000_0000 <= ci <= 0x7fff_ffff,
                0 <= factor <= 1_000_000,
        ;
    }
    let p: i64 = ci * factor;
    if p >= 0 {
        let q: i64 = p / 1_000_000;
        proof {
            assert(q <= 0x7fff_ffff) by (nonlinear_arith)
                requires
                    ci <= 0x7fff_ffff,
                    p == ci * factor,
                    0 <= factor <= 1_000_000,
                    p >= 0,
                    q == p / 1_000_000,
            ;
        }
        Confidence { ppm: q as i32 }
    } else {
        let n: i64 = -p;
        let q: i64 = n / 1_000_000;
        proof {
            assert(q <= 0x8000_0000) by (nonlinear_arith)
                requires
                    -0x8000_0000 <= ci,
                    n == -(ci * factor),
                    0 <= factor <= 1_000_000,
                    n > 0,
                    q == n / 1_000_000,
            ;
        }
        Confidence { ppm: (-q) as i32 }
    }
}

/// The recommendation for one region.
pub fn recommend_region(
    region: &RegionAnalysis,
    sample_rate: u32,
    measure: MeasureType,
    target_db: Db,
) -> (g: GainRegion)
    ensures
        is_recommendation_for(g, region@, sample_rate, measure, target_db),
{
    let start_time = SampleTime { sample: region.start_sample(), sample_rate };
    let end_time = SampleTime { sample: region.end_sample(), sample_rate };
    if region.content_class() == ContentClass::Silence {
        return GainRegion {
            start_time,
            end_time,
            analysis: region.duplicate(),
            decision: RegionDecision {
                is_applicable: false,
                gain_db: Db { nano: 0 },
                confidence: Confidence { ppm: 0 },
                reason: String::from_str("Silence region \u{2014} not a recommendation domain"),
            },
        };
    }
    let measured_db = measured_level_of(&region.measurements(), measure);
    let gain_db = target_db.minus(measured_db);
    let factor = duration_factor(region, sample_rate);
    GainRegion {
        start_time,
        end_time,
        analysis: region.duplicate(),
        decision: RegionDecision {
            is_applicable: true,
            gain_db,
            confidence: scale_confidence(region.classification_confidence(), factor),
            reason: target_reason(target_db, measure),
        },
    }
}

/// One recommendation per region of `bundle`, in order, all towards
/// `target_db` as read by `measure`, in a map tagged with `preset_id`.
pub fn recommend_regions(
    bundle: &AnalysisBundle,
    measure: MeasureType,
    target_db: Db,
    preset_id: PresetId,
) -> (r: Result<GainRecommendationMap, GainError>)
    ensures
        r matches Ok(map) && is_map_for(
            map,
            bundle.regions@,
            bundle.sample_rate,
            measure,
            target_db,
            preset_id,
        ),
{
    let mut recommendations: Vec<GainRegion> = Vec::new();
    let mut k: usize = 0;
    while k < bundle.regions.len()
        invariant
            k <= bundle.regions@.len(),
            recommendations@.len() == k,
            forall|j: int|
                0 <= j < k ==> is_recommendation_for(
                    #[trigger] recommendations@[j],
                    bundle.regions@[j]@,
                    bundle.sample_rate,
                    measure,
                    target_db,
                ),
        decreases bundle.regions.len() - k,
    {
        let g = recommend_region(&bundle.regions[k], bundle.sample_rate, measure, target_db);
        let ghost old_recs = recommendations@;
        recommendations.push(g);
        proof {
            assert forall|j: int|
                0 <= j < k + 1 implies is_recommendation_for(
                #[trigger] recommendations@[j],
                bundle.regions@[j]@,
                bundle.sample_rate,
                measure,
                target_db,
            ) by {
                if j < k {
                    assert(old_recs[j] == recommendations@[j]);
                }
            }
        }
        k += 1;
    }
    Ok(
        GainRecommendationMap {
            version: GAIN_MAP_SCHEMA_VERSION,
            preset_used: Some(preset_id),
            recommendations,
        },
    )
}

/// In a map for `regions`, only silent regions go without a gain. Every
/// other region gets an applicable decision whose gain is the target minus
/// the level that `measure` reads: the peak level, the RMS level, or the
/// integrated loudness where one was measured and the RMS level otherwise.
/// Its confidence is the classification confidence scaled, rounding down,
/// by 0.9 for a region of a second or more, by 0.75 for one of half a
/// second or more, and by 0.6 for a shorter one.
pub proof fn lemma_map_decisions(
    map: GainRecommendationMap,
    regions: Seq<RegionAnalysis>,
    sample_rate: u32,
    measure: MeasureType,
    target: Db,
    preset_id: PresetId,
    k: int,
)
    requires
        is_map_for(map, regions, sample_rate, measure, target, preset_id),
        0 <= k < regions.len(),
    ensures
        regions[k]@.content_class == ContentClass::Silence ==> !map.recommendations@[k].decision.is_applicable
            && map.recommendations@[k].decision.gain_db.nano == 0
            && map.recommendations@[k].decision.confidence.ppm == 0,
        regions[k]@.content_class != ContentClass::Silence ==> map.recommendations@[k].decision.is_applicable,
        regions[k]@.content_class != ContentClass::Silence && measure == MeasureType::Peak
            ==> map.recommendations@[k].decision.gain_db == db_difference(target, regions[k]@.measurements.peak_dbfs),
        regions[k]@.content_class != ContentClass::Silence && measure == MeasureType::Rms
            ==> map.recommendations@[k].decision.gain_db == db_difference(target, regions[k]@.measurements.rms_dbfs),
        regions[k]@.content_class != ContentClass::Silence && measure == MeasureType::Lufs
            && regions[k]@.measurements.integrated_lufs.value is Some
            ==> map.recommendations@[k].decision.gain_db == db_difference(
            target,
            regions[k]@.measurements.integrated_lufs.value.unwrap(),
        ),
        regions[k]@.content_class != ContentClass::Silence && measure == MeasureType::Lufs
            && regions[k]@.measurements.integrated_lufs.value is None
            ==> map.recommendations@[k].decision.gain_db == db_difference(target, regions[k]@.measurements.rms_dbfs),
        regions[k]@.content_class != ContentClass::Silence && regions[k]@.classification_confidence.ppm >= 0
            && regions[k]@.end_sample - regions[k]@.start_sample >= sample_rate ==> {
            let p = map.recommendations@[k].decision.confidence.ppm as int;
            let c = regions[k]@.classification_confidence.ppm as int;
            p * 10 <= c * 9 < p * 10 + 10
        },
        regions[k]@.content_class != ContentClass::Silence && regions[k]@.classification_confidence.ppm >= 0
            && regions[k]@.end_sample - regions[k]@.start_sample < sample_rate
            && 2 * (regions[k]@.end_sample - regions[k]@.start_sample) >= sample_rate ==> {
            let p = map.recommendations@[k].decision.confidence.ppm as int;
            let c = regions[k]@.classification_confidence.ppm as int;
            p * 4 <= c * 3 < p * 4 + 4
        },
        regions[k]@.content_class != ContentClass::Silence && regions[k]@.classification_confidence.ppm >= 0
            && 2 * (regions[k]@.end_sample - regions[k]@.start_sample) < sample_rate ==> {
            let p = map.recommendations@[k].decision.confidence.ppm as int;
            let c = regions[k]@.classification_confidence.ppm as int;
            p * 5 <= c * 3 < p * 5 + 5
        },
{
    assert(is_recommendation_for(map.recommendations@[k], regions[k]@, sample_rate, measure, target));
    let c = regions[k]@.classification_confidence.ppm as int;
    let p = map.recommendations@[k].decision.confidence.ppm as int;
    if regions[k]@.content_class != ContentClass::Silence && c >= 0 {
        let f = duration_confidence(regions[k]@, sample_rate);
        assert(p == (c * f) / 1_000_000);
        assert(c * f >= 0) by (nonlinear_arith)
            requires
                c >= 0,
                f >= 0,
        ;
        if f == 900_000 {
            assert(p * 10 <= c * 9 < p * 10 + 10) by (nonlinear_arith)
                requires
                    p == (c * 900_000) / 1_000_000,
                    c >= 0,
            ;
        } else if f == 750_000 {
            assert(p * 4 <= c * 3 < p * 4 + 4) by (nonlinear_arith)
                requires
                    p == (c * 750_000) / 1_000_000,
                    c >= 0,
            ;
        } else {
            assert(p * 5 <= c * 3 < p * 5 + 5) by (nonlinear_arith)
                requires
                    p == (c * 600_000) / 1_000_000,
                    c >= 0,
            ;
        }
    }
}

} // verus!
