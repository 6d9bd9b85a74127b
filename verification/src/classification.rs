//! Content classification of measured regions by seven rules taken in
//! priority order (the first rule that matches wins):
//!
//! 1. Silence: RMS below -60 dBFS;
//! 2. Percussive: crest factor above 18 dB;
//! 3. Dialogue: crest factor in [8, 18] dB and RMS at least -40 dBFS;
//! 4. Music: crest factor below 8 dB and RMS at least -24 dBFS;
//! 5. Ambience: RMS strictly between -60 and -40 dBFS;
//! 6. Mixed: crest factor at least 8 dB and RMS at least -40 dBFS;
//! 7. Unknown otherwise.

use vstd::prelude::*;
use crate::gain_map::{ContentClass, Measurements, RegionAnalysis, region_type_of_class};
use crate::level::{whole_db, Confidence};
use crate::segmentation::Segment;

verus! {

/// The class and confidence that the seven rules give to a measurement.
pub open spec fn classification_of(m: Measurements) -> (ContentClass, int) {
    let rms = m.rms_dbfs.nano as int;
    let crest = m.crest_factor_db.nano as int;
    if rms < whole_db(-60) {
        (ContentClass::Silence, 1_000_000)
    } else if crest > whole_db(18) {
        (ContentClass::Percussive, 800_000)
    } else if crest >= whole_db(8) && crest <= whole_db(18) && rms >= whole_db(-40) {
        (ContentClass::Dialogue, 750_000)
    } else if crest < whole_db(8) && rms >= whole_db(-24) {
        (ContentClass::Music, 800_000)
    } else if rms > whole_db(-60) && rms < whole_db(-40) {
        (ContentClass::Ambience, 700_000)
    } else if crest >= whole_db(8) && rms >= whole_db(-40) {
        (ContentClass::Mixed, 600_000)
    } else {
        (ContentClass::Unknown, 500_000)
    }
}

/// Applies the seven rules to a measurement: its class and the confidence
/// (in millionths) that goes with the rule that matched.
pub fn classify_measurements(m: &Measurements) -> (r: (ContentClass, Confidence))
    ensures
        r.0 == classification_of(*m).0,
        r.1.ppm == classification_of(*m).1,
{
    let rms = m.rms_dbfs.nano;
    let crest = m.crest_factor_db.nano;
    if rms < -60_000_000_000 {
        return (ContentClass::Silence, Confidence { ppm: 1_000_000 });
    }
    if crest > 18_000_000_000 {
        return (ContentClass::Percussive, Confidence { ppm: 800_000 });
    }
    if crest >= 8_000_000_000 && crest <= 18_000_000_000 && rms >= -40_000_000_000 {
        return (ContentClass::Dialogue, Confidence { ppm: 750_000 });
    }
    if crest < 8_000_000_000 && rms >= -24_000_000_000 {
        return (ContentClass::Music, Confidence { ppm: 800_000 });
    }
    if rms > -60_000_000_000 && rms < -40_000_000_000 {
        return (ContentClass::Ambience, Confidence { ppm: 700_000 });
    }
    if crest >= 8_000_000_000 && rms >= -40_000_000_000 {
        return (ContentClass::Mixed, Confidence { ppm: 600_000 });
    }
    (ContentClass::Unknown, Confidence { ppm: 500_000 })
}

/// The rule for mixed content can never fire: every measurement it would
/// accept is already taken by the percussive or the dialogue rule.
pub proof fn lemma_mixed_never_chosen(m: Measurements)
    ensures
        classification_of(m).0 != ContentClass::Mixed,
{
}

/// A region built from a segment, its measurements, and their
/// classification.
pub open spec fn is_classified_region(r: RegionAnalysis, seg: Segment, m: Measurements) -> bool {
    &&& r@.start_sample == seg.start_sample
    &&& r@.end_sample == seg.end_sample
    &&& r@.measurements == m
    &&& r@.content_class == classification_of(m).0
    &&& r@.classification_confidence.ppm == classification_of(m).1
    &&& r@.classification_vector is None
    &&& r@.region_type == region_type_of_class(classification_of(m).0)
}

/// Classifies each segment from its measurements (`measurements[k]` belongs
/// to `segments[k]`), one region per segment in order.
pub fn classify_segments(segments: &[Segment], measurements: &[Measurements]) -> (r: Vec<RegionAnalysis>)
    requires
        segments@.len() == measurements@.len(),
    ensures
        r@.len() == segments@.len(),
        forall|k: int|
            0 <= k < r@.len() ==> is_classified_region(#[trigger] r@[k], segments@[k], measurements@[k]),
{
    let mut out: Vec<RegionAnalysis> = Vec::new();
    let mut k: usize = 0;
    while k < segments.len()
        invariant
            k <= segments@.len(),
            segments@.len() == measurements@.len(),
            out@.len() == k,
            forall|j: int|
                0 <= j < k ==> is_classified_region(#[trigger] out@[j], segments@[j], measurements@[j]),
        decreases segments.len() - k,
    {
        let seg = segments[k];
        let m = measurements[k];
        let (content_class, confidence) = classify_measurements(&m);
        let region = RegionAnalysis::from_classification(
            seg.start_sample,
            seg.end_sample,
            m,
            content_class,
            confidence,
            None,
        );
        let ghost old_out = out@;
        out.push(region);
        proof {
            assert forall|j: int|
                0 <= j < k + 1 implies is_classified_region(#[trigger] out@[j], segments@[j], measurements@[j]) by {
                if j < k {
                    assert(old_out[j] == out@[j]);
                }
            }
        }
        k += 1;
    }
    out
}

/// The seven rules in their order of priority, as a partition of all
/// measurements by RMS level and crest factor (in nano-decibels): below
/// -60 dB RMS is silence; otherwise a crest factor above 18 dB is percussive
/// whatever the level; from -40 dB RMS up, a crest factor of 8 to 18 dB is
/// dialogue; from -24 dB RMS up, one under 8 dB is music; strictly between
/// -60 and -40 dB RMS the rest is ambience; and everything left (RMS at
/// exactly -60 dB, or from -40 dB up to -24 dB with a crest factor under
/// 8 dB) is unknown.
pub proof fn lemma_classification_priority(m: Measurements)
    ensures
        m.rms_dbfs.nano < -60_000_000_000 ==> classification_of(m) == (ContentClass::Silence, 1_000_000int),
        m.rms_dbfs.nano >= -60_000_000_000 && m.crest_factor_db.nano > 18_000_000_000
            ==> classification_of(m) == (ContentClass::Percussive, 800_000int),
        m.rms_dbfs.nano >= -40_000_000_000 && 8_000_000_000 <= m.crest_factor_db.nano
            <= 18_000_000_000 ==> classification_of(m) == (ContentClass::Dialogue, 750_000int),
        m.rms_dbfs.nano >= -24_000_000_000 && m.crest_factor_db.nano < 8_000_000_000
            ==> classification_of(m) == (ContentClass::Music, 800_000int),
        -60_000_000_000 < m.rms_dbfs.nano < -40_000_000_000 && m.crest_factor_db.nano
            <= 18_000_000_000 ==> classification_of(m) == (ContentClass::Ambience, 700_000int),
        (m.rms_dbfs.nano == -60_000_000_000 && m.crest_factor_db.nano <= 18_000_000_000) || (
        -40_000_000_000 <= m.rms_dbfs.nano < -24_000_000_000 && m.crest_factor_db.nano
            < 8_000_000_000) ==> classification_of(m) == (ContentClass::Unknown, 500_000int),
{
}

} // verus!
