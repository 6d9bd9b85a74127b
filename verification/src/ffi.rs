//! The byte codes and flat records through which a C caller reads a
//! recommendation map.

use vstd::prelude::*;
use crate::gain_map::{ContentClass, GainRecommendationMap, RegionType};
use crate::level::{Confidence, Db, SampleTime};

verus! {

pub const GAIN_STAGE_REGION_TYPE_STABLE: u8 = 0;
pub const GAIN_STAGE_REGION_TYPE_SILENCE: u8 = 1;
pub const GAIN_STAGE_REGION_TYPE_DIALOGUE: u8 = 2;
pub const GAIN_STAGE_REGION_TYPE_MUSIC: u8 = 3;
pub const GAIN_STAGE_REGION_TYPE_AMBIENCE: u8 = 4;
pub const GAIN_STAGE_REGION_TYPE_PERCUSSIVE: u8 = 5;
pub const GAIN_STAGE_REGION_TYPE_MIXED: u8 = 6;
pub const GAIN_STAGE_REGION_TYPE_UNKNOWN: u8 = 7;

pub const GAIN_STAGE_CLASS_SILENCE: u8 = 0;
pub const GAIN_STAGE_CLASS_DIALOGUE: u8 = 1;
pub const GAIN_STAGE_CLASS_MUSIC: u8 = 2;
pub const GAIN_STAGE_CLASS_AMBIENCE: u8 = 3;
pub const GAIN_STAGE_CLASS_PERCUSSIVE: u8 = 4;
pub const GAIN_STAGE_CLASS_MIXED: u8 = 5;
pub const GAIN_STAGE_CLASS_UNKNOWN: u8 = 6;

/// The byte code of a region label (0 to 7, in declaration order).
pub open spec fn region_type_code(rt: RegionType) -> u8 {
    match rt {
        RegionType::Stable => 0,
        RegionType::Silence => 1,
        RegionType::Dialogue => 2,
        RegionType::Music => 3,
        RegionType::Ambience => 4,
        RegionType::Percussive => 5,
        RegionType::Mixed => 6,
        RegionType::Unknown => 7,
    }
}

/// The byte code of a content class (0 to 6, in declaration order).
pub open spec fn content_class_code(cc: ContentClass) -> u8 {
    match cc {
        ContentClass::Silence => 0,
        ContentClass::Dialogue => 1,
        ContentClass::Music => 2,
        ContentClass::Ambience => 3,
        ContentClass::Percussive => 4,
        ContentClass::Mixed => 5,
        ContentClass::Unknown => 6,
    }
}

/// The byte code of a region label.
pub fn region_type_to_byte(rt: RegionType) -> (b: u8)
    ensures
        b == region_type_code(rt),
{
    match rt {
        RegionType::Stable => GAIN_STAGE_REGION_TYPE_STABLE,
        RegionType::Silence => GAIN_STAGE_REGION_TYPE_SILENCE,
        RegionType::Dialogue => GAIN_STAGE_REGION_TYPE_DIALOGUE,
        RegionType::Music => GAIN_STAGE_REGION_TYPE_MUSIC,
        RegionType::Ambience => GAIN_STAGE_REGION_TYPE_AMBIENCE,
        RegionType::Percussive => GAIN_STAGE_REGION_TYPE_PERCUSSIVE,
        RegionType::Mixed => GAIN_STAGE_REGION_TYPE_MIXED,
        RegionType::Unknown => GAIN_STAGE_REGION_TYPE_UNKNOWN,
    }
}

/// The byte code of a content class.
pub fn content_class_to_byte(cc: ContentClass) -> (b: u8)
    ensures
        b == content_class_code(cc),
{
    match cc {
        ContentClass::Silence => GAIN_STAGE_CLASS_SILENCE,
        ContentClass::Dialogue => GAIN_STAGE_CLASS_DIALOGUE,
        ContentClass::Music => GAIN_STAGE_CLASS_MUSIC,
        ContentClass::Ambience => GAIN_STAGE_CLASS_AMBIENCE,
        ContentClass::Percussive => GAIN_STAGE_CLASS_PERCUSSIVE,
        ContentClass::Mixed => GAIN_STAGE_CLASS_MIXED,
        ContentClass::Unknown => GAIN_STAGE_CLASS_UNKNOWN,
    }
}

/// A recommendation flattened for the C interface.
#[derive(Debug, Clone, Copy, PartialEq, Eq, Structural)]
pub struct RecommendationRecord {
    pub start_time: SampleTime,
    pub end_time: SampleTime,
    pub gain_db: Db,
    pub confidence: Confidence,
    /// How sure the classification of the region is.
    pub classification_confidence: Confidence,
    pub region_type: u8,
    pub content_class: u8,
    /// 1 when the gain applies, 0 otherwise.
    pub is_applicable: u8,
}

/// The all-zero record handed out for an index past the end of a map.
pub open spec fn is_zeroed_record(r: RecommendationRecord) -> bool {
    &&& r.start_time == SampleTime { sample: 0, sample_rate: 1 }
    &&& r.end_time == SampleTime { sample: 0, sample_rate: 1 }
    &&& r.gain_db.nano == 0
    &&& r.confidence.ppm == 0
    &&& r.classification_confidence.ppm == 0
    &&& r.region_type == 0
    &&& r.content_class == 0
    &&& r.is_applicable == 0
}

/// Recommendation `index` of `map` as a flat record, or the all-zero record
/// when the map has no such recommendation.
pub fn recommendation_record(map: &GainRecommendationMap, index: usize) -> (r: RecommendationRecord)
    ensures
        index >= map.recommendations@.len() ==> is_zeroed_record(r),
        index < map.recommendations@.len() ==> {
            let g = map.recommendations@[index as int];
            &&& r.start_time == g.start_time
            &&& r.end_time == g.end_time
            &&& r.gain_db == g.decision.gain_db
            &&& r.confidence == g.decision.confidence
            &&& r.classification_confidence == g.analysis@.classification_confidence
            &&& r.region_type == region_type_code(g.analysis@.region_type)
            &&& r.content_class == content_class_code(g.analysis@.content_class)
            &&& r.is_applicable == (if g.decision.is_applicable { 1u8 } else { 0u8 })
        },
{
    if index >= map.recommendations.len() {
        return RecommendationRecord {
            start_time: SampleTime::zero(),
            end_time: SampleTime::zero(),
            gain_db: Db { nano: 0 },
            confidence: Confidence { ppm: 0 },
            classification_confidence: Confidence { ppm: 0 },
            region_type: 0,
            content_class: 0,
            is_applicable: 0,
        };
    }
    let g = &map.recommendations[index];
    RecommendationRecord {
        start_time: g.start_time,
        end_time: g.end_time,
        gain_db: g.decision.gain_db,
        confidence: g.decision.confidence,
        classification_confidence: g.analysis.classification_confidence(),
        region_type: region_type_to_byte(g.analysis.region_type()),
        content_class: content_class_to_byte(g.analysis.content_class()),
        is_applicable: if g.decision.is_applicable {
            1
        } else {
            0
        },
    }
}

} // verus!
