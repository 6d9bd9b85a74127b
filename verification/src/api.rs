//! The two-step recommendation interface: presets, and whole-file and
//! per-region recommendations.

use vstd::prelude::*;
use crate::decision::{is_map_for, is_recommendation_for, recommend_regions};
use crate::classification::is_classified_region;
use crate::error::GainError;
use crate::gain_map::{
    whole_file_view, AnalysisBundle, ContentClass, GainRecommendationMap, GainRegion,
    MeasureType, MeasurementQuality, Measurements, PresetId, RegionAnalysis, RegionAnalysisView,
    GAIN_MAP_SCHEMA_VERSION,
};
use crate::level::{db_difference, whole_db, Db, SampleTime};
use crate::segmentation::{is_segmentation, Segment};
use crate::text::{decimal, push_decimal};

verus! {

/// A recommendation preset: which measurement to aim at and the target level.
#[derive(Debug, Clone, Copy, PartialEq, Eq, Structural)]
pub enum RecommendationPreset {
    MixPrepConservative,
    MixPrepStandard,
    MixPrepAggressive,
    AnalogConsole,
    AnalogConsoleHot,
    DialoguePrep,
    DialogueBroadcast,
    PodcastPrep,
    VoiceoverPrep,
    MusicStemPrep,
    FilmDialogue,
    AlbumConsistency,
    Custom { measure: MeasureType, target_db: Db },
}

/// `db` whole decibels.
pub open spec fn db(db: int) -> Db {
    Db { nano: whole_db(db) as i64 }
}

/// The measure, the target level and the preset identity of each preset.
pub open spec fn preset_params(preset: RecommendationPreset) -> (MeasureType, Db, PresetId) {
    match preset {
        RecommendationPreset::MixPrepConservative => (MeasureType::Peak, db(-18), PresetId::MixPrepConservative),
        RecommendationPreset::MixPrepStandard => (MeasureType::Peak, db(-12), PresetId::MixPrepStandard),
        RecommendationPreset::MixPrepAggressive => (MeasureType::Peak, db(-6), PresetId::MixPrepAggressive),
        RecommendationPreset::AnalogConsole => (MeasureType::Rms, db(-18), PresetId::AnalogConsole),
        RecommendationPreset::AnalogConsoleHot => (MeasureType::Rms, db(-14), PresetId::AnalogConsoleHot),
        RecommendationPreset::DialoguePrep => (MeasureType::Peak, db(-10), PresetId::DialoguePrep),
        RecommendationPreset::DialogueBroadcast => (MeasureType::Lufs, db(-24), PresetId::DialogueBroadcast),
        RecommendationPreset::PodcastPrep => (MeasureType::Lufs, db(-16), PresetId::PodcastPrep),
        RecommendationPreset::VoiceoverPrep => (MeasureType::Lufs, db(-19), PresetId::VoiceoverPrep),
        RecommendationPreset::MusicStemPrep => (MeasureType::Peak, db(-12), PresetId::MusicStemPrep),
        RecommendationPreset::FilmDialogue => (MeasureType::Lufs, db(-27), PresetId::FilmDialogue),
        RecommendationPreset::AlbumConsistency => (MeasureType::Lufs, db(0), PresetId::AlbumConsistency),
        RecommendationPreset::Custom { measure, target_db } => (measure, target_db, PresetId::Custom),
    }
}

/// The measure, target level and preset identity of `preset`.
pub fn preset_to_params(preset: RecommendationPreset) -> (r: (MeasureType, Db, PresetId))
    ensures
        r == preset_params(preset),
{
    match preset {
        RecommendationPreset::MixPrepConservative => (MeasureType::Peak, Db { nano: -18_000_000_000 }, PresetId::MixPrepConservative),
        RecommendationPreset::MixPrepStandard => (MeasureType::Peak, Db { nano: -12_000_000_000 }, PresetId::MixPrepStandard),
        RecommendationPreset::MixPrepAggressive => (MeasureType::Peak, Db { nano: -6_000_000_000 }, PresetId::MixPrepAggressive),
        RecommendationPreset::AnalogConsole => (MeasureType::Rms, Db { nano: -18_000_000_000 }, PresetId::AnalogConsole),
        RecommendationPreset::AnalogConsoleHot => (MeasureType::Rms, Db { nano: -14_000_000_000 }, PresetId::AnalogConsoleHot),
        RecommendationPreset::DialoguePrep => (MeasureType::Peak, Db { nano: -10_000_000_000 }, PresetId::DialoguePrep),
        RecommendationPreset::DialogueBroadcast => (MeasureType::Lufs, Db { nano: -24_000_000_000 }, PresetId::DialogueBroadcast),
        RecommendationPreset::PodcastPrep => (MeasureType::Lufs, Db { nano: -16_000_000_000 }, PresetId::PodcastPrep),
        RecommendationPreset::VoiceoverPrep => (MeasureType::Lufs, Db { nano: -19_000_000_000 }, PresetId::VoiceoverPrep),
        RecommendationPreset::MusicStemPrep => (MeasureType::Peak, Db { nano: -12_000_000_000 }, PresetId::MusicStemPrep),
        RecommendationPreset::FilmDialogue => (MeasureType::Lufs, Db { nano: -27_000_000_000 }, PresetId::FilmDialogue),
        RecommendationPreset::AlbumConsistency => (MeasureType::Lufs, Db { nano: 0 }, PresetId::AlbumConsistency),
        RecommendationPreset::Custom { measure, target_db } => (measure, target_db, PresetId::Custom),
    }
}

/// The preset that a numeric code selects (codes 0 to 11, in declaration
/// order; there is no code for a custom preset).
pub open spec fn preset_of_code(code: u8) -> Option<RecommendationPreset> {
    if code == 0 {
        Some(RecommendationPreset::MixPrepConservative)
    } else if code == 1 {
        Some(RecommendationPreset::MixPrepStandard)
    } else if code == 2 {
        Some(RecommendationPreset::MixPrepAggressive)
    } else if code == 3 {
        Some(RecommendationPreset::AnalogConsole)
    } else if code == 4 {
        Some(RecommendationPreset::AnalogConsoleHot)
    } else if code == 5 {
        Some(RecommendationPreset::DialoguePrep)
    } else if code == 6 {
        Some(RecommendationPreset::DialogueBroadcast)
    } else if code == 7 {
        Some(RecommendationPreset::PodcastPrep)
    } else if code == 8 {
        Some(RecommendationPreset::VoiceoverPrep)
    } else if code == 9 {
        Some(RecommendationPreset::MusicStemPrep)
    } else if code == 10 {
        Some(RecommendationPreset::FilmDialogue)
    } else if code == 11 {
        Some(RecommendationPreset::AlbumConsistency)
    } else {
        None
    }
}

/// The preset of a numeric code; an unknown code is an internal error whose
/// details name the code.
pub fn preset_from_u8(code: u8) -> (r: Result<RecommendationPreset, GainError>)
    ensures
        code <= 11 ==> r == Ok::<RecommendationPreset, GainError>(preset_of_code(code).unwrap()),
        code > 11 ==> (r matches Err(GainError::InternalError { details }) && details@
            == "unknown preset code "@ + decimal(code as nat)),
{
    match code {
        0 => Ok(RecommendationPreset::MixPrepConservative),
        1 => Ok(RecommendationPreset::MixPrepStandard),
        2 => Ok(RecommendationPreset::MixPrepAggressive),
        3 => Ok(RecommendationPreset::AnalogConsole),
        4 => Ok(RecommendationPreset::AnalogConsoleHot),
        5 => Ok(RecommendationPreset::DialoguePrep),
        6 => Ok(RecommendationPreset::DialogueBroadcast),
        7 => Ok(RecommendationPreset::PodcastPrep),
        8 => Ok(RecommendationPreset::VoiceoverPrep),
        9 => Ok(RecommendationPreset::MusicStemPrep),
        10 => Ok(RecommendationPreset::FilmDialogue),
        11 => Ok(RecommendationPreset::AlbumConsistency),
        n => {
            let mut details = String::from_str("unknown preset code ");
            push_decimal(&mut details, n as u64);
            Err(GainError::InternalError { details })
        },
    }
}

/// What the whole-file steps need to know of an analysed recording: its
/// measurements, its sample rate, and its length in samples.
#[derive(Debug, Clone, Copy)]
pub struct TrackAnalysis {
    pub measurements: Measurements,
    pub sample_rate: u32,
    pub total_samples: usize,
}

/// `map` holds one recommendation: for the whole of `track` as one stable
/// region, towards `target` via `measure`, tagged with `preset_id`.
pub open spec fn is_whole_file_map(
    map: GainRecommendationMap,
    track: TrackAnalysis,
    measure: MeasureType,
    target: Db,
    preset_id: PresetId,
) -> bool {
    &&& map.version == GAIN_MAP_SCHEMA_VERSION
    &&& map.preset_used == Some(preset_id)
    &&& map.recommendations@.len() == 1
    &&& is_recommendation_for(
        map.recommendations@[0],
        whole_file_view(track.measurements, track.total_samples),
        track.sample_rate,
        measure,
        target,
    )
}

/// A loudness-based target cannot be applied to a track whose integrated
/// loudness is only a placeholder.
pub open spec fn lufs_unavailable(track: TrackAnalysis, measure: MeasureType) -> bool {
    measure == MeasureType::Lufs && track.measurements.integrated_lufs.quality
        == MeasurementQuality::Placeholder
}

/// `r` is the error for a loudness target on a track without measured
/// loudness.
pub open spec fn is_lufs_unavailable_error(r: Result<GainRecommendationMap, GainError>) -> bool {
    r matches Err(GainError::AnalysisFailure { details }) && details@
        == "LUFS measurement unavailable for this preset"@
}

/// One whole-file recommendation map for `track`; a loudness target on a
/// track whose integrated loudness is a placeholder is an analysis failure.
pub(crate) fn whole_file_recommendation(
    track: &TrackAnalysis,
    measure: MeasureType,
    target_db: Db,
    preset_id: PresetId,
) -> (r: Result<GainRecommendationMap, GainError>)
    ensures
        lufs_unavailable(*track, measure) ==> is_lufs_unavailable_error(r),
        !lufs_unavailable(*track, measure) ==> (r matches Ok(map) && is_whole_file_map(
            map,
            *track,
            measure,
            target_db,
            preset_id,
        )),
{
    if measure == MeasureType::Lufs && track.measurements.integrated_lufs.quality
        == MeasurementQuality::Placeholder {
        return Err(
            GainError::AnalysisFailure {
                details: String::from_str("LUFS measurement unavailable for this preset"),
            },
        );
    }
    let mut regions: Vec<RegionAnalysis> = Vec::new();
    regions.push(RegionAnalysis::whole_file_stable(track.measurements, track.total_samples));
    let bundle = AnalysisBundle {
        regions,
        sample_rate: track.sample_rate,
        total_samples: track.total_samples,
    };
    let r = recommend_regions(&bundle, measure, target_db, preset_id);
    proof {
        assert(bundle.regions@[0]@ == whole_file_view(track.measurements, track.total_samples));
    }
    r
}

/// Applies `preset` to a whole recording treated as one stable region. A
/// loudness-based preset needs measured integrated loudness: where it is
/// only a placeholder, the result is an analysis failure.
pub fn generate_recommendation(track: &TrackAnalysis, preset: RecommendationPreset) -> (r: Result<
    GainRecommendationMap,
    GainError,
>)
    ensures
        lufs_unavailable(*track, preset_params(preset).0) ==> is_lufs_unavailable_error(r),
        !lufs_unavailable(*track, preset_params(preset).0) ==> (r matches Ok(map)
            && is_whole_file_map(
            map,
            *track,
            preset_params(preset).0,
            preset_params(preset).1,
            preset_params(preset).2,
        )),
{
    let (measure, target_db, preset_id) = preset_to_params(preset);
    whole_file_recommendation(track, measure, target_db, preset_id)
}

/// A loudness target cannot be applied to a region that is not silent and
/// whose integrated loudness is only a placeholder. A silent region gets no
/// gain, so no level of it is read.
pub open spec fn region_lufs_unavailable(region: RegionAnalysisView, measure: MeasureType) -> bool {
    &&& measure == MeasureType::Lufs
    &&& region.content_class != ContentClass::Silence
    &&& region.measurements.integrated_lufs.quality == MeasurementQuality::Placeholder
}

/// Applies `preset` to each region of `bundle`. A loudness-based preset
/// needs measured integrated loudness in every region that is not silent:
/// where one has only a placeholder, the result is an analysis failure.
pub fn generate_region_recommendations(bundle: &AnalysisBundle, preset: RecommendationPreset) -> (r:
    Result<GainRecommendationMap, GainError>)
    ensures
        (exists|k: int|
            0 <= k < bundle.regions@.len() && region_lufs_unavailable(
                (#[trigger] bundle.regions@[k])@,
                preset_params(preset).0,
            )) ==> is_lufs_unavailable_error(r),
        (forall|k: int|
            0 <= k < bundle.regions@.len() ==> !region_lufs_unavailable(
                (#[trigger] bundle.regions@[k])@,
                preset_params(preset).0,
            )) ==> (r matches Ok(map) && is_map_for(
            map,
            bundle.regions@,
            bundle.sample_rate,
            preset_params(preset).0,
            preset_params(preset).1,
            preset_params(preset).2,
        )),
{
    let (measure, target_db, preset_id) = preset_to_params(preset);
    let mut k: usize = 0;
    while k < bundle.regions.len()
        invariant
            k <= bundle.regions@.len(),
            measure == preset_params(preset).0,
            forall|j: int|
                0 <= j < k ==> !region_lufs_unavailable((#[trigger] bundle.regions@[j])@, measure),
        decreases bundle.regions.len() - k,
    {
        let region = &bundle.regions[k];
        if measure == MeasureType::Lufs && region.content_class() != ContentClass::Silence
            && region.measurements().integrated_lufs.quality == MeasurementQuality::Placeholder {
            return Err(
                GainError::AnalysisFailure {
                    details: String::from_str("LUFS measurement unavailable for this preset"),
                },
            );
        }
        k += 1;
    }
    recommend_regions(bundle, measure, target_db, preset_id)
}

/// The recommendations follow one another in time without gap or overlap,
/// none is empty, and together they span samples `[0, total_samples)` at
/// `sample_rate`.
pub open spec fn covers_recording(recs: Seq<GainRegion>, total_samples: int, sample_rate: u32) -> bool {
    &&& recs.len() > 0 ==> {
        &&& recs[0].start_time == (SampleTime { sample: 0, sample_rate })
        &&& recs[recs.len() - 1].end_time.sample == total_samples
        &&& recs[recs.len() - 1].end_time.sample_rate == sample_rate
    }
    &&& forall|k: int| 0 <= k < recs.len() - 1 ==> (#[trigger] recs[k]).end_time == recs[k + 1].start_time
    &&& forall|k: int| 0 <= k < recs.len() ==> (#[trigger] recs[k]).start_time.sample < recs[k].end_time.sample
}

/// The per-region pipeline (segment, classify each segment, recommend for
/// each region) yields a time-ordered map of non-overlapping
/// recommendations that covers the whole recording: the first starts at
/// sample 0, each ends where the next starts, the last ends at the last
/// sample, and none is empty.
pub proof fn lemma_region_map_covers_recording(
    segments: Seq<Segment>,
    labels: Seq<bool>,
    frame_size: int,
    total_samples: int,
    measurements: Seq<Measurements>,
    regions: Seq<RegionAnalysis>,
    map: GainRecommendationMap,
    sample_rate: u32,
    measure: MeasureType,
    target: Db,
    preset_id: PresetId,
)
    requires
        is_segmentation(segments, labels, frame_size, total_samples),
        regions.len() == segments.len(),
        measurements.len() == segments.len(),
        forall|k: int|
            0 <= k < regions.len() ==> is_classified_region(
                #[trigger] regions[k],
                segments[k],
                measurements[k],
            ),
        is_map_for(map, regions, sample_rate, measure, target, preset_id),
    ensures
        map.recommendations@.len() == segments.len(),
        (map.recommendations@.len() == 0) == (labels.len() == 0),
        covers_recording(map.recommendations@, total_samples, sample_rate),
{
    let recs = map.recommendations@;
    assert forall|k: int| 0 <= k < recs.len() implies (#[trigger] recs[k]).start_time.sample
        == segments[k].start_sample && recs[k].end_time.sample == segments[k].end_sample
        && recs[k].start_time.sample_rate == sample_rate && recs[k].end_time.sample_rate
        == sample_rate by {
        assert(is_classified_region(regions[k], segments[k], measurements[k]));
        assert(is_recommendation_for(recs[k], regions[k]@, sample_rate, measure, target));
    }
    assert forall|k: int| 0 <= k < recs.len() - 1 implies (#[trigger] recs[k]).end_time
        == recs[k + 1].start_time by {
        assert(recs[k].end_time.sample == segments[k].end_sample);
        assert(recs[k + 1].start_time.sample == segments[k + 1].start_sample);
        assert(segments[k].end_sample == segments[k + 1].start_sample);
    }
    assert forall|k: int| 0 <= k < recs.len() implies (#[trigger] recs[k]).start_time.sample
        < recs[k].end_time.sample by {
        assert(segments[k].start_sample < segments[k].end_sample);
    }
    if recs.len() > 0 {
        assert(recs[0].start_time.sample == segments[0].start_sample);
        assert(recs[recs.len() - 1].end_time.sample == segments[segments.len() - 1].end_sample);
    }
}

/// A whole-file recommendation always applies, and its gain is the target
/// minus the level that `measure` reads from the track: the peak level, the
/// RMS level, or the integrated loudness where one was measured (whatever
/// the short-term, momentary and true-peak values are) and the RMS level
/// otherwise.
pub proof fn lemma_whole_file_gain(
    map: GainRecommendationMap,
    track: TrackAnalysis,
    measure: MeasureType,
    target: Db,
    preset_id: PresetId,
)
    requires
        is_whole_file_map(map, track, measure, target, preset_id),
    ensures
        map.recommendations@[0].decision.is_applicable,
        measure == MeasureType::Peak ==> map.recommendations@[0].decision.gain_db == db_difference(
            target,
            track.measurements.peak_dbfs,
        ),
        measure == MeasureType::Rms ==> map.recommendations@[0].decision.gain_db == db_difference(
            target,
            track.measurements.rms_dbfs,
        ),
        measure == MeasureType::Lufs && track.measurements.integrated_lufs.value is Some
            ==> map.recommendations@[0].decision.gain_db == db_difference(
            target,
            track.measurements.integrated_lufs.value.unwrap(),
        ),
        measure == MeasureType::Lufs && track.measurements.integrated_lufs.value is None
            ==> map.recommendations@[0].decision.gain_db == db_difference(
            target,
            track.measurements.rms_dbfs,
        ),
{
}

} // verus!
