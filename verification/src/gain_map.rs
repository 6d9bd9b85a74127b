//! The data model of a gain recommendation map: measurements, content
//! classes, analysed regions, per-region decisions and presets.

use vstd::prelude::*;
use crate::level::{Confidence, Db, SampleTime};

verus! {

/// Version of the recommendation map's schema.
pub const GAIN_MAP_SCHEMA_VERSION: u32 = 2;

/// How much a measured value can be trusted.
#[derive(Debug, Clone, Copy, PartialEq, Eq, Structural)]
pub enum MeasurementQuality {
    Placeholder,
    Estimated,
    Verified,
}

/// A measurement that may be missing.
#[derive(Debug, Clone, Copy)]
pub struct MeasurementValue {
    pub value: Option<Db>,
    pub quality: MeasurementQuality,
}

impl MeasurementValue {
    /// A value is present exactly when its quality is better than a
    /// placeholder.
    pub open spec fn is_consistent(self) -> bool {
        (self.value is None) == (self.quality == MeasurementQuality::Placeholder)
    }

    /// A missing value.
    pub fn placeholder() -> (r: Self)
        ensures
            r.value is None,
            r.quality == MeasurementQuality::Placeholder,
            r.is_consistent(),
    {
        MeasurementValue { value: None, quality: MeasurementQuality::Placeholder }
    }

    /// A measured value that can be trusted.
    pub fn verified(v: Db) -> (r: Self)
        ensures
            r.value == Some(v),
            r.quality == MeasurementQuality::Verified,
            r.is_consistent(),
    {
        MeasurementValue { value: Some(v), quality: MeasurementQuality::Verified }
    }
}

/// Level measurements of a stretch of audio.
#[derive(Debug, Clone, Copy)]
pub struct Measurements {
    pub peak_dbfs: Db,
    pub rms_dbfs: Db,
    pub crest_factor_db: Db,
    pub integrated_lufs: MeasurementValue,
    /// Loudest 3-second window.
    pub short_term_lufs_peak: MeasurementValue,
    /// Loudest 400 ms window.
    pub momentary_lufs_peak: MeasurementValue,
    pub true_peak_dbtp: MeasurementValue,
}

/// What a region of audio holds.
#[derive(Debug, Clone, Copy, PartialEq, Eq, Structural)]
pub enum ContentClass {
    Silence,
    Dialogue,
    Music,
    Ambience,
    Percussive,
    Mixed,
    Unknown,
}

/// The label a region carries in the output. `Stable` marks a whole file
/// treated as one region; every other label follows the content class.
#[derive(Debug, Clone, Copy, PartialEq, Eq, Structural)]
pub enum RegionType {
    Stable,
    Silence,
    Dialogue,
    Music,
    Ambience,
    Percussive,
    Mixed,
    Unknown,
}

/// The region label that a content class carries: the one of the same name.
pub open spec fn region_type_of_class(c: ContentClass) -> RegionType {
    match c {
        ContentClass::Silence => RegionType::Silence,
        ContentClass::Dialogue => RegionType::Dialogue,
        ContentClass::Music => RegionType::Music,
        ContentClass::Ambience => RegionType::Ambience,
        ContentClass::Percussive => RegionType::Percussive,
        ContentClass::Mixed => RegionType::Mixed,
        ContentClass::Unknown => RegionType::Unknown,
    }
}

impl From<ContentClass> for RegionType {
    fn from(c: ContentClass) -> (r: Self) {
        match c {
            ContentClass::Silence => RegionType::Silence,
            ContentClass::Dialogue => RegionType::Dialogue,
            ContentClass::Music => RegionType::Music,
            ContentClass::Ambience => RegionType::Ambience,
            ContentClass::Percussive => RegionType::Percussive,
            ContentClass::Mixed => RegionType::Mixed,
            ContentClass::Unknown => RegionType::Unknown,
        }
    }
}

impl vstd::std_specs::convert::FromSpecImpl<ContentClass> for RegionType {
    open spec fn obeys_from_spec() -> bool {
        true
    }

    open spec fn from_spec(v: ContentClass) -> Self {
        region_type_of_class(v)
    }
}

/// One analysed region of a recording, `[start_sample, end_sample)`.
///
/// The region label is private and set only by the constructors, so that it
/// agrees with the content class. Because of that private field, verified
/// code outside this module sees the fields only through the view, which
/// the accessors below tie to each field.
#[derive(Debug, Clone)]
pub struct RegionAnalysis {
    pub start_sample: usize,
    pub end_sample: usize,
    pub measurements: Measurements,
    pub content_class: ContentClass,
    pub classification_confidence: Confidence,
    pub classification_vector: Option<Vec<Confidence>>,
    region_type: RegionType,
}

/// The contents of a [`RegionAnalysis`], label included.
pub struct RegionAnalysisView {
    pub start_sample: usize,
    pub end_sample: usize,
    pub measurements: Measurements,
    pub content_class: ContentClass,
    pub classification_confidence: Confidence,
    pub classification_vector: Option<Seq<Confidence>>,
    pub region_type: RegionType,
}

impl View for RegionAnalysis {
    type V = RegionAnalysisView;

    closed spec fn view(&self) -> RegionAnalysisView {
        RegionAnalysisView {
            start_sample: self.start_sample,
            end_sample: self.end_sample,
            measurements: self.measurements,
            content_class: self.content_class,
            classification_confidence: self.classification_confidence,
            classification_vector: match self.classification_vector {
                Some(v) => Some(v@),
                None => None,
            },
            region_type: self.region_type,
        }
    }
}

/// The view of the stable region that covers a whole file of
/// `total_samples` samples with the given measurements.
pub open spec fn whole_file_view(measurements: Measurements, total_samples: usize) -> RegionAnalysisView {
    RegionAnalysisView {
        start_sample: 0,
        end_sample: total_samples,
        measurements,
        content_class: ContentClass::Unknown,
        classification_confidence: Confidence { ppm: 1_000_000 },
        classification_vector: None,
        region_type: RegionType::Stable,
    }
}

impl RegionAnalysisView {
    /// `self` is the stable region that covers a whole file of
    /// `total_samples` samples with the given measurements.
    pub open spec fn is_whole_file(self, measurements: Measurements, total_samples: nat) -> bool {
        &&& self.start_sample == 0
        &&& self.end_sample == total_samples
        &&& self.measurements == measurements
        &&& self.content_class == ContentClass::Unknown
        &&& self.classification_confidence.ppm == 1_000_000
        &&& self.classification_vector is None
        &&& self.region_type == RegionType::Stable
    }

    /// The label agrees with the content class (or the region is a whole
    /// file of unknown content marked stable).
    pub open spec fn well_labelled(self) -> bool {
        ||| self.region_type == region_type_of_class(self.content_class)
        ||| (self.region_type == RegionType::Stable && self.content_class == ContentClass::Unknown)
    }
}

impl RegionAnalysis {
    /// The region's label.
    pub fn region_type(&self) -> (r: RegionType)
        ensures
            r == self@.region_type,
    {
        self.region_type
    }

    /// First sample of the region.
    pub fn start_sample(&self) -> (r: usize)
        ensures
            r == self@.start_sample,
    {
        self.start_sample
    }

    /// One past the last sample of the region.
    pub fn end_sample(&self) -> (r: usize)
        ensures
            r == self@.end_sample,
    {
        self.end_sample
    }

    /// The region's measurements.
    pub fn measurements(&self) -> (r: Measurements)
        ensures
            r == self@.measurements,
    {
        self.measurements
    }

    /// The region's content class.
    pub fn content_class(&self) -> (r: ContentClass)
        ensures
            r == self@.content_class,
    {
        self.content_class
    }

    /// How sure the classification is.
    pub fn classification_confidence(&self) -> (r: Confidence)
        ensures
            r == self@.classification_confidence,
    {
        self.classification_confidence
    }

    /// A classified region; its label is the one of its content class.
    pub fn from_classification(
        start_sample: usize,
        end_sample: usize,
        measurements: Measurements,
        content_class: ContentClass,
        classification_confidence: Confidence,
        classification_vector: Option<Vec<Confidence>>,
    ) -> (r: Self)
        ensures
            r@.start_sample == start_sample,
            r@.end_sample == end_sample,
            r@.measurements == measurements,
            r@.content_class == content_class,
            r@.classification_confidence == classification_confidence,
            r@.classification_vector == (match classification_vector {
                Some(v) => Some(v@),
                None => None,
            }),
            r@.region_type == region_type_of_class(content_class),
    {
        let region_type = RegionType::from(content_class);
        RegionAnalysis {
            start_sample,
            end_sample,
            measurements,
            content_class,
            classification_confidence,
            classification_vector,
            region_type,
        }
    }

    /// A whole file treated as one stable region `[0, total_samples)`.
    pub fn whole_file_stable(measurements: Measurements, total_samples: usize) -> (r: Self)
        ensures
            r@ == whole_file_view(measurements, total_samples),
            r@.is_whole_file(measurements, total_samples as nat),
    {
        RegionAnalysis {
            start_sample: 0,
            end_sample: total_samples,
            measurements,
            content_class: ContentClass::Unknown,
            classification_confidence: Confidence::full(),
            classification_vector: None,
            region_type: RegionType::Stable,
        }
    }

    /// A copy of the region.
    pub fn duplicate(&self) -> (r: Self)
        ensures
            r@ == self@,
    {
        let classification_vector = match &self.classification_vector {
            None => None,
            Some(v) => {
                let mut copy: Vec<Confidence> = Vec::new();
                let mut i: usize = 0;
                while i < v.len()
                    invariant
                        i <= v.len(),
                        copy@ == v@.subrange(0, i as int),
                    decreases v.len() - i,
                {
                    copy.push(v[i]);
                    i += 1;
                    proof {
                        assert(copy@ =~= v@.subrange(0, i as int));
                    }
                }
                proof {
                    assert(copy@ =~= v@);
                }
                Some(copy)
            },
        };
        RegionAnalysis {
            start_sample: self.start_sample,
            end_sample: self.end_sample,
            measurements: self.measurements,
            content_class: self.content_class,
            classification_confidence: self.classification_confidence,
            classification_vector,
            region_type: self.region_type,
        }
    }
}

/// The decision taken for one region.
#[derive(Debug, Clone)]
pub struct RegionDecision {
    pub is_applicable: bool,
    pub gain_db: Db,
    pub confidence: Confidence,
    pub reason: String,
}

/// A region together with its time span and its decision.
#[derive(Debug, Clone)]
pub struct GainRegion {
    pub start_time: SampleTime,
    pub end_time: SampleTime,
    pub analysis: RegionAnalysis,
    pub decision: RegionDecision,
}

/// The analysed regions of one recording.
#[derive(Debug)]
pub struct AnalysisBundle {
    pub regions: Vec<RegionAnalysis>,
    pub sample_rate: u32,
    pub total_samples: usize,
}

/// How the loudness anchor of an album is chosen.
#[derive(Debug, Clone, Copy, PartialEq, Eq, Structural)]
pub enum AlbumAnchorMethod {
    Median,
    Maximum,
    Custom(Db),
}

/// The loudness every track of an album is brought to.
#[derive(Debug, Clone, Copy)]
pub struct AlbumAnchor {
    pub target_lufs: Db,
    pub method: AlbumAnchorMethod,
}

/// Which measurement a gain target refers to.
#[derive(Debug, Clone, Copy, PartialEq, Eq, Structural)]
pub enum MeasureType {
    Peak,
    Rms,
    Lufs,
}

/// The preset a recommendation map was made with.
#[derive(Debug, Clone, Copy, PartialEq, Eq, Structural)]
pub enum PresetId {
    MixPrepConservative,
    MixPrepStandard,
    MixPrepAggressive,
    AnalogConsole,
    AnalogConsoleHot,
    DialoguePrep,
    DialogueBroadcast,
    PodcastPrep,
    VoiceoverPrep,
    MusicStemPrep,
    FilmDialogue,
    AlbumConsistency,
    Custom,
}

/// Per-region gain recommendations for one recording.
#[derive(Debug)]
pub struct GainRecommendationMap {
    pub version: u32,
    pub preset_used: Option<PresetId>,
    pub recommendations: Vec<GainRegion>,
}

impl Default for GainRecommendationMap {
    /// An empty map of the current schema version, made with no preset.
    fn default() -> (r: Self)
        ensures
            r.version == GAIN_MAP_SCHEMA_VERSION,
            r.preset_used is None,
            r.recommendations@.len() == 0,
    {
        GainRecommendationMap {
            version: GAIN_MAP_SCHEMA_VERSION,
            preset_used: None,
            recommendations: Vec::new(),
        }
    }
}

} // verus!
