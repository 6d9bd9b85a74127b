use gain_core::gain_map::{
    AnalysisBundle, ContentClass, GainRecommendationMap, MeasureType, MeasurementQuality,
    MeasurementValue, Measurements, PresetId, RegionAnalysis, RegionDecision, RegionType,
    GAIN_MAP_SCHEMA_VERSION,
};
use gain_core::level::{Confidence, Db};

fn db(v: f64) -> Db {
    Db { nano: (v * 1e9).round() as i64 }
}

fn placeholder_measurements() -> Measurements {
    Measurements {
        peak_dbfs: db(-12.0),
        rms_dbfs: db(-18.0),
        crest_factor_db: db(6.0),
        integrated_lufs: MeasurementValue::placeholder(),
        short_term_lufs_peak: MeasurementValue::placeholder(),
        momentary_lufs_peak: MeasurementValue::placeholder(),
        true_peak_dbtp: MeasurementValue::placeholder(),
    }
}

#[test]
fn lib_schema_version_is_two() {
    assert_eq!(GAIN_MAP_SCHEMA_VERSION, 2);
}

#[test]
fn content_class_to_region_type_maps_all_variants() {
    assert_eq!(RegionType::from(ContentClass::Silence), RegionType::Silence);
    assert_eq!(RegionType::from(ContentClass::Dialogue), RegionType::Dialogue);
    assert_eq!(RegionType::from(ContentClass::Music), RegionType::Music);
    assert_eq!(RegionType::from(ContentClass::Ambience), RegionType::Ambience);
    assert_eq!(RegionType::from(ContentClass::Percussive), RegionType::Percussive);
    assert_eq!(RegionType::from(ContentClass::Mixed), RegionType::Mixed);
    assert_eq!(RegionType::from(ContentClass::Unknown), RegionType::Unknown);
}

#[test]
fn from_classification_region_type_matches_content_class() {
    let r = RegionAnalysis::from_classification(
        0,
        1000,
        placeholder_measurements(),
        ContentClass::Dialogue,
        Confidence { ppm: 800_000 },
        None,
    );
    assert_eq!(r.region_type(), RegionType::Dialogue);
    assert_eq!(r.content_class, ContentClass::Dialogue);
}

#[test]
fn whole_file_stable_has_stable_region_type() {
    let r = RegionAnalysis::whole_file_stable(placeholder_measurements(), 44100);
    assert_eq!(r.region_type(), RegionType::Stable);
    assert_eq!(r.start_sample, 0);
    assert_eq!(r.end_sample, 44100);
}

#[test]
fn measurement_value_placeholder_has_no_value() {
    let v = MeasurementValue::placeholder();
    assert!(v.value.is_none());
    assert_eq!(v.quality, MeasurementQuality::Placeholder);
}

#[test]
fn measurement_value_verified_holds_value() {
    let v = MeasurementValue::verified(db(-14.0));
    assert_eq!(v.value, Some(db(-14.0)));
    assert_eq!(v.quality, MeasurementQuality::Verified);
}

#[test]
fn gain_recommendation_map_default_uses_recommendations_field() {
    let map = GainRecommendationMap::default();
    assert!(map.recommendations.is_empty());
    assert_eq!(map.version, 2);
}

#[test]
fn measure_type_lufs_variant_exists() {
    assert_eq!(MeasureType::Lufs, MeasureType::Lufs);
}

#[test]
fn new_preset_id_variants_exist() {
    let _ = PresetId::DialogueBroadcast;
    let _ = PresetId::PodcastPrep;
    let _ = PresetId::VoiceoverPrep;
    let _ = PresetId::MusicStemPrep;
    let _ = PresetId::FilmDialogue;
    let _ = PresetId::AlbumConsistency;
}

#[test]
fn region_decision_is_applicable_false_for_silence() {
    let d = RegionDecision {
        is_applicable: false,
        gain_db: db(0.0),
        confidence: Confidence { ppm: 1_000_000 },
        reason: "silence".to_string(),
    };
    assert!(!d.is_applicable);
}

#[test]
fn analysis_bundle_holds_sample_rate() {
    let bundle = AnalysisBundle { regions: vec![], sample_rate: 48000, total_samples: 0 };
    assert_eq!(bundle.sample_rate, 48000);
}

#[test]
fn duplicate_keeps_every_field() {
    let r = RegionAnalysis::from_classification(
        10,
        20,
        placeholder_measurements(),
        ContentClass::Music,
        Confidence { ppm: 800_000 },
        Some(vec![Confidence { ppm: 100_000 }, Confidence { ppm: 900_000 }]),
    );
    let c = r.duplicate();
    assert_eq!(c.start_sample, 10);
    assert_eq!(c.end_sample, 20);
    assert_eq!(c.content_class, ContentClass::Music);
    assert_eq!(c.region_type(), RegionType::Music);
    assert_eq!(c.classification_confidence, Confidence { ppm: 800_000 });
    assert_eq!(
        c.classification_vector,
        Some(vec![Confidence { ppm: 100_000 }, Confidence { ppm: 900_000 }])
    );
}
