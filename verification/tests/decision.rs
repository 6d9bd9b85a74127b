use gain_core::decision::{recommend_regions, target_reason};
use gain_core::gain_map::{
    AnalysisBundle, ContentClass, MeasureType, MeasurementQuality, MeasurementValue, Measurements,
    PresetId, RegionAnalysis,
};
use gain_core::level::{Confidence, Db};

fn db(v: f64) -> Db {
    Db { nano: (v * 1e9).round() as i64 }
}

fn as_db(d: Db) -> f64 {
    d.nano as f64 / 1e9
}

fn conf(v: f64) -> Confidence {
    Confidence { ppm: (v * 1e6).round() as i32 }
}

fn placeholder_measurements(peak: f64, rms: f64) -> Measurements {
    Measurements {
        peak_dbfs: db(peak),
        rms_dbfs: db(rms),
        crest_factor_db: db(peak - rms),
        integrated_lufs: MeasurementValue { value: None, quality: MeasurementQuality::Placeholder },
        short_term_lufs_peak: MeasurementValue { value: None, quality: MeasurementQuality::Placeholder },
        momentary_lufs_peak: MeasurementValue { value: None, quality: MeasurementQuality::Placeholder },
        true_peak_dbtp: MeasurementValue { value: None, quality: MeasurementQuality::Placeholder },
    }
}

fn single_region_bundle(peak: f64, rms: f64, class: ContentClass, total: usize) -> AnalysisBundle {
    let r = RegionAnalysis::from_classification(
        0,
        total,
        placeholder_measurements(peak, rms),
        class,
        conf(1.0),
        None,
    );
    AnalysisBundle { regions: vec![r], sample_rate: 44100, total_samples: total }
}

fn stable_bundle(peak: f64, rms: f64, total: usize) -> AnalysisBundle {
    let r = RegionAnalysis::whole_file_stable(placeholder_measurements(peak, rms), total);
    AnalysisBundle { regions: vec![r], sample_rate: 44100, total_samples: total }
}

#[test]
fn peak_target_minus_12_with_peak_minus_6_gives_minus_6_gain() {
    let bundle = stable_bundle(-6.0, -10.0, 44100);
    let map = recommend_regions(&bundle, MeasureType::Peak, db(-12.0), PresetId::MixPrepStandard).unwrap();
    assert_eq!(map.recommendations.len(), 1);
    assert!((as_db(map.recommendations[0].decision.gain_db) - (-6.0)).abs() < 0.001);
}

#[test]
fn rms_target_minus_18_with_rms_minus_20_gives_plus_2_gain() {
    let bundle = stable_bundle(-14.0, -20.0, 44100 * 3);
    let map = recommend_regions(&bundle, MeasureType::Rms, db(-18.0), PresetId::AnalogConsole).unwrap();
    assert!((as_db(map.recommendations[0].decision.gain_db) - 2.0).abs() < 0.001);
}

#[test]
fn silence_region_has_is_applicable_false() {
    let bundle = single_region_bundle(-120.0, -120.0, ContentClass::Silence, 44100);
    let map = recommend_regions(&bundle, MeasureType::Peak, db(-12.0), PresetId::MixPrepStandard).unwrap();
    assert!(!map.recommendations[0].decision.is_applicable);
}

#[test]
fn lib_active_region_has_is_applicable_true() {
    let bundle = single_region_bundle(-12.0, -18.0, ContentClass::Music, 44100);
    let map = recommend_regions(&bundle, MeasureType::Peak, db(-12.0), PresetId::MixPrepStandard).unwrap();
    assert!(map.recommendations[0].decision.is_applicable);
}

#[test]
fn silence_region_gain_is_zero() {
    let bundle = single_region_bundle(-120.0, -120.0, ContentClass::Silence, 44100);
    let map = recommend_regions(&bundle, MeasureType::Peak, db(-12.0), PresetId::MixPrepStandard).unwrap();
    assert_eq!(as_db(map.recommendations[0].decision.gain_db), 0.0);
}

#[test]
fn multi_region_produces_one_recommendation_per_region() {
    let m1 = placeholder_measurements(-12.0, -18.0);
    let m2 = placeholder_measurements(-120.0, -120.0);
    let r1 = RegionAnalysis::from_classification(0, 22050, m1, ContentClass::Music, conf(0.8), None);
    let r2 = RegionAnalysis::from_classification(22050, 44100, m2, ContentClass::Silence, conf(1.0), None);
    let bundle = AnalysisBundle { regions: vec![r1, r2], sample_rate: 44100, total_samples: 44100 };
    let map = recommend_regions(&bundle, MeasureType::Peak, db(-12.0), PresetId::MixPrepStandard).unwrap();
    assert_eq!(map.recommendations.len(), 2);
    assert!(map.recommendations[0].decision.is_applicable);
    assert!(!map.recommendations[1].decision.is_applicable);
}

#[test]
fn recommendation_times_derived_from_sample_rate() {
    let bundle = stable_bundle(-12.0, -18.0, 44100);
    let map = recommend_regions(&bundle, MeasureType::Peak, db(-12.0), PresetId::MixPrepStandard).unwrap();
    let start = map.recommendations[0].start_time;
    let end = map.recommendations[0].end_time;
    assert_eq!(start.sample as f64 / start.sample_rate as f64, 0.0);
    assert!((end.sample as f64 / end.sample_rate as f64 - 1.0).abs() < 0.001);
}

#[test]
fn preset_used_is_set_in_map() {
    let bundle = stable_bundle(-14.0, -20.0, 44100);
    let map = recommend_regions(&bundle, MeasureType::Rms, db(-18.0), PresetId::AnalogConsoleHot).unwrap();
    assert_eq!(map.preset_used, Some(PresetId::AnalogConsoleHot));
}

#[test]
fn schema_version_is_two() {
    let bundle = stable_bundle(-12.0, -18.0, 44100);
    let map = recommend_regions(&bundle, MeasureType::Peak, db(-12.0), PresetId::MixPrepStandard).unwrap();
    assert_eq!(map.version, 2);
}

#[test]
fn lufs_measure_uses_integrated_lufs_when_verified() {
    let mut m = placeholder_measurements(-12.0, -18.0);
    m.integrated_lufs = MeasurementValue::verified(db(-16.0));
    let r = RegionAnalysis::from_classification(0, 44100, m, ContentClass::Music, conf(0.8), None);
    let bundle = AnalysisBundle { regions: vec![r], sample_rate: 44100, total_samples: 44100 };
    let map = recommend_regions(&bundle, MeasureType::Lufs, db(-23.0), PresetId::PodcastPrep).unwrap();
    assert!((as_db(map.recommendations[0].decision.gain_db) - (-7.0)).abs() < 0.001);
}

#[test]
fn lufs_measure_falls_back_to_rms() {
    let r = RegionAnalysis::from_classification(
        0,
        100,
        placeholder_measurements(-12.0, -18.0),
        ContentClass::Dialogue,
        conf(0.75),
        None,
    );
    let bundle = AnalysisBundle { regions: vec![r], sample_rate: 44100, total_samples: 100 };
    let map = recommend_regions(&bundle, MeasureType::Lufs, db(-23.0), PresetId::PodcastPrep).unwrap();
    assert_eq!(map.recommendations[0].decision.gain_db, db(-5.0));
    assert_eq!(map.recommendations[0].decision.confidence, conf(0.45));
}

#[test]
fn reasons_name_target_and_measure() {
    let m1 = placeholder_measurements(-12.0, -18.0);
    let m2 = placeholder_measurements(-120.0, -120.0);
    let r1 = RegionAnalysis::from_classification(0, 22050, m1, ContentClass::Music, conf(0.8), None);
    let r2 = RegionAnalysis::from_classification(22050, 44100, m2, ContentClass::Silence, conf(1.0), None);
    let bundle = AnalysisBundle { regions: vec![r1, r2], sample_rate: 44100, total_samples: 44100 };
    let map = recommend_regions(&bundle, MeasureType::Rms, db(-18.0), PresetId::AnalogConsole).unwrap();
    assert_eq!(map.recommendations[0].decision.reason, "Target -18.0 dBFS via RMS");
    assert_eq!(map.recommendations[1].decision.reason, "Silence region \u{2014} not a recommendation domain");
    assert_eq!(map.recommendations[1].decision.confidence, conf(0.0));
    assert_eq!(map.recommendations[0].decision.confidence, conf(0.6));
}

#[test]
fn confidence_scales_with_region_length() {
    let region = |start: usize, end: usize, c: f64| {
        RegionAnalysis::from_classification(start, end, placeholder_measurements(-12.0, -18.0), ContentClass::Music, conf(c), None)
    };
    let regions = vec![
        region(0, 1000, 0.8),
        region(1000, 1999, 0.8),
        region(1999, 2499, 0.75),
        region(2499, 2998, 1.0),
        region(2998, 3000, 0.5),
    ];
    let bundle = AnalysisBundle { regions, sample_rate: 1000, total_samples: 3000 };
    let map = recommend_regions(&bundle, MeasureType::Peak, db(-12.0), PresetId::MixPrepStandard).unwrap();
    let got: Vec<i32> = map.recommendations.iter().map(|g| g.decision.confidence.ppm).collect();
    assert_eq!(got, vec![720_000, 600_000, 562_500, 600_000, 300_000]);
}

#[test]
fn reason_rounds_like_float_formatting() {
    for v in [-12.0f32, 0.0, -0.04, 0.25, -0.25, 0.35, 12.25, 12.75, -27.0, 3.05, 99.95, 0.05, -6.5] {
        let expected = format!("Target {v:.1} dBFS via Peak");
        let got = target_reason(Db { nano: (v as f64 * 1e9).round() as i64 }, MeasureType::Peak);
        assert_eq!(got, expected, "value {v}");
    }
    assert_eq!(target_reason(db(-16.0), MeasureType::Lufs), "Target -16.0 dBFS via LUFS");
}

#[test]
fn gain_saturates_at_range_ends() {
    let a = Db { nano: i64::MAX };
    let b = Db { nano: -5 };
    assert_eq!(a.minus(b), Db { nano: i64::MAX });
    assert_eq!(Db { nano: i64::MIN }.minus(Db { nano: 5 }), Db { nano: i64::MIN });
    assert_eq!(db(-12.0).minus(db(-6.0)), db(-6.0));
}
