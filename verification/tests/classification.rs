use gain_core::classification::{classify_measurements, classify_segments};
use gain_core::gain_map::{ContentClass, MeasurementValue, Measurements, RegionType};
use gain_core::level::{Confidence, Db};
use gain_core::segmentation::Segment;

fn db(v: f64) -> Db {
    Db { nano: (v * 1e9).round() as i64 }
}

fn levels(rms: f64, crest: f64) -> Measurements {
    Measurements {
        peak_dbfs: db(rms + crest),
        rms_dbfs: db(rms),
        crest_factor_db: db(crest),
        integrated_lufs: MeasurementValue::placeholder(),
        short_term_lufs_peak: MeasurementValue::placeholder(),
        momentary_lufs_peak: MeasurementValue::placeholder(),
        true_peak_dbtp: MeasurementValue::placeholder(),
    }
}

fn class_of(rms: f64, crest: f64) -> (ContentClass, i32) {
    let (c, k) = classify_measurements(&levels(rms, crest));
    (c, k.ppm)
}

#[test]
fn rule_silence_below_minus_60() {
    assert_eq!(class_of(-120.0, 0.0), (ContentClass::Silence, 1_000_000));
    assert_eq!(class_of(-60.001, 30.0), (ContentClass::Silence, 1_000_000));
}

#[test]
fn rule_percussive_crest_above_18() {
    assert_eq!(class_of(-20.0, 18.5), (ContentClass::Percussive, 800_000));
}

#[test]
fn rule_dialogue_crest_8_to_18() {
    assert_eq!(class_of(-30.0, 8.0), (ContentClass::Dialogue, 750_000));
    assert_eq!(class_of(-40.0, 18.0), (ContentClass::Dialogue, 750_000));
}

#[test]
fn rule_music_low_crest_loud() {
    assert_eq!(class_of(-9.0, 3.0), (ContentClass::Music, 800_000));
    assert_eq!(class_of(-24.0, 7.999), (ContentClass::Music, 800_000));
}

#[test]
fn rule_ambience_between_minus_60_and_minus_40() {
    assert_eq!(class_of(-42.0, 0.0), (ContentClass::Ambience, 700_000));
    assert_eq!(class_of(-50.0, 12.0), (ContentClass::Ambience, 700_000));
}

#[test]
fn rule_unknown_otherwise() {
    assert_eq!(class_of(-30.0, 3.0), (ContentClass::Unknown, 500_000));
    assert_eq!(class_of(-60.0, 3.0), (ContentClass::Unknown, 500_000));
}

#[test]
fn mixed_rule_never_fires() {
    for rms in [-80.0, -60.0, -50.0, -40.0, -30.0, -24.0, -10.0, 0.0] {
        for crest in [0.0, 7.9, 8.0, 12.0, 18.0, 18.1, 40.0] {
            assert_ne!(class_of(rms, crest).0, ContentClass::Mixed);
        }
    }
}

#[test]
fn classify_segments_keeps_bounds_and_labels() {
    let segs = vec![
        Segment { start_sample: 0, end_sample: 22050 },
        Segment { start_sample: 22050, end_sample: 44100 },
    ];
    let ms = vec![levels(-120.0, 0.0), levels(-9.0, 3.0)];
    let regions = classify_segments(&segs, &ms);
    assert_eq!(regions.len(), 2);
    assert_eq!(regions[0].start_sample, 0);
    assert_eq!(regions[0].end_sample, 22050);
    assert_eq!(regions[0].content_class, ContentClass::Silence);
    assert_eq!(regions[0].classification_confidence, Confidence { ppm: 1_000_000 });
    assert_eq!(regions[0].region_type(), RegionType::Silence);
    assert_eq!(regions[1].start_sample, 22050);
    assert_eq!(regions[1].content_class, ContentClass::Music);
    assert_eq!(regions[1].region_type(), RegionType::Music);
    assert!(regions[1].classification_vector.is_none());
}
