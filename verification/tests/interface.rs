use gain_core::api::{generate_recommendation, RecommendationPreset, TrackAnalysis};
use gain_core::ffi::{content_class_to_byte, recommendation_record, region_type_to_byte};
use gain_core::gain_map::{ContentClass, GainRecommendationMap, MeasurementValue, Measurements, RegionType};
use gain_core::ingestion::{
    check_import_extension, container_from_extension, container_from_magic, container_of_lower,
    import_extension_allowed, loudness_block_size, loudness_min_samples, region_bounds,
    too_short_for_loudness, ContainerFormat,
};
use gain_core::error::GainError;
use gain_core::level::Db;
use gain_core::scaffold;
use gain_core::api::preset_from_u8;

fn flat(level: i64) -> Measurements {
    Measurements {
        peak_dbfs: Db { nano: level },
        rms_dbfs: Db { nano: level },
        crest_factor_db: Db { nano: 0 },
        integrated_lufs: MeasurementValue::placeholder(),
        short_term_lufs_peak: MeasurementValue::placeholder(),
        momentary_lufs_peak: MeasurementValue::placeholder(),
        true_peak_dbtp: MeasurementValue::placeholder(),
    }
}

#[test]
fn region_type_bytes() {
    let all = [
        RegionType::Stable, RegionType::Silence, RegionType::Dialogue, RegionType::Music,
        RegionType::Ambience, RegionType::Percussive, RegionType::Mixed, RegionType::Unknown,
    ];
    for (i, rt) in all.iter().enumerate() {
        assert_eq!(region_type_to_byte(*rt) as usize, i);
    }
}

#[test]
fn content_class_bytes() {
    let all = [
        ContentClass::Silence, ContentClass::Dialogue, ContentClass::Music, ContentClass::Ambience,
        ContentClass::Percussive, ContentClass::Mixed, ContentClass::Unknown,
    ];
    for (i, c) in all.iter().enumerate() {
        assert_eq!(content_class_to_byte(*c) as usize, i);
    }
}

#[test]
fn record_of_existing_recommendation() {
    let t = TrackAnalysis { measurements: flat(-6_000_000_000), sample_rate: 44100, total_samples: 44100 };
    let map = generate_recommendation(&t, RecommendationPreset::MixPrepStandard).unwrap();
    let r = recommendation_record(&map, 0);
    assert_eq!(r.gain_db, Db { nano: -6_000_000_000 });
    assert_eq!(r.region_type, 0);
    assert_eq!(r.content_class, 6);
    assert_eq!(r.is_applicable, 1);
    assert_eq!(r.confidence.ppm, 900_000);
    assert_eq!(r.classification_confidence.ppm, 1_000_000);
    assert_eq!(r.end_time.sample, 44100);
}

#[test]
fn record_out_of_range_is_zeroed() {
    let t = TrackAnalysis { measurements: flat(-6_000_000_000), sample_rate: 44100, total_samples: 44100 };
    let map = generate_recommendation(&t, RecommendationPreset::MixPrepStandard).unwrap();
    let r = recommendation_record(&map, 99);
    assert_eq!(r.gain_db.nano, 0);
    assert_eq!(r.is_applicable, 0);
    assert_eq!(r.start_time.sample, 0);
    let empty = GainRecommendationMap::default();
    assert_eq!(recommendation_record(&empty, 0).confidence.ppm, 0);
}

#[test]
fn container_from_extension_ignores_case() {
    assert_eq!(container_from_extension(Some("WAV")), Some(ContainerFormat::Wav));
    assert_eq!(container_from_extension(Some("wav")), Some(ContainerFormat::Wav));
    assert_eq!(container_from_extension(Some("AiFf")), Some(ContainerFormat::Aiff));
    assert_eq!(container_from_extension(Some("aif")), Some(ContainerFormat::Aiff));
    assert_eq!(container_from_extension(Some("mp3")), None);
    assert_eq!(container_from_extension(None), None);
}

#[test]
fn container_from_magic_bytes() {
    assert_eq!(container_from_magic(None, Some(*b"RIFF")).unwrap(), ContainerFormat::Wav);
    assert_eq!(container_from_magic(Some("bin"), Some(*b"FORM")).unwrap(), ContainerFormat::Aiff);
    match container_from_magic(Some("MP3"), Some(*b"not ")) {
        Err(GainError::UnsupportedFormat { format }) => assert_eq!(format, "mp3"),
        other => panic!("unexpected {other:?}"),
    }
    match container_from_magic(None, None) {
        Err(GainError::UnsupportedFormat { format }) => assert_eq!(format, "(no extension)"),
        other => panic!("unexpected {other:?}"),
    }
}

#[test]
fn import_extension_check() {
    assert!(check_import_extension(Some("WAV")).is_ok());
    assert!(check_import_extension(Some("aif")).is_ok());
    assert!(check_import_extension(Some("Mp3")).is_ok());
    assert_eq!(check_import_extension(Some("FLAC")), Err("Unsupported format: .flac".to_string()));
    assert_eq!(check_import_extension(None), Err("Unsupported format: .".to_string()));
}

#[test]
fn loudness_sizes() {
    assert_eq!(loudness_min_samples(44100, 1), 17640);
    assert_eq!(loudness_min_samples(48000, 2), 38400);
    assert_eq!(loudness_block_size(44100, 2), 8820);
    assert_eq!(loudness_block_size(5, 1), 1);
}

#[test]
fn region_bounds_clip_and_reject_empty() {
    assert_eq!(region_bounds(500, 1000, 2000).unwrap(), (500, 1000));
    assert_eq!(region_bounds(50, 300, 100).unwrap(), (50, 100));
    match region_bounds(200, 300, 100) {
        Err(GainError::InvalidAudio { details }) => assert_eq!(details, "empty region [200, 100)"),
        other => panic!("unexpected {other:?}"),
    }
}

#[test]
fn decimal_numerals_in_messages() {
    match preset_from_u8(255) {
        Err(GainError::InternalError { details }) => assert_eq!(details, "unknown preset code 255"),
        other => panic!("unexpected {other:?}"),
    }
    match region_bounds(usize::MAX, usize::MAX, 0) {
        Err(GainError::InvalidAudio { details }) => {
            assert_eq!(details, format!("empty region [{}, 0)", usize::MAX))
        }
        other => panic!("unexpected {other:?}"),
    }
    match region_bounds(0, 10, 0) {
        Err(GainError::InvalidAudio { details }) => assert_eq!(details, "empty region [0, 0)"),
        other => panic!("unexpected {other:?}"),
    }
}

#[test]
fn scaffold_region_labels() {
    assert_ne!(scaffold::RegionType::Stable, scaffold::RegionType::Transient);
    assert_eq!(scaffold::RegionType::Envelope, scaffold::RegionType::Envelope);
}

#[test]
fn lower_case_extension_checks() {
    assert_eq!(container_of_lower("wav"), Some(ContainerFormat::Wav));
    assert_eq!(container_of_lower("aiff"), Some(ContainerFormat::Aiff));
    assert_eq!(container_of_lower("aif"), Some(ContainerFormat::Aiff));
    assert_eq!(container_of_lower("WAV"), None);
    assert_eq!(container_of_lower(""), None);
    assert!(import_extension_allowed("mp3"));
    assert!(import_extension_allowed("aiff"));
    assert!(!import_extension_allowed("Mp3"));
    assert!(!import_extension_allowed("flac"));
}

#[test]
fn loudness_needs_400_ms() {
    assert!(too_short_for_loudness(100, 44100, 1));
    assert!(too_short_for_loudness(17639, 44100, 1));
    assert!(!too_short_for_loudness(17640, 44100, 1));
    assert!(too_short_for_loudness(17640, 44100, 2));
    assert!(!too_short_for_loudness(0, 0, 1));
}
