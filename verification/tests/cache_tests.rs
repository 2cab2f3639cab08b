use slova::cache::{partial_hash, settings_fingerprint, ContentHasher};
use slova::types::{CacheKey, ContentHash, ExportFormat, JobSettings, SettingsFingerprint, WeakKey};

#[test]
fn test_settings_fingerprint() {
    let settings1 = JobSettings {
        language: "ru".to_string(),
        output_format: ExportFormat::Txt,
        enable_postprocess: false,
    };

    let settings2 = JobSettings {
        language: "en".to_string(),
        output_format: ExportFormat::Txt,
        enable_postprocess: false,
    };

    let fp1 = settings_fingerprint(&settings1).unwrap();
    let fp2 = settings_fingerprint(&settings2).unwrap();

    // Different languages should produce different fingerprints
    assert_ne!(fp1.0, fp2.0);
}

#[test]
fn test_settings_fingerprint_consistency() {
    let settings = JobSettings {
        language: "ru".to_string(),
        output_format: ExportFormat::Txt,
        enable_postprocess: false,
    };

    let fp1 = settings_fingerprint(&settings).unwrap();
    let fp2 = settings_fingerprint(&settings).unwrap();

    assert_eq!(fp1.0, fp2.0);
}

#[test]
fn test_cache_key() {
    let hash1 = ContentHash::new("abc123".to_string());
    let hash2 = ContentHash::new("def456".to_string());

    let fp1 = SettingsFingerprint::new("fp1".to_string());
    let _fp2 = SettingsFingerprint::new("fp2".to_string());

    let key1 = CacheKey::new(&hash1, &fp1);
    let key2 = CacheKey::new(&hash1, &fp1);
    let key3 = CacheKey::new(&hash2, &fp1);

    // Same hash + same fp = same key
    assert_eq!(key1.0, key2.0);
    // Different hash = different key
    assert_ne!(key1.0, key3.0);
}

#[test]
fn cache_key_and_weak_key_texts() {
    let key = CacheKey::new(&ContentHash::new("abc".to_string()), &SettingsFingerprint::new("fp".to_string()));
    assert_eq!(key.0, "abc-fp");
    let weak = WeakKey::new(12, 345, "deadbeef");
    assert_eq!(weak.0, "12-345-deadbeef");
}

#[test]
fn blake3_digests() {
    // BLAKE3 of "abc", from the reference test vectors.
    let expected = "6437b3ac38465133ffb63b75273a8db548c558465d79db03fd359c6cd5bd9d85";
    assert_eq!(partial_hash(b"abc"), expected);
    let mut h = ContentHasher::new();
    h.update(b"a");
    h.update(b"bc");
    assert_eq!(h.finalize_hex(), expected);
    assert_eq!(partial_hash(b"").len(), 64);
}

#[test]
fn fingerprint_hashes_language_and_format() {
    let s = JobSettings { language: "ru".to_string(), output_format: ExportFormat::Srt, enable_postprocess: true };
    assert_eq!(settings_fingerprint(&s).unwrap().0, partial_hash(b"ru|1"));
    let t = JobSettings { language: "ru".to_string(), output_format: ExportFormat::Srt, enable_postprocess: false };
    assert_eq!(settings_fingerprint(&s).unwrap().0, settings_fingerprint(&t).unwrap().0);
}
