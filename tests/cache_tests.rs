use tts_cli::cache::{
    entry_to_store, generate_cache_key, get_cache_path, plan_cache, tally_cache_entries, CachePlan,
    DirEntryInfo,
};
use tts_cli::error::TtsError;

const HELLO_KEY: &str = "0783d004c4ed8c567858b0725101d22b2553b59b94130928de65c1e4ff235dfd";

#[test]
fn key_is_hex_sha256_of_fields() {
    let k = generate_cache_key("hello", "espeak", "en-US", None);
    assert_eq!(k, HELLO_KEY);
    assert_eq!(k.len(), 64);
}

#[test]
fn key_includes_voice_bytes_when_present() {
    let k = generate_cache_key("hello", "espeak", "en-US", Some("voice1"));
    assert_eq!(k, "2bb333a78fdef2eb0319f88097125a64501c9b68a0c4c0a33391b498dfa6a1a8");
}

#[test]
fn key_distinguishes_voice_presence() {
    let none = generate_cache_key("hello", "espeak", "en-US", None);
    for v in ["a", "en-US-Wavenet-D", "x y z"] {
        assert_ne!(none, generate_cache_key("hello", "espeak", "en-US", Some(v)));
    }
}

#[test]
fn key_is_deterministic() {
    let a = generate_cache_key("some text", "gcloud", "fr-FR", Some("fr-FR-Wavenet-D"));
    let b = generate_cache_key("some text", "gcloud", "fr-FR", Some("fr-FR-Wavenet-D"));
    assert_eq!(a, b);
}

#[test]
fn key_of_empty_fields() {
    let k = generate_cache_key("", "", "", None);
    assert_eq!(k, "e3b0c44298fc1c149afbf4c8996fb92427ae41e4649b934ca495991b7852b855");
}

#[test]
fn cache_path_is_key_with_audio_suffix() {
    let p = get_cache_path("/var/cache/tts-cli", HELLO_KEY);
    assert_eq!(p, format!("/var/cache/tts-cli/{}.audio", HELLO_KEY));
}

#[test]
fn tally_counts_regular_files_only() {
    let entries = vec![
        DirEntryInfo { is_file: true, len: 100 },
        DirEntryInfo { is_file: false, len: 4096 },
        DirEntryInfo { is_file: true, len: 23 },
    ];
    let s = tally_cache_entries(&entries);
    assert_eq!(s.file_count, 2);
    assert_eq!(s.total_bytes, 123);
}

#[test]
fn tally_of_empty_directory() {
    let s = tally_cache_entries(&Vec::new());
    assert_eq!(s.file_count, 0);
    assert_eq!(s.total_bytes, 0);
}

#[test]
fn plan_clear_entry_takes_precedence() {
    match plan_cache("hello", "espeak", "en-US", None, false, true) {
        CachePlan::ClearEntry(k) => assert_eq!(k, HELLO_KEY),
        other => panic!("unexpected plan {:?}", other),
    }
}

#[test]
fn plan_bypass_without_cache() {
    assert!(matches!(plan_cache("hello", "espeak", "en-US", None, false, false), CachePlan::Bypass));
}

#[test]
fn espeak_request_is_cached_under_its_key_and_found_again() {
    let first = plan_cache("hello", "espeak", "en-US", None, true, false);
    let key = match &first {
        CachePlan::Lookup(k) => k.clone(),
        other => panic!("unexpected plan {:?}", other),
    };
    assert_eq!(key, HELLO_KEY);
    let audio: Result<Vec<u8>, TtsError> = Ok(vec![1, 2, 3]);
    assert_eq!(entry_to_store(&first, &audio), Some(key.clone()));
    assert_eq!(get_cache_path("/c", &key), format!("/c/{}.audio", HELLO_KEY));
    match plan_cache("hello", "espeak", "en-US", None, true, false) {
        CachePlan::Lookup(k) => assert_eq!(k, key),
        other => panic!("unexpected plan {:?}", other),
    }
}

#[test]
fn failed_synthesis_stores_nothing() {
    let plan = plan_cache("hello", "espeak", "en-US", None, true, false);
    let failed: Result<Vec<u8>, TtsError> = Err(TtsError::AllProvidersFailed);
    assert_eq!(entry_to_store(&plan, &failed), None);
    let ok: Result<Vec<u8>, TtsError> = Ok(vec![9]);
    assert_eq!(entry_to_store(&CachePlan::Bypass, &ok), None);
}
