use tts_cli::config::{Config, ProviderConfig};

#[test]
fn default_config_values() {
    let c = Config::default();
    assert_eq!(c.default_provider, "gcloud");
    assert_eq!(c.default_language, "en-US");
    assert!(c.default_voice.is_none());
    assert!(c.cache_enabled);
    let names: Vec<&str> = c.providers.iter().map(|p| p.0.as_str()).collect();
    assert_eq!(names, vec!["gcloud", "espeak", "festival", "say"]);
    assert!(c.providers.iter().all(|p| p.1.enabled));
}

#[test]
fn provider_config_lookup() {
    let c = Config::default();
    let g = c.get_provider_config("gcloud").unwrap();
    assert_eq!(g.voice_mapping.len(), 4);
    assert!(c.get_provider_config("espeak").unwrap().voice_mapping.is_empty());
    assert!(c.get_provider_config("polly").is_none());
}

#[test]
fn voice_for_language_lookup() {
    let mut c = Config::default();
    assert_eq!(c.get_voice_for_language("gcloud", "es-ES"), Some("es-ES-Wavenet-C".to_string()));
    assert_eq!(c.get_voice_for_language("gcloud", "it-IT"), None);
    assert_eq!(c.get_voice_for_language("espeak", "en-US"), None);
    assert_eq!(c.get_voice_for_language("polly", "en-US"), None);
    c.providers.push((
        "custom".to_string(),
        ProviderConfig {
            enabled: false,
            api_key: None,
            endpoint: None,
            voice_mapping: vec![("it-IT".to_string(), "Luca".to_string())],
        },
    ));
    assert_eq!(c.get_voice_for_language("custom", "it-IT"), Some("Luca".to_string()));
}
