use tts_cli::adapters::{
    credential_outcome, engine_outcome, espeak_args, festival_args, gcloud_request,
    gcloud_response, gcloud_voice, say_args, CommandOutput,
};
use tts_cli::error::TtsError;
use tts_cli::fallback::{plan_attempts, Action, Fallback};
use tts_cli::providers::{get_available_providers, resolve_provider, Provider};

#[test]
fn catalog_has_four_providers_in_fixed_order() {
    let ps = get_available_providers(false, true, false, true);
    let names: Vec<&str> = ps.iter().map(|p| p.name.as_str()).collect();
    assert_eq!(names, vec!["gcloud", "espeak", "festival", "say"]);
    let avail: Vec<bool> = ps.iter().map(|p| p.available).collect();
    assert_eq!(avail, vec![false, true, false, true]);
    assert_eq!(ps[0].description, "Google Cloud Text-to-Speech API");
    assert_eq!(ps[3].description, "macOS built-in TTS");
}

#[test]
fn unknown_provider_is_rejected() {
    assert!(matches!(resolve_provider("festival"), Ok(Provider::Festival)));
    match resolve_provider("polly") {
        Err(TtsError::UnknownProvider(n)) => assert_eq!(n, "polly"),
        other => panic!("unexpected {:?}", other),
    }
}

#[test]
fn plan_skips_preferred_and_unavailable() {
    let ps = get_available_providers(true, true, false, true);
    assert_eq!(plan_attempts("espeak", &ps), vec!["espeak", "say", "gcloud"]);
    assert_eq!(plan_attempts("gcloud", &ps), vec!["gcloud", "espeak", "say"]);
    let none = get_available_providers(false, false, false, false);
    assert_eq!(plan_attempts("say", &none), vec!["say"]);
}

#[test]
fn single_working_fallback_serves_the_audio() {
    let ps = get_available_providers(false, false, true, false);
    let mut f = Fallback::new("gcloud", &ps);
    assert_eq!(f.current(), "gcloud");
    match f.step(Err(TtsError::Api("denied".to_string()))) {
        Action::Attempt(p) => assert_eq!(p, "festival"),
        other => panic!("unexpected {:?}", other),
    }
    match f.step(Ok(vec![7, 8])) {
        Action::Deliver { provider, audio } => {
            assert_eq!(provider, "festival");
            assert_eq!(audio, vec![7, 8]);
        }
        other => panic!("unexpected {:?}", other),
    }
    assert!(f.finished);
}

#[test]
fn all_failing_gives_up() {
    let ps = get_available_providers(true, true, false, false);
    let mut f = Fallback::new("say", &ps);
    assert!(matches!(f.step(Err(TtsError::Io("no say".to_string()))), Action::Attempt(_)));
    assert!(matches!(f.step(Err(TtsError::Io("x".to_string()))), Action::Attempt(_)));
    assert!(matches!(
        f.step(Err(TtsError::Io("y".to_string()))),
        Action::GiveUp(TtsError::AllProvidersFailed)
    ));
    let none = get_available_providers(false, false, false, false);
    let mut g = Fallback::new("espeak", &none);
    assert!(matches!(
        g.step(Err(TtsError::Io("z".to_string()))),
        Action::GiveUp(TtsError::AllProvidersFailed)
    ));
}

#[test]
fn missing_credential_helper_falls_back() {
    let auth = credential_outcome(Err("gcloud: not found".to_string()));
    assert!(matches!(&auth, Err(TtsError::Auth(m)) if m == "gcloud: not found"));
    let ps = get_available_providers(false, true, false, false);
    let mut f = Fallback::new("gcloud", &ps);
    match f.step(auth.map(|_| Vec::new())) {
        Action::Attempt(p) => assert_eq!(p, "espeak"),
        other => panic!("unexpected {:?}", other),
    }
}

#[test]
fn credential_helper_exit_status() {
    let rejected = credential_outcome(Ok(CommandOutput {
        success: false,
        stdout: vec![],
        stderr: b"login".to_vec(),
    }));
    assert!(matches!(rejected, Err(TtsError::AuthRejected(e)) if e == b"login".to_vec()));
    let token = credential_outcome(Ok(CommandOutput {
        success: true,
        stdout: b"tok\n".to_vec(),
        stderr: vec![],
    }));
    assert_eq!(token.unwrap(), b"tok\n".to_vec());
}

#[test]
fn engine_outcomes() {
    let ok = engine_outcome(
        Provider::Espeak,
        Ok(CommandOutput { success: true, stdout: vec![1, 2], stderr: vec![] }),
    );
    assert_eq!(ok.unwrap(), vec![1, 2]);
    let failed = engine_outcome(
        Provider::Festival,
        Ok(CommandOutput { success: false, stdout: vec![], stderr: b"bad".to_vec() }),
    );
    match failed {
        Err(TtsError::Engine { engine, stderr }) => {
            assert_eq!(engine, "festival");
            assert_eq!(stderr, b"bad".to_vec());
        }
        other => panic!("unexpected {:?}", other),
    }
    assert!(matches!(
        engine_outcome(Provider::Say, Err("not found".to_string())),
        Err(TtsError::Io(m)) if m == "not found"
    ));
}

#[test]
fn engine_arguments() {
    assert_eq!(espeak_args("hi", "fr-FR"), vec!["-v", "fr", "--stdout", "hi"]);
    assert_eq!(espeak_args("hi", "de"), vec!["-v", "de", "--stdout", "hi"]);
    assert_eq!(espeak_args("hi", "ja-JP"), vec!["-v", "en", "--stdout", "hi"]);
    assert_eq!(
        festival_args("hi", "/tmp/t.wav"),
        vec!["--tts", "--otype", "wav", "--output", "/tmp/t.wav", "hi"]
    );
    assert_eq!(say_args("hi", None, "/tmp/t.aiff"), vec!["-o", "/tmp/t.aiff", "hi"]);
    assert_eq!(
        say_args("hi", Some("Alex"), "/tmp/t.aiff"),
        vec!["-o", "/tmp/t.aiff", "-v", "Alex", "hi"]
    );
}

#[test]
fn cloud_voice_defaults() {
    assert_eq!(gcloud_voice("es-ES", None), "es-ES-Wavenet-C");
    assert_eq!(gcloud_voice("de-DE", None), "de-DE-Wavenet-D");
    assert_eq!(gcloud_voice("it-IT", None), "en-US-Wavenet-D");
    assert_eq!(gcloud_voice("es-ES", Some("custom")), "custom");
    let r = gcloud_request("hello", "fr-FR", None);
    assert_eq!(r.text, "hello");
    assert_eq!(r.language_code, "fr-FR");
    assert_eq!(r.voice_name, "fr-FR-Wavenet-D");
    assert_eq!(r.ssml_gender, "NEUTRAL");
    assert_eq!(r.audio_encoding, "MP3");
    assert_eq!(r.sample_rate_hertz, 22050);
}

#[test]
fn cloud_response_decodes_audio_content() {
    let r = gcloud_response(true, "{\"audioContent\":\"aGVsbG8=\"}");
    assert_eq!(r.unwrap(), b"hello".to_vec());
}

#[test]
fn cloud_response_errors() {
    assert!(matches!(gcloud_response(false, "quota"), Err(TtsError::Api(m)) if m == "quota"));
    assert!(matches!(gcloud_response(true, "{\"other\":1}"), Err(TtsError::Api(_))));
    assert!(matches!(gcloud_response(true, "not json"), Err(TtsError::Api(_))));
    assert!(matches!(gcloud_response(true, "{\"audioContent\":\"@@@\"}"), Err(TtsError::Api(_))));
}
