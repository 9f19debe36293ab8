use vstd::prelude::*;
use base64::Engine;
use crate::error::TtsError;
use crate::providers::{str_eq, Provider};
use vstd::string::StringExecFns;

verus! {

/// What a finished subprocess reported.
#[derive(Debug, Clone)]
pub struct CommandOutput {
    pub success: bool,
    pub stdout: Vec<u8>,
    pub stderr: Vec<u8>,
}

/// A local engine's run: it could not be started (the launch error), or it
/// finished unsuccessfully (its stderr), or it produced audio on stdout.
pub fn engine_outcome(engine: Provider, run: Result<CommandOutput, String>) -> (r: Result<
    Vec<u8>,
    TtsError,
>)
    ensures
        match run {
            Err(msg) => r matches Err(TtsError::Io(m)) && m == msg,
            Ok(out) => if out.success {
                r matches Ok(a) && a == out.stdout
            } else {
                r matches Err(TtsError::Engine { engine: e, stderr }) && e@ == engine.spec_name()
                    && stderr == out.stderr
            },
        },
{
    match run {
        Err(msg) => Err(TtsError::Io(msg)),
        Ok(out) => {
            if out.success {
                Ok(out.stdout)
            } else {
                Err(TtsError::Engine { engine: String::from_str(engine.name()), stderr: out.stderr })
            }
        },
    }
}

/// The credential helper's run: a failure to start it or an unsuccessful exit
/// is an authentication error; otherwise its stdout holds the token.
pub fn credential_outcome(run: Result<CommandOutput, String>) -> (r: Result<Vec<u8>, TtsError>)
    ensures
        match run {
            Err(msg) => r matches Err(TtsError::Auth(m)) && m == msg,
            Ok(out) => if out.success {
                r matches Ok(t) && t == out.stdout
            } else {
                r matches Err(TtsError::AuthRejected(e)) && e == out.stderr
            },
        },
{
    match run {
        Err(msg) => Err(TtsError::Auth(msg)),
        Ok(out) => {
            if out.success {
                Ok(out.stdout)
            } else {
                Err(TtsError::AuthRejected(out.stderr))
            }
        },
    }
}

/// The cloud voice used for a language when none is given.
pub open spec fn gcloud_default_voice(language: Seq<char>) -> Seq<char> {
    if language == "es-ES"@ {
        "es-ES-Wavenet-C"@
    } else if language == "fr-FR"@ {
        "fr-FR-Wavenet-D"@
    } else if language == "de-DE"@ {
        "de-DE-Wavenet-D"@
    } else {
        "en-US-Wavenet-D"@
    }
}

/// The cloud voice for a request: the one given, else the language's default.
pub fn gcloud_voice(language: &str, voice: Option<&str>) -> (r: String)
    ensures
        match voice {
            Some(v) => r@ == v@,
            None => r@ == gcloud_default_voice(language@),
        },
{
    match voice {
        Some(v) => String::from_str(v),
        None => {
            if str_eq(language, "es-ES") {
                String::from_str("es-ES-Wavenet-C")
            } else if str_eq(language, "fr-FR") {
                String::from_str("fr-FR-Wavenet-D")
            } else if str_eq(language, "de-DE") {
                String::from_str("de-DE-Wavenet-D")
            } else {
                String::from_str("en-US-Wavenet-D")
            }
        },
    }
}

/// The fixed fields of a cloud synthesis request, with the text and voice
/// chosen for it. Speaking rate, pitch and gain are fixed at their neutral
/// values by the transport.
#[derive(Debug, Clone)]
pub struct GcloudRequest {
    pub text: String,
    pub language_code: String,
    pub voice_name: String,
    pub ssml_gender: String,
    pub audio_encoding: String,
    pub sample_rate_hertz: u32,
}

/// Builds the cloud request for a text, language and optional voice.
pub fn gcloud_request(text: &str, language: &str, voice: Option<&str>) -> (r: GcloudRequest)
    ensures
        r.text@ == text@,
        r.language_code@ == language@,
        match voice {
            Some(v) => r.voice_name@ == v@,
            None => r.voice_name@ == gcloud_default_voice(language@),
        },
        r.ssml_gender@ == "NEUTRAL"@,
        r.audio_encoding@ == "MP3"@,
        r.sample_rate_hertz == 22050,
{
    GcloudRequest {
        text: String::from_str(text),
        language_code: String::from_str(language),
        voice_name: gcloud_voice(language, voice),
        ssml_gender: String::from_str("NEUTRAL"),
        audio_encoding: String::from_str("MP3"),
        sample_rate_hertz: 22050,
    }
}

/// The string value of a top-level field of a JSON document, if the text
/// parses as JSON and the field holds a string.
pub uninterp spec fn json_str_field(body: Seq<char>, field: Seq<char>) -> Option<Seq<char>>;

/// The bytes that standard base64 text decodes to, if it is valid.
pub uninterp spec fn base64_decoded(text: Seq<char>) -> Option<Seq<u8>>;

/// Relies on `serde_json::from_str::<Value>`, `Value::get` and
/// `Value::as_str`: the string held by field `field` of the document `body`.
#[verifier::external_body]
fn json_string_field(body: &str, field: &str) -> (r: Option<String>)
    ensures
        match r {
            Some(s) => json_str_field(body@, field@) == Some(s@),
            None => json_str_field(body@, field@) is None,
        },
{
    let value: serde_json::Value = serde_json::from_str(body).ok()?;
    value.get(field)?.as_str().map(|s| s.to_string())
}

/// Relies on `base64::engine::general_purpose::STANDARD.decode`: the bytes
/// that the text encodes, or nothing if it is not valid base64.
#[verifier::external_body]
fn decode_base64(text: &str) -> (r: Option<Vec<u8>>)
    ensures
        match r {
            Some(v) => base64_decoded(text@) == Some(v@),
            None => base64_decoded(text@) is None,
        },
{
    base64::engine::general_purpose::STANDARD.decode(text).ok()
}

/// Interprets the cloud service's answer: an unsuccessful status is an API
/// error carrying the body; a successful one must carry base64 audio in its
/// `audioContent` field.
pub fn gcloud_response(success: bool, body: &str) -> (r: Result<Vec<u8>, TtsError>)
    ensures
        !success ==> (r matches Err(TtsError::Api(m)) && m@ == body@),
        success ==> match json_str_field(body@, "audioContent"@) {
            None => r matches Err(TtsError::Api(_)),
            Some(content) => match base64_decoded(content) {
                Some(audio) => r matches Ok(a) && a@ == audio,
                None => r matches Err(TtsError::Api(_)),
            },
        },
{
    if !success {
        return Err(TtsError::Api(String::from_str(body)));
    }
    match json_string_field(body, "audioContent") {
        None => Err(TtsError::Api(String::from_str("No audioContent in response"))),
        Some(content) => match decode_base64(content.as_str()) {
            Some(audio) => Ok(audio),
            None => Err(TtsError::Api(String::from_str("audioContent is not valid base64"))),
        },
    }
}

/// The espeak voice for a language: its two-letter code, English by default.
pub open spec fn espeak_language(language: Seq<char>) -> Seq<char> {
    if language == "es-ES"@ || language == "es"@ {
        "es"@
    } else if language == "fr-FR"@ || language == "fr"@ {
        "fr"@
    } else if language == "de-DE"@ || language == "de"@ {
        "de"@
    } else {
        "en"@
    }
}

fn espeak_code(language: &str) -> (r: &'static str)
    ensures
        r@ == espeak_language(language@),
{
    if str_eq(language, "es-ES") || str_eq(language, "es") {
        "es"
    } else if str_eq(language, "fr-FR") || str_eq(language, "fr") {
        "fr"
    } else if str_eq(language, "de-DE") || str_eq(language, "de") {
        "de"
    } else {
        "en"
    }
}

/// The text of each string.
pub open spec fn views(v: Seq<String>) -> Seq<Seq<char>> {
    v.map_values(|s: String| s@)
}

/// Arguments for espeak: write the text's audio to stdout in the
/// language's voice.
pub fn espeak_args(text: &str, language: &str) -> (r: Vec<String>)
    ensures
        views(r@) == seq!["-v"@, espeak_language(language@), "--stdout"@, text@],
{
    let mut r: Vec<String> = Vec::new();
    r.push(String::from_str("-v"));
    r.push(String::from_str(espeak_code(language)));
    r.push(String::from_str("--stdout"));
    r.push(String::from_str(text));
    proof {
        assert(views(r@) =~= seq!["-v"@, espeak_language(language@), "--stdout"@, text@]);
    }
    r
}

/// Arguments for festival: write the text's audio as WAV to `out_path`.
pub fn festival_args(text: &str, out_path: &str) -> (r: Vec<String>)
    ensures
        views(r@) == seq!["--tts"@, "--otype"@, "wav"@, "--output"@, out_path@, text@],
{
    let mut r: Vec<String> = Vec::new();
    r.push(String::from_str("--tts"));
    r.push(String::from_str("--otype"));
    r.push(String::from_str("wav"));
    r.push(String::from_str("--output"));
    r.push(String::from_str(out_path));
    r.push(String::from_str(text));
    proof {
        assert(views(r@) =~= seq!["--tts"@, "--otype"@, "wav"@, "--output"@, out_path@, text@]);
    }
    r
}

/// Arguments for say: write the text's audio to `out_path`, in the given
/// voice if there is one.
pub fn say_args(text: &str, voice: Option<&str>, out_path: &str) -> (r: Vec<String>)
    ensures
        views(r@) == match voice {
            Some(v) => seq!["-o"@, out_path@, "-v"@, v@, text@],
            None => seq!["-o"@, out_path@, text@],
        },
{
    let mut r: Vec<String> = Vec::new();
    r.push(String::from_str("-o"));
    r.push(String::from_str(out_path));
    if let Some(v) = voice {
        r.push(String::from_str("-v"));
        r.push(String::from_str(v));
    }
    r.push(String::from_str(text));
    proof {
        match voice {
            Some(v) => assert(views(r@) =~= seq!["-o"@, out_path@, "-v"@, v@, text@]),
            None => assert(views(r@) =~= seq!["-o"@, out_path@, text@]),
        }
    }
    r
}

} // verus!
