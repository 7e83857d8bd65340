//! Text-to-speech and speech-to-text.
use mcpg_plugin_backend_llm_openai::error::ProviderError;
use mcpg_plugin_backend_llm_openai::json::{parse_text, to_value, Json};
use mcpg_plugin_backend_llm_openai::normalized::AudioFormat;
use mcpg_plugin_backend_llm_openai::stt_adapter::{
    checked_form, conclude_transcribe, decode_response, encode_form, filename_for_mime, FormPart,
    NormalizedSttRequest,
};
use mcpg_plugin_backend_llm_openai::tts_adapter::{
    conclude_synthesize, encode_request, NormalizedTtsRequest,
};
use mcpg_plugin_backend_llm_openai::upstream::{Exchange, TransportFault};
use mcpg_plugin_backend_llm_openai::{
    stt_adapter, tts_adapter, OpenAiSttAdapter, OpenAiTtsAdapter, OpenAiVariant,
};

fn doc(text: &str) -> Json {
    parse_text(text).unwrap()
}

fn speech(format: AudioFormat, speed: Option<f64>) -> NormalizedTtsRequest {
    NormalizedTtsRequest {
        model: "tts-1".to_string(),
        text: "hello".to_string(),
        voice: "alloy".to_string(),
        format,
        speed: speed.map(|s| Json::Number(serde_json::Number::from_f64(s).unwrap())),
    }
}

#[test]
fn encode_request_includes_speed_when_set() {
    let body = to_value(&encode_request(&speech(AudioFormat::Mp3, Some(1.5))));
    assert_eq!(body["model"], "tts-1");
    assert_eq!(body["input"], "hello");
    assert_eq!(body["voice"], "alloy");
    assert_eq!(body["response_format"], "mp3");
    assert_eq!(body["speed"], 1.5);
    let body = to_value(&encode_request(&speech(AudioFormat::Mp3, None)));
    assert!(body.get("speed").is_none());
}

#[test]
fn encode_request_maps_ogg_to_opus() {
    let body = to_value(&encode_request(&speech(AudioFormat::Ogg, None)));
    assert_eq!(body["response_format"], "opus");
    for (format, name) in [
        (AudioFormat::Wav, "wav"),
        (AudioFormat::Flac, "flac"),
        (AudioFormat::Aac, "aac"),
        (AudioFormat::Pcm, "pcm"),
    ] {
        assert_eq!(to_value(&encode_request(&speech(format, None)))["response_format"], name);
    }
}

#[test]
fn endpoint_url_appends_audio_speech_for_openai() {
    let a = OpenAiTtsAdapter::new(
        OpenAiVariant::OpenAi,
        "openai",
        "https://api.openai.com/v1".to_string(),
        "k".to_string(),
    )
    .unwrap_or_else(|e| panic!("{:?}", e));
    assert_eq!(a.endpoint_url(), "https://api.openai.com/v1/audio/speech");
    let post = a.synthesize(&speech(AudioFormat::Mp3, None)).unwrap_or_else(|e| panic!("{:?}", e));
    assert_eq!(post.url, "https://api.openai.com/v1/audio/speech");
    assert_eq!(to_value(&post.body)["voice"], "alloy");
}

#[test]
fn tts_adapter_map_status_429_rate_limited() {
    let e = tts_adapter::map_status_error(429, b"");
    assert!(matches!(e, ProviderError::RateLimited { .. }));
}

#[test]
fn the_reply_names_the_type_of_the_audio() {
    let ok = || Exchange::Replied { status: 200, body: vec![1, 2] };
    for (header, mime) in [
        (Some("audio/mpeg"), "audio/mpeg"),
        (Some("application/octet-stream"), "audio/fallback"),
        (Some("AUDIO/mpeg"), "audio/fallback"),
        (None, "audio/fallback"),
    ] {
        let r = conclude_synthesize(ok(), header.map(|h| h.to_string()), "audio/fallback".to_string());
        let r = r.unwrap();
        assert_eq!(r.bytes, vec![1, 2]);
        assert_eq!(r.mime_type, mime);
    }
    let bad = conclude_synthesize(
        Exchange::Replied { status: 500, body: b"x".to_vec() },
        None,
        String::new(),
    );
    assert!(matches!(bad.unwrap_err(), ProviderError::Server { .. }));
    let broken = conclude_synthesize(Exchange::ReadFailed("x".to_string()), None, String::new());
    assert_eq!(broken.unwrap_err().message(), "read body: x");
    let fault = TransportFault {
        timeout: false,
        connect: false,
        request: false,
        body: false,
        decode: false,
        detail: "d".to_string(),
    };
    let unsent = conclude_synthesize(Exchange::SendFailed(fault), None, String::new());
    assert_eq!(unsent.unwrap_err().message(), "send: d");
}

#[test]
fn decode_response_parses_verbose_json() {
    let raw = doc("{\"text\": \"hello world\", \"language\": \"en\", \"duration\": 1.5}");
    let r = decode_response(&raw).unwrap();
    assert_eq!(r.text, "hello world");
    assert_eq!(r.language.as_deref(), Some("en"));
    assert_eq!(to_value(&r.duration_seconds.unwrap()).as_f64(), Some(1.5));
}

#[test]
fn decode_response_handles_basic_json() {
    let r = decode_response(&doc("{\"text\": \"ok\"}")).unwrap();
    assert_eq!(r.text, "ok");
    assert!(r.language.is_none());
    assert!(r.duration_seconds.is_none());
    let r = decode_response(&doc("{\"text\": \"ok\", \"duration\": \"2\", \"language\": 3}"));
    let r = r.unwrap();
    assert!(r.duration_seconds.is_none());
    assert!(r.language.is_none());
}

#[test]
fn decode_response_rejects_missing_text() {
    let err = decode_response(&doc("{}")).unwrap_err();
    assert!(matches!(err, ProviderError::Malformed { .. }));
    assert_eq!(err.message(), "transcription response missing `text`");
}

#[test]
fn filename_for_mime_maps_known_types() {
    assert_eq!(filename_for_mime("audio/mpeg"), "audio.mp3");
    assert_eq!(filename_for_mime("audio/wav"), "audio.wav");
    assert_eq!(filename_for_mime("audio/flac"), "audio.flac");
    assert_eq!(filename_for_mime("audio/ogg"), "audio.ogg");
    assert_eq!(filename_for_mime("audio/x-m4a"), "audio.m4a");
    assert_eq!(filename_for_mime("application/octet-stream"), "audio.bin");
    assert_eq!(filename_for_mime("audio/mp3"), "audio.mp3");
    assert_eq!(filename_for_mime("audio/x-wav"), "audio.wav");
    assert_eq!(filename_for_mime("audio/opus"), "audio.ogg");
    assert_eq!(filename_for_mime("audio/mp4"), "audio.m4a");
    assert_eq!(filename_for_mime("audio/webm"), "audio.webm");
}

#[test]
fn endpoint_url_appends_transcriptions_for_openai() {
    let a = transcriber();
    assert_eq!(a.endpoint_url(), "https://api.openai.com/v1/audio/transcriptions");
}

#[test]
fn stt_adapter_map_status_401_auth_failed() {
    let e = stt_adapter::map_status_error(401, b"");
    assert!(matches!(e, ProviderError::AuthFailed { .. }));
}

fn transcriber() -> OpenAiSttAdapter {
    OpenAiSttAdapter::new(
        OpenAiVariant::OpenAi,
        "openai",
        "https://api.openai.com/v1".to_string(),
        "k".to_string(),
    )
    .unwrap_or_else(|e| panic!("{:?}", e))
}

fn recording(mime_type: &str) -> NormalizedSttRequest {
    NormalizedSttRequest {
        model: "whisper-1".to_string(),
        bytes: vec![1, 255],
        mime_type: mime_type.to_string(),
        language: Some("en".to_string()),
        prompt: None,
    }
}

fn texts(parts: &[FormPart]) -> Vec<String> {
    parts
        .iter()
        .map(|p| match p {
            FormPart::Text { name, value } => format!("{}={}", name, value),
            FormPart::Audio { name, filename, mime_type, bytes } => {
                format!("{}:{}:{}:{:?}", name, filename, mime_type, bytes)
            }
        })
        .collect()
}

#[test]
fn forms_carry_the_audio_and_its_hints() {
    let mut r = recording("audio/wav");
    assert_eq!(
        texts(&encode_form(&r)),
        vec![
            "model=whisper-1",
            "response_format=verbose_json",
            "file:audio.wav:audio/wav:[1, 255]",
            "language=en",
        ]
    );
    r.language = None;
    r.prompt = Some("names".to_string());
    assert_eq!(texts(&encode_form(&r))[3], "prompt=names");
    let post = transcriber().transcribe(&r).unwrap_or_else(|e| panic!("{:?}", e));
    assert_eq!(post.headers, vec![("authorization".to_string(), "Bearer k".to_string())]);
    assert_eq!(post.parts.len(), 4);
    assert_eq!(texts(&post.parts)[2], "file:audio.wav:audio/wav:[1, 255]");
}

#[test]
fn types_that_are_none_are_refused() {
    match transcriber().transcribe(&recording("not a type")) {
        Ok(_) => panic!("accepted"),
        Err(e) => {
            assert!(matches!(e, ProviderError::BadRequest { .. }));
            assert!(e.message().starts_with("invalid mime_type not a type: "));
        }
    }
    let e = checked_form(&recording("m"), Err("why".to_string())).unwrap_err();
    assert_eq!(e.message(), "invalid mime_type m: why");
}

#[test]
fn transcriptions_are_concluded() {
    let ok = conclude_transcribe(Exchange::Replied {
        status: 200,
        body: b"{\"text\": \"t\"}".to_vec(),
    });
    assert_eq!(ok.unwrap().text, "t");
    let bad = conclude_transcribe(Exchange::Replied { status: 429, body: vec![] });
    assert!(matches!(bad.unwrap_err(), ProviderError::RateLimited { .. }));
}
