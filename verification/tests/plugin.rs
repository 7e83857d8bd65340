//! The backends, their profiles and their calls.
use mcpg_plugin_backend_llm_openai::call::{accept_arguments, accept_printed, decode_payload};
use mcpg_plugin_backend_llm_openai::cdylib::StreamRegistry;
use mcpg_plugin_backend_llm_openai::config::{
    ApiKeyRef, ChatExecutionSpec, ExecutionSpec, ResponseFormatMode,
};
use mcpg_plugin_backend_llm_openai::entity::Entity;
use mcpg_plugin_backend_llm_openai::error::{
    clone_backend_error, BackendError, ConfigError, ProviderError,
};
use mcpg_plugin_backend_llm_openai::host_handle_obs::UsageSnapshot;
use mcpg_plugin_backend_llm_openai::json::{parse_text, to_value, Json};
use mcpg_plugin_backend_llm_openai::plugin::{StreamItem, StreamObserver, StreamReport};
use mcpg_plugin_backend_llm_openai::profile::{output_schema, report_profile_error, ProfileError};
use mcpg_plugin_backend_llm_openai::{
    embedding_plugin, image_plugin, plugin, stt_plugin, tts_plugin, AzureOpenaiChatPlugin,
    AzureOpenaiChatSpec, AzureOpenaiEmbeddingPlugin, AzureOpenaiEmbeddingSpec,
    AzureOpenaiImagePlugin, AzureOpenaiImageSpec, AzureOpenaiSttPlugin, AzureOpenaiSttSpec,
    AzureOpenaiTtsPlugin, AzureOpenaiTtsSpec, OpenAiChatPlugin, OpenAiChatSpec,
    OpenAiEmbeddingPlugin, OpenAiEmbeddingSpec, OpenAiImagePlugin, OpenAiImageSpec,
    OpenAiSttPlugin, OpenAiSttSpec, OpenAiTtsPlugin, OpenAiTtsSpec,
};

type Chat = OpenAiChatPlugin<u32, String>;
type AzureChat = AzureOpenaiChatPlugin<u32, String>;

fn chat_exec(model: &str) -> ChatExecutionSpec {
    ChatExecutionSpec {
        model: model.to_string(),
        connect_timeout_ms: 5_000,
        response_format: ResponseFormatMode::JsonSchema,
        checked: Ok(()),
    }
}

fn exec(model: &str) -> ExecutionSpec {
    ExecutionSpec { model: model.to_string(), connect_timeout_ms: 5_000, checked: Ok(()) }
}

fn chat_spec() -> OpenAiChatSpec {
    OpenAiChatSpec { base_url: None, api_key: ApiKeyRef::new("k"), chat: chat_exec("gpt-4o-mini") }
}

fn key() -> Result<String, BackendError> {
    Ok("k".to_string())
}

fn no<T>() -> Result<T, String> {
    Err("no".to_string())
}

fn why<T>(r: Result<T, BackendError>) -> String {
    match r {
        Ok(_) => panic!("accepted"),
        Err(BackendError::InvalidSpec { message }) => message,
        Err(e) => panic!("{:?}", e),
    }
}

/// What is told of a refused profile, where errors are printed by their message.
fn refused<T>(r: Result<T, ProfileError>) -> String {
    let e = match r {
        Ok(_) => panic!("accepted"),
        Err(e) => e,
    };
    let printed = match &e {
        ProfileError::Config(ConfigError::InvalidSpec(message)) => message.clone(),
        ProfileError::Adapter { error, .. } => error.message().to_string(),
        ProfileError::Backend(_) => "unused".to_string(),
    };
    why::<()>(Err(report_profile_error(e, &printed)))
}

#[test]
fn openai_plugin_kind_and_manifest() {
    let p = Chat::new();
    assert_eq!(p.kind(), "openai.chat");
    assert_eq!(p.manifest().id, "dev.mcpg.backend.openai.chat");
    assert_eq!(p.manifest().name, "OpenAI Chat Completions");
}

#[test]
fn azure_plugin_kind_and_manifest() {
    let p = AzureChat::new();
    assert_eq!(p.kind(), "azure_openai.chat");
    assert_eq!(p.manifest().id, "dev.mcpg.backend.azure_openai.chat");
}

#[test]
fn openai_embedding_plugin_kind_and_manifest() {
    let p = OpenAiEmbeddingPlugin::<u32>::new();
    assert_eq!(p.kind(), "openai.embedding");
    assert_eq!(p.manifest().id, "dev.mcpg.backend.openai.embedding");
}

#[test]
fn azure_embedding_plugin_kind_and_manifest() {
    let p = AzureOpenaiEmbeddingPlugin::<u32>::new();
    assert_eq!(p.kind(), "azure_openai.embedding");
    assert_eq!(p.manifest().id, "dev.mcpg.backend.azure_openai.embedding");
}

#[test]
fn openai_image_plugin_kind_and_manifest() {
    let p = OpenAiImagePlugin::<u32>::new();
    assert_eq!(p.kind(), "openai.image");
    assert_eq!(p.manifest().id, "dev.mcpg.backend.openai.image");
}

#[test]
fn azure_image_plugin_kind_and_manifest() {
    let p = AzureOpenaiImagePlugin::<u32>::new();
    assert_eq!(p.kind(), "azure_openai.image");
    assert_eq!(p.manifest().id, "dev.mcpg.backend.azure_openai.image");
}

#[test]
fn openai_stt_kind_and_manifest() {
    let p = OpenAiSttPlugin::<u32>::new();
    assert_eq!(p.kind(), "openai.stt");
    assert_eq!(p.manifest().id, "dev.mcpg.backend.openai.stt");
}

#[test]
fn azure_stt_kind_and_manifest() {
    let p = AzureOpenaiSttPlugin::<u32>::new();
    assert_eq!(p.kind(), "azure_openai.stt");
    assert_eq!(p.manifest().id, "dev.mcpg.backend.azure_openai.stt");
}

#[test]
fn openai_tts_kind_and_manifest() {
    let p = OpenAiTtsPlugin::<u32>::new();
    assert_eq!(p.kind(), "openai.tts");
    assert_eq!(p.manifest().id, "dev.mcpg.backend.openai.tts");
}

#[test]
fn azure_tts_kind_and_manifest() {
    let p = AzureOpenaiTtsPlugin::<u32>::new();
    assert_eq!(p.kind(), "azure_openai.tts");
    assert_eq!(p.manifest().id, "dev.mcpg.backend.azure_openai.tts");
}

#[test]
fn the_backends_are_told_apart() {
    let all = [
        Entity::Chat,
        Entity::AzureChat,
        Entity::Embedding,
        Entity::AzureEmbedding,
        Entity::Image,
        Entity::AzureImage,
        Entity::Tts,
        Entity::AzureTts,
        Entity::Stt,
        Entity::AzureStt,
    ];
    for (i, a) in all.iter().enumerate() {
        assert_eq!(a.id(), format!("dev.mcpg.backend.{}", a.kind()));
        assert_eq!(a.binding_kind(), a.kind().replace('.', "_"));
        for b in &all[i + 1..] {
            assert_ne!(a.kind(), b.kind());
            assert_ne!(a.id(), b.id());
            assert_ne!(a.inner_name(), b.inner_name());
        }
    }
    assert_eq!(Entity::Chat.inner_name(), "");
    assert_eq!(Entity::AzureChat.inner_name(), "azure-chat");
}

#[test]
fn openai_register_minimal_spec_succeeds() {
    let adapter = Chat::prepare_profile(Ok(chat_spec()), key(), Ok(()), Ok(()), Ok(()));
    let adapter = adapter.unwrap_or_else(|e| panic!("{:?}", e));
    assert_eq!(adapter.endpoint_url(), "https://api.openai.com/v1/chat/completions");
    assert_eq!(adapter.label(), "openai");
    let mut plugin = Chat::new();
    plugin.register_profile("summarize", Ok(adapter.endpoint_url()), "").unwrap();
    assert_eq!(plugin.registered_profile_count(), 1);
}

#[test]
fn azure_register_requires_base_url() {
    let spec = AzureOpenaiChatSpec {
        base_url: String::new(),
        api_key: ApiKeyRef::new("k"),
        chat: chat_exec("gpt-4o"),
    };
    let err = AzureChat::prepare_profile(Ok(spec), key(), Ok(()), Ok(()), Ok(()));
    assert!(refused(err).starts_with("azure_openai_chat: base_url is required"));
}

#[test]
fn openai_embedding_register_minimal_spec_succeeds() {
    let spec = OpenAiEmbeddingSpec {
        base_url: None,
        api_key: ApiKeyRef::new("k"),
        embedding: exec("text-embedding-3-small"),
    };
    let adapter = OpenAiEmbeddingPlugin::<u32>::prepare_profile(Ok(spec), key(), Ok(()));
    assert!(adapter.is_ok());
    let mut plugin = OpenAiEmbeddingPlugin::new();
    plugin.register_profile("embed", Ok(1), "").unwrap();
    assert_eq!(plugin.registered_profile_count(), 1);
}

#[test]
fn azure_embedding_register_requires_base_url() {
    let spec = AzureOpenaiEmbeddingSpec {
        base_url: String::new(),
        api_key: ApiKeyRef::new("k"),
        embedding: exec("text-embedding-3-small"),
    };
    let err = AzureOpenaiEmbeddingPlugin::<u32>::prepare_profile(Ok(spec), key(), Ok(()));
    assert!(refused(err).starts_with("azure_openai_embedding: base_url is required"));
}

#[test]
fn openai_image_register_minimal_spec_succeeds() {
    let spec =
        OpenAiImageSpec { base_url: None, api_key: ApiKeyRef::new("k"), image: exec("dall-e-3") };
    assert!(OpenAiImagePlugin::<u32>::prepare_profile(Ok(spec), key(), Ok(())).is_ok());
    let mut plugin = OpenAiImagePlugin::new();
    plugin.register_profile("img", Ok(1), "").unwrap();
    assert_eq!(plugin.registered_profile_count(), 1);
}

#[test]
fn azure_image_register_requires_base_url() {
    let spec = AzureOpenaiImageSpec {
        base_url: String::new(),
        api_key: ApiKeyRef::new("k"),
        image: exec("dall-e-3"),
    };
    let err = AzureOpenaiImagePlugin::<u32>::prepare_profile(Ok(spec), key(), Ok(()));
    assert!(refused(err).starts_with("azure_openai_image: base_url is required"));
}

#[test]
fn openai_stt_register_minimal_succeeds() {
    let spec =
        OpenAiSttSpec { base_url: None, api_key: ApiKeyRef::new("k"), stt: exec("whisper-1") };
    assert!(OpenAiSttPlugin::<u32>::prepare_profile(Ok(spec), key(), Ok(())).is_ok());
    let mut plugin = OpenAiSttPlugin::new();
    plugin.register_profile("stt", Ok(1), "").unwrap();
    assert_eq!(plugin.registered_profile_count(), 1);
}

#[test]
fn openai_tts_register_minimal_succeeds() {
    let spec = OpenAiTtsSpec { base_url: None, api_key: ApiKeyRef::new("k"), tts: exec("tts-1") };
    assert!(OpenAiTtsPlugin::<u32>::prepare_profile(Ok(spec), key(), Ok(())).is_ok());
    let mut plugin = OpenAiTtsPlugin::new();
    plugin.register_profile("tts", Ok(1), "").unwrap();
    assert_eq!(plugin.registered_profile_count(), 1);
}

#[test]
fn azure_tts_register_requires_base_url() {
    let spec = AzureOpenaiTtsSpec {
        base_url: String::new(),
        api_key: ApiKeyRef::new("k"),
        tts: exec("tts-1"),
    };
    let err = AzureOpenaiTtsPlugin::<u32>::prepare_profile(Ok(spec), key(), Ok(()));
    assert_eq!(refused(err), "azure_openai_tts: base_url is required");
    let spec = AzureOpenaiSttSpec {
        base_url: String::new(),
        api_key: ApiKeyRef::new("k"),
        stt: exec("whisper-1"),
    };
    let err = AzureOpenaiSttPlugin::<u32>::prepare_profile(Ok(spec), key(), Ok(()));
    assert_eq!(refused(err), "azure_openai_stt: base_url is required");
}

#[test]
fn profiles_are_refused_in_order() {
    let missing = || Err(BackendError::Transport { message: "vault".to_string() });
    let parse = Chat::prepare_profile(no(), missing(), no(), no(), no());
    assert_eq!(refused(parse), "openai_chat spec: no");
    let mut bad = chat_spec();
    bad.chat.checked = Err(ConfigError::InvalidSpec("bad prompt".to_string()));
    let checked = Chat::prepare_profile(Ok(bad), missing(), no(), no(), no());
    assert_eq!(refused(checked), "bad prompt");
    match Chat::prepare_profile(Ok(chat_spec()), missing(), no(), no(), no()) {
        Err(ProfileError::Backend(BackendError::Transport { message })) => {
            assert_eq!(message, "vault")
        }
        _ => panic!("accepted"),
    }
    let empty = Chat::prepare_profile(Ok(chat_spec()), Ok(String::new()), no(), no(), no());
    assert_eq!(refused(empty), "api_key resolved to an empty value");
    let client = Chat::prepare_profile(Ok(chat_spec()), key(), no(), no(), no());
    assert_eq!(refused(client), "build openai adapter: build http client: no");
    let mut url = chat_spec();
    url.base_url = Some(String::new());
    let url = Chat::prepare_profile(Ok(url), key(), Ok(()), no(), no());
    assert_eq!(refused(url), "build openai adapter: base_url is empty");
    let templates = Chat::prepare_profile(Ok(chat_spec()), key(), Ok(()), no(), no());
    assert_eq!(refused(templates), "template: no");
    let schema = Chat::prepare_profile(Ok(chat_spec()), key(), Ok(()), Ok(()), no());
    assert_eq!(refused(schema), "no");
}

#[test]
fn error_messages_name_the_backend() {
    let parse = AzureOpenaiImagePlugin::<u32>::prepare_profile(no(), key(), Ok(()));
    assert_eq!(refused(parse), "azure_openai_image spec: no");
    let spec = OpenAiSttSpec {
        base_url: Some(String::new()),
        api_key: ApiKeyRef::new("k"),
        stt: exec("m"),
    };
    let err = OpenAiSttPlugin::<u32>::prepare_profile(Ok(spec), key(), Ok(()));
    assert_eq!(refused(err), "build openai stt adapter: base_url is empty");
    let spec = AzureOpenaiTtsSpec {
        base_url: "u".to_string(),
        api_key: ApiKeyRef::new("k"),
        tts: exec("m"),
    };
    let err = AzureOpenaiTtsPlugin::<u32>::prepare_profile(Ok(spec), key(), no());
    assert_eq!(refused(err), "build azure tts adapter: build http client: no");
}

#[test]
fn only_prepared_profiles_are_registered() {
    let mut plugin = Chat::new();
    plugin.register_profile("a", Ok("one".to_string()), "").unwrap();
    let mut bad = chat_spec();
    bad.chat.checked = Err(ConfigError::InvalidSpec("m".to_string()));
    let bad = Chat::prepare_profile(Ok(bad), key(), Ok(()), Ok(()), Ok(()));
    let r = plugin.register_profile("a", bad.map(|a| a.endpoint_url()), "invalid: m");
    assert_eq!(why(r), "invalid: m");
    let mut url = chat_spec();
    url.base_url = Some(String::new());
    let url = Chat::prepare_profile(Ok(url), key(), Ok(()), Ok(()), Ok(()));
    let r = plugin.register_profile("b", url.map(|a| a.endpoint_url()), "bad request: m");
    assert_eq!(why(r), "build openai adapter: bad request: m");
    let down = ProfileError::Backend(BackendError::Transport { message: "vault".to_string() });
    match plugin.register_profile("b", Err(down), "unused") {
        Err(BackendError::Transport { message }) => assert_eq!(message, "vault"),
        other => panic!("{:?}", other),
    }
    assert_eq!(plugin.registered_profile_count(), 1);
    assert_eq!(plugin.lookup_engine("a").unwrap(), "one");
    assert!(plugin.lookup_engine("b").is_err());
}

#[test]
fn schemas_count_for_documents_only() {
    let spec = parse_text("{\"output_schema\": {\"type\": \"object\"}}").unwrap();
    let found = output_schema(ResponseFormatMode::JsonSchema, &spec).unwrap();
    assert_eq!(to_value(&found)["type"], "object");
    assert!(output_schema(ResponseFormatMode::Text, &spec).is_none());
    assert!(output_schema(ResponseFormatMode::JsonSchema, &Json::Null).is_none());
}

#[test]
fn plugin_execute_unregistered_returns_not_found() {
    let plugin = Chat::new();
    let err = plugin.execute("missing", b"").map(|_| ()).unwrap_err();
    assert!(matches!(err, BackendError::ProfileNotFound { .. }));
    let err = plugin.execute("missing", b"not json").map(|_| ()).unwrap_err();
    match clone_backend_error(&err) {
        BackendError::ProfileNotFound { backend_name } => assert_eq!(backend_name, "missing"),
        e => panic!("{:?}", e),
    }
}

#[test]
fn embedding_plugin_execute_unregistered_returns_not_found() {
    let plugin = OpenAiEmbeddingPlugin::<u32>::new();
    let err = plugin.execute("missing", b"").map(|_| ()).unwrap_err();
    assert!(matches!(err, BackendError::ProfileNotFound { .. }));
}

#[test]
fn registered_profiles_are_found_and_replaced() {
    let mut plugin = OpenAiImagePlugin::<u32>::default();
    plugin.register_profile("a", Ok(1), "").unwrap();
    plugin.register_profile("b", Ok(2), "").unwrap();
    plugin.register_profile("a", Ok(3), "").unwrap();
    assert_eq!(plugin.registered_profile_count(), 2);
    assert_eq!(plugin.lookup_engine("a").unwrap(), &3);
    assert_eq!(plugin.lookup_engine("b").unwrap(), &2);
    assert!(plugin.lookup_engine("A").is_err());
    let (engine, args) = plugin.execute("a", b"{\"x\": 1}").unwrap();
    assert_eq!(engine, &3);
    assert_eq!(to_value(&args)["x"], 1);
    assert!(why(plugin.execute("a", b"{").map(|_| ())).starts_with("execute payload was not JSON: EOF"));
}

#[test]
fn the_first_host_handle_stays() {
    let mut plugin = Chat::new();
    assert_eq!(plugin.host_handle(), None);
    assert!(plugin.set_host_handle(1));
    assert!(!plugin.set_host_handle(2));
    assert_eq!(plugin.host_handle(), Some(&1));
    let mut azure = AzureChat::default();
    azure.register_profile("p", Ok(String::new()), "").unwrap();
    assert!(azure.set_host_handle(7));
    assert_eq!(azure.host_handle(), Some(&7));
    assert_eq!(azure.registered_profile_count(), 1);
}

#[test]
fn an_empty_payload_means_no_arguments() {
    let none = decode_payload(b"").unwrap();
    assert_eq!(to_value(&none), serde_json::Value::Object(serde_json::Map::new()));
    assert_eq!(decode_payload(b" 7 ").unwrap().as_u64(), Some(7));
    assert_eq!(why(accept_arguments(Err("e".to_string()))), "execute payload was not JSON: e");
}

#[test]
fn results_are_printed() {
    let r = plugin::encode_result(Ok(parse_text("{ \"a\" : [1, null] }").unwrap())).unwrap();
    assert_eq!(r.payload, b"{\"a\":[1,null]}");
    assert!(!r.truncated);
    let failed = plugin::encode_result(Err(BackendError::Timeout { timeout_ms: 5 }));
    assert!(matches!(failed, Err(BackendError::Timeout { timeout_ms: 5 })));
    match accept_printed("tts response", Err("e".to_string())) {
        Err(BackendError::Transport { message }) => assert_eq!(message, "serialize tts response: e"),
        other => panic!("{:?}", other),
    }
    for r in [
        embedding_plugin::encode_result(Ok(Json::Bool(true))),
        image_plugin::encode_result(Ok(Json::Bool(true))),
        tts_plugin::encode_result(Ok(Json::Bool(true))),
        stt_plugin::encode_result(Ok(Json::Bool(true))),
    ] {
        assert_eq!(r.unwrap().payload, b"true");
    }
}

#[test]
fn calls_are_counted() {
    let (calls, overall) = plugin::emit_call_metrics("b", "openai", "m", true);
    assert_eq!(calls.name, "mcpg_llm_calls_total");
    assert_eq!(calls.value, 1);
    let label = |n: &str, v: &str| (n.to_string(), v.to_string());
    let three = vec![label("binding", "b"), label("provider", "openai"), label("model", "m")];
    let mut four = three.clone();
    four.push(label("status", "ok"));
    assert_eq!(calls.labels, four);
    assert_eq!(overall.name, "mcpg_llm_call_overall_seconds");
    assert_eq!(overall.labels, three);
    for (counter, name) in [
        (embedding_plugin::emit_call_metrics("b", "p", "m", false), "mcpg_embedding_calls_total"),
        (image_plugin::emit_call_metrics("b", "p", "m", false), "mcpg_image_calls_total"),
        (tts_plugin::emit_call_metrics("b", "p", "m", false), "mcpg_tts_calls_total"),
        (stt_plugin::emit_call_metrics("b", "p", "m", false), "mcpg_stt_calls_total"),
    ] {
        assert_eq!(counter.name, name);
        assert_eq!(counter.labels[3], label("status", "error"));
    }
}

fn tokens(input_tokens: u32, output_tokens: u32) -> StreamItem<&'static str> {
    StreamItem::Usage { input_tokens, output_tokens, cached_input_tokens: 1 }
}

#[test]
fn a_streamed_call_is_reported_once_with_its_tokens() {
    let mut o = StreamObserver::new();
    assert_eq!(o.observe(StreamItem::<&str>::Piece), None);
    assert_eq!(o.observe(tokens(2, 3)), None);
    assert_eq!(o.observe(tokens(5, 7)), None);
    let usage = UsageSnapshot { input_tokens: 7, output_tokens: 10, cached_input_tokens: 2 };
    assert_eq!(o.observe(StreamItem::Done), Some(StreamReport::<&str> { result: Ok(()), usage }));
    assert!(o.terminated);
    assert_eq!(o.observe(StreamItem::Failed("late")), None);
    assert_eq!(o.observe(tokens(1, 1)), None);
    assert_eq!(o.usage, usage);
}

#[test]
fn a_failed_call_is_reported_and_a_dropped_one_is_not() {
    let mut o = StreamObserver::new();
    o.observe(tokens(2, 3));
    let report = o.observe(StreamItem::Failed("why")).unwrap();
    assert_eq!(report.result, Err("why"));
    assert_eq!(report.usage.input_tokens, 2);
    let mut o = StreamObserver::new();
    assert_eq!(o.observe(StreamItem::<u8>::Ended), None);
    assert!(!o.terminated);
}

#[test]
fn items_are_handed_on_up_to_the_end() {
    let items = [StreamItem::Piece, tokens(1, 2), StreamItem::Done, StreamItem::Piece, StreamItem::Failed("e")];
    let mut o = StreamObserver::new();
    let mut given = Vec::new();
    let mut reports = 0;
    for (i, item) in items.into_iter().enumerate() {
        let (chunk, report) = o.relay(item, i);
        given.extend(chunk);
        reports += report.iter().count();
    }
    assert_eq!(given, vec![0, 1, 2]);
    assert_eq!(reports, 1);
    let mut o = StreamObserver::new();
    assert_eq!(o.relay(StreamItem::<u8>::Ended, "x"), (None, None));
    let (chunk, report) = o.relay(StreamItem::Failed(7), "e");
    assert_eq!(chunk, Some("e"));
    assert_eq!(report.unwrap().result, Err(7));
    assert_eq!(o.relay(StreamItem::<u8>::Piece, "x"), (None, None));
}

#[test]
fn sums_of_tokens_stop_at_the_largest_number() {
    let mut o = StreamObserver::new();
    o.usage.input_tokens = u64::MAX - 1;
    o.observe(tokens(5, 0));
    assert_eq!(o.usage.input_tokens, u64::MAX);
    assert_eq!(o.usage.output_tokens, 0);
}

#[test]
fn streams_are_closed_by_their_tokens() {
    let mut r: StreamRegistry<&str> = StreamRegistry::new();
    let a = r.open("a");
    let b = r.open("b");
    assert_eq!((a, b), (1, 2));
    assert_eq!(r.close(0), None);
    assert_eq!(r.close(a), Some("a"));
    assert_eq!(r.close(a), None);
    assert_eq!(r.close(b), Some("b"));
    assert_eq!(r.open("c"), 3);
}

#[test]
fn messages_can_be_read_off_errors() {
    let m = || "m".to_string();
    for e in [
        ProviderError::RateLimited { message: m() },
        ProviderError::AuthFailed { message: m() },
        ProviderError::ContextLimit { message: m() },
        ProviderError::BadRequest { message: m() },
        ProviderError::Server { message: m() },
        ProviderError::Network { message: m() },
        ProviderError::Malformed { message: m() },
    ] {
        assert_eq!(e.message(), "m");
    }
    for e in [
        BackendError::InvalidSpec { message: m() },
        BackendError::Transport { message: m() },
        BackendError::Timeout { timeout_ms: 3 },
    ] {
        assert_eq!(format!("{:?}", clone_backend_error(&e)), format!("{:?}", e));
    }
}
