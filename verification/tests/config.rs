//! Configurations.
use mcpg_plugin_backend_llm_openai::config::{
    ApiKeyRef, ChatExecutionSpec, ExecutionSpec, ResponseFormatMode,
};
use mcpg_plugin_backend_llm_openai::error::ConfigError;
use mcpg_plugin_backend_llm_openai::{
    AzureOpenaiChatSpec, AzureOpenaiEmbeddingSpec, AzureOpenaiImageSpec, AzureOpenaiSttSpec,
    AzureOpenaiTtsSpec, OpenAiChatSpec, OpenAiEmbeddingSpec, OpenAiImageSpec, OpenAiSttSpec,
    OpenAiTtsSpec,
};

fn minimal_chat_exec() -> ChatExecutionSpec {
    ChatExecutionSpec {
        model: "gpt-4o-mini".to_string(),
        connect_timeout_ms: 5_000,
        response_format: ResponseFormatMode::JsonSchema,
        checked: Ok(()),
    }
}

fn exec(model: &str) -> ExecutionSpec {
    ExecutionSpec { model: model.to_string(), connect_timeout_ms: 5_000, checked: Ok(()) }
}

fn refused(model: &str) -> ExecutionSpec {
    ExecutionSpec {
        checked: Err(ConfigError::InvalidSpec("bad".to_string())),
        ..exec(model)
    }
}

fn message(r: Result<(), ConfigError>) -> String {
    match r {
        Ok(()) => panic!("accepted"),
        Err(ConfigError::InvalidSpec(m)) => m,
    }
}

#[test]
fn openai_default_base_url() {
    let s = OpenAiChatSpec {
        base_url: None,
        api_key: ApiKeyRef::new("k"),
        chat: minimal_chat_exec(),
    };
    assert_eq!(s.resolved_base_url(), "https://api.openai.com/v1");
    s.validate().unwrap();
}

#[test]
fn openai_override_base_url() {
    let s = OpenAiChatSpec {
        base_url: Some("https://example.com/v1".to_string()),
        api_key: ApiKeyRef::new("k"),
        chat: minimal_chat_exec(),
    };
    assert_eq!(s.resolved_base_url(), "https://example.com/v1");
    assert_eq!(s.api_key.expose(), "k");
}

#[test]
fn azure_requires_base_url() {
    let s = AzureOpenaiChatSpec {
        base_url: "  ".to_string(),
        api_key: ApiKeyRef::new("k"),
        chat: minimal_chat_exec(),
    };
    assert!(s.validate().is_err());
    assert_eq!(
        message(s.validate()),
        "azure_openai_chat: base_url is required (operator must include the deployment + \
         ?api-version=… in the URL)"
    );

    let s = AzureOpenaiChatSpec {
        base_url: "https://r.openai.azure.com/...".to_string(),
        api_key: ApiKeyRef::new("k"),
        chat: minimal_chat_exec(),
    };
    s.validate().unwrap();
}

#[test]
fn openai_embedding_default_base_url() {
    let s = OpenAiEmbeddingSpec {
        base_url: None,
        api_key: ApiKeyRef::new("k"),
        embedding: exec("text-embedding-3-small"),
    };
    assert_eq!(s.resolved_base_url(), "https://api.openai.com/v1");
    s.validate().unwrap();
}

#[test]
fn azure_openai_embedding_requires_base_url() {
    let s = AzureOpenaiEmbeddingSpec {
        base_url: "  ".to_string(),
        api_key: ApiKeyRef::new("k"),
        embedding: exec("text-embedding-3-small"),
    };
    assert!(s.validate().is_err());

    let s = AzureOpenaiEmbeddingSpec {
        base_url: "https://r.openai.azure.com/...".to_string(),
        api_key: ApiKeyRef::new("k"),
        embedding: exec("text-embedding-3-small"),
    };
    s.validate().unwrap();
}

#[test]
fn every_azure_kind_names_itself() {
    let key = || ApiKeyRef::new("k");
    let url = || "\t\u{a0}\n".to_string();
    let long = " base_url is required (operator must include the deployment + ?api-version=… in the URL)";
    assert_eq!(
        message(AzureOpenaiEmbeddingSpec { base_url: url(), api_key: key(), embedding: exec("m") }.validate()),
        format!("azure_openai_embedding:{}", long)
    );
    assert_eq!(
        message(AzureOpenaiImageSpec { base_url: url(), api_key: key(), image: exec("m") }.validate()),
        format!("azure_openai_image:{}", long)
    );
    assert_eq!(
        message(AzureOpenaiTtsSpec { base_url: url(), api_key: key(), tts: exec("m") }.validate()),
        "azure_openai_tts: base_url is required"
    );
    assert_eq!(
        message(AzureOpenaiSttSpec { base_url: url(), api_key: key(), stt: exec("m") }.validate()),
        "azure_openai_stt: base_url is required"
    );
}

#[test]
fn the_verdict_of_the_host_counts() {
    let key = || ApiKeyRef::new("k");
    let mut chat = minimal_chat_exec();
    chat.checked = Err(ConfigError::InvalidSpec("bad".to_string()));
    let s = OpenAiChatSpec { base_url: None, api_key: key(), chat };
    assert_eq!(message(s.validate()), "bad");
    let s = OpenAiImageSpec { base_url: None, api_key: key(), image: refused("m") };
    assert_eq!(message(s.validate()), "bad");
    assert_eq!(s.resolved_base_url(), OpenAiImageSpec::DEFAULT_BASE_URL);
    let s = OpenAiTtsSpec { base_url: None, api_key: key(), tts: refused("m") };
    assert_eq!(message(s.validate()), "bad");
    assert_eq!(s.resolved_base_url(), OpenAiTtsSpec::DEFAULT_BASE_URL);
    let s = OpenAiSttSpec { base_url: None, api_key: key(), stt: refused("m") };
    assert_eq!(message(s.validate()), "bad");
    assert_eq!(s.resolved_base_url(), OpenAiSttSpec::DEFAULT_BASE_URL);
    let s = AzureOpenaiTtsSpec { base_url: "u".to_string(), api_key: key(), tts: refused("m") };
    assert_eq!(message(s.validate()), "bad");
}
