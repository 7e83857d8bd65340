//! Embeddings.
use mcpg_plugin_backend_llm_openai::adapter::map_status_error as map_chat_error;
use mcpg_plugin_backend_llm_openai::embedding_adapter::{
    classify_embedding_status, conclude_embed, decode_response, encode_request, map_status_error,
    NormalizedEmbeddingRequest, NormalizedEmbeddingResponse,
};
use mcpg_plugin_backend_llm_openai::error::ProviderError;
use mcpg_plugin_backend_llm_openai::json::{parse_text, to_value, Json};
use mcpg_plugin_backend_llm_openai::upstream::Exchange;
use mcpg_plugin_backend_llm_openai::{OpenAiEmbeddingAdapter, OpenAiVariant, OPENAI_MAX_INPUTS};

fn doc(text: &str) -> Json {
    parse_text(text).unwrap()
}

fn component(r: &NormalizedEmbeddingResponse, i: usize, j: usize) -> f32 {
    to_value(&r.embeddings[i][j]).as_f64().unwrap() as f32
}

fn adapter(variant: OpenAiVariant, label: &'static str, url: &str) -> OpenAiEmbeddingAdapter {
    OpenAiEmbeddingAdapter::new(variant, label, url.to_string(), "k".to_string())
        .unwrap_or_else(|e| panic!("{:?}", e))
}

#[test]
fn encode_request_includes_dimensions_when_set() {
    let r = NormalizedEmbeddingRequest {
        model: "text-embedding-3-small".to_string(),
        inputs: vec!["hello".to_string(), "world".to_string()],
        dimensions: Some(512),
    };
    let body = to_value(&encode_request(&r));
    assert_eq!(body["model"], "text-embedding-3-small");
    assert_eq!(body["input"][0], "hello");
    assert_eq!(body["input"][1], "world");
    assert_eq!(body["dimensions"], 512);
}

#[test]
fn encode_request_omits_dimensions_when_unset() {
    let r = NormalizedEmbeddingRequest {
        model: "text-embedding-3-small".to_string(),
        inputs: vec!["hello".to_string()],
        dimensions: None,
    };
    let body = to_value(&encode_request(&r));
    assert!(body.get("dimensions").is_none());
}

#[test]
fn decode_response_parses_well_formed_data() {
    let raw = doc(
        "{\"object\": \"list\", \"data\": [\
         {\"object\": \"embedding\", \"index\": 0, \"embedding\": [0.1, 0.2, 0.3]}, \
         {\"object\": \"embedding\", \"index\": 1, \"embedding\": [0.4, 0.5, 0.6]}], \
         \"model\": \"text-embedding-3-small\", \
         \"usage\": {\"prompt_tokens\": 7, \"total_tokens\": 7}}",
    );
    let r = decode_response(&raw).unwrap();
    assert_eq!(r.dimensions, 3);
    assert_eq!(r.embeddings.len(), 2);
    assert_eq!(component(&r, 0, 0), 0.1_f32);
    assert_eq!(component(&r, 1, 2), 0.6_f32);
    assert_eq!(r.usage.unwrap().input_tokens, 7);
}

#[test]
fn decode_response_sorts_by_index() {
    let raw = doc(
        "{\"data\": [{\"index\": 1, \"embedding\": [9.0]}, {\"index\": 0, \"embedding\": [1.0]}]}",
    );
    let r = decode_response(&raw).unwrap();
    assert_eq!(component(&r, 0, 0), 1.0_f32);
    assert_eq!(component(&r, 1, 0), 9.0_f32);
}

#[test]
fn decode_response_rejects_inconsistent_dimensions() {
    let raw = doc(
        "{\"data\": [{\"index\": 0, \"embedding\": [0.1, 0.2]}, \
         {\"index\": 1, \"embedding\": [0.3, 0.4, 0.5]}]}",
    );
    let err = decode_response(&raw).unwrap_err();
    assert!(matches!(err, ProviderError::Malformed { .. }));
    assert_eq!(err.message(), "embeddings have inconsistent dimensions");
}

#[test]
fn decode_response_handles_missing_usage() {
    let raw = doc("{\"data\": [{\"index\": 0, \"embedding\": [0.1]}]}");
    let r = decode_response(&raw).unwrap();
    assert!(r.usage.is_none());
}

#[test]
fn malformed_embeddings_are_told_apart() {
    for (text, message) in [
        ("{}", "response missing `data`"),
        ("{\"data\": [{}]}", "embedding entry missing `index`"),
        ("{\"data\": [{\"index\": -1, \"embedding\": []}]}", "embedding entry missing `index`"),
        ("{\"data\": [{\"index\": 0}]}", "embedding entry missing `embedding`"),
        ("{\"data\": [{\"index\": 0, \"embedding\": [1, \"x\"]}]}", "embedding contains non-number"),
    ] {
        let err = decode_response(&doc(text)).unwrap_err();
        assert!(matches!(err, ProviderError::Malformed { .. }));
        assert_eq!(err.message(), message);
    }
}

#[test]
fn equal_indexes_keep_their_order_and_empty_entries_put_no_demand() {
    let r = decode_response(&doc(
        "{\"data\": [{\"index\": 5, \"embedding\": []}, {\"index\": 3, \"embedding\": [1, 2]}, \
         {\"index\": 3, \"embedding\": [3, -4.5]}, {\"index\": 0, \"embedding\": [5, 6]}], \
         \"usage\": {\"prompt_tokens\": 4294967296}}",
    ))
    .unwrap();
    assert_eq!(r.dimensions, 2);
    assert_eq!(r.embeddings.len(), 4);
    assert_eq!(component(&r, 0, 0), 5.0);
    assert_eq!(component(&r, 1, 0), 1.0);
    assert_eq!(component(&r, 2, 1), -4.5);
    assert!(r.embeddings[3].is_empty());
    assert_eq!(r.usage.unwrap().input_tokens, 0);
}

#[test]
fn the_order_of_entries_does_not_matter() {
    let a = "{\"index\": 0, \"embedding\": [1]}";
    let b = "{\"index\": 1, \"embedding\": [2]}";
    let c = "{\"index\": 2, \"embedding\": [3]}";
    for order in [[a, b, c], [c, b, a], [b, c, a], [c, a, b]] {
        let r = decode_response(&doc(&format!("{{\"data\": [{}]}}", order.join(",")))).unwrap();
        let seen: Vec<f32> = (0..3).map(|i| component(&r, i, 0)).collect();
        assert_eq!(seen, vec![1.0, 2.0, 3.0]);
    }
}

#[test]
fn embedding_adapter_map_status_429_rate_limited() {
    let e = map_status_error(429, b"slow down");
    assert!(matches!(e, ProviderError::RateLimited { .. }));
}

#[test]
fn embedding_adapter_map_status_401_auth_failed() {
    let e = map_status_error(401, b"bad key");
    assert!(matches!(e, ProviderError::AuthFailed { .. }));
}

#[test]
fn map_status_400_token_overflow_is_context_limit() {
    let e = map_status_error(400, b"input exceeds maximum token limit");
    assert!(matches!(e, ProviderError::ContextLimit { .. }));
    assert_eq!(e.message(), "input exceeds maximum token limit");
    let e = map_status_error(400, b"too many TOKENS");
    assert!(matches!(e, ProviderError::BadRequest { .. }));
    assert_eq!(e.message(), "too many TOKENS");
    assert!(matches!(map_status_error(400, b"no"), ProviderError::BadRequest { .. }));
    assert!(matches!(map_status_error(413, b"token"), ProviderError::ContextLimit { .. }));
    assert!(matches!(map_status_error(404, b"token"), ProviderError::Server { .. }));
    assert!(matches!(map_status_error(500, b"token"), ProviderError::Server { .. }));
    let e = map_status_error(304, b"x");
    assert!(matches!(e, ProviderError::Server { .. }));
    assert_eq!(e.message(), "x");
    let e = classify_embedding_status(400, "maximum context".to_string());
    assert!(matches!(e, ProviderError::ContextLimit { .. }));
}

#[test]
fn statuses_mean_the_same_as_for_chat() {
    let long = "x".repeat(600);
    let late = format!("{} token limit", long);
    for body in ["", "token", "Maximum Context", "context_length_exceeded", "token limit", &long, &late] {
        for status in [100, 302, 400, 401, 403, 404, 413, 422, 429, 500, 503, 599, 700] {
            let here = map_status_error(status, body.as_bytes());
            let chat = map_chat_error(status, body.as_bytes());
            assert_eq!(std::mem::discriminant(&here), std::mem::discriminant(&chat));
            assert_eq!(here.message(), body);
        }
    }
}

#[test]
fn endpoint_url_appends_embeddings_for_openai() {
    let a = adapter(OpenAiVariant::OpenAi, "openai", "https://api.openai.com/v1");
    assert_eq!(a.endpoint_url(), "https://api.openai.com/v1/embeddings");
    assert_eq!(a.max_batch_size(), OPENAI_MAX_INPUTS);
    assert_eq!(OPENAI_MAX_INPUTS, 2048);
    assert_eq!(a.label(), "openai");
}

#[test]
fn embedding_adapter_endpoint_url_keeps_azure_url_as_is() {
    let a = adapter(
        OpenAiVariant::Azure,
        "azure-openai",
        "https://r.openai.azure.com/openai/deployments/emb/embeddings?api-version=2024-08-06",
    );
    assert_eq!(
        a.endpoint_url(),
        "https://r.openai.azure.com/openai/deployments/emb/embeddings?api-version=2024-08-06"
    );
}

#[test]
fn embedding_exchanges_are_concluded() {
    let ok = conclude_embed(Exchange::Replied {
        status: 200,
        body: b"{\"data\": [{\"index\": 0, \"embedding\": [1]}]}".to_vec(),
    });
    assert_eq!(ok.unwrap().dimensions, 1);
    let long = conclude_embed(Exchange::Replied { status: 413, body: b"Token".to_vec() });
    assert!(matches!(long.unwrap_err(), ProviderError::ContextLimit { .. }));
    let broken = conclude_embed(Exchange::ReadFailed("x".to_string()));
    assert_eq!(broken.unwrap_err().message(), "read body: x");
    let post = adapter(OpenAiVariant::OpenAi, "openai", "https://e").embed(
        &NormalizedEmbeddingRequest { model: "m".to_string(), inputs: vec![], dimensions: None },
    );
    let post = post.unwrap_or_else(|e| panic!("{:?}", e));
    assert_eq!(post.url, "https://e/embeddings");
    assert_eq!(post.headers.len(), 2);
    assert_eq!(to_value(&post.body)["model"], "m");
}
