//! Image generation.
use base64::Engine;
use mcpg_plugin_backend_llm_openai::error::ProviderError;
use mcpg_plugin_backend_llm_openai::image_adapter::{
    accept_fetched, conclude_fetch, conclude_generate, decode_response, encode_request, image_from_base64,
    map_status_error, ImageStep, NormalizedImageRequest, NormalizedImageResponse,
};
use mcpg_plugin_backend_llm_openai::json::{parse_text, to_value, Json};
use mcpg_plugin_backend_llm_openai::upstream::{Exchange, TransportFault};
use mcpg_plugin_backend_llm_openai::{OpenAiImageAdapter, OpenAiVariant};

fn doc(text: &str) -> Json {
    parse_text(text).unwrap()
}

fn request(model: &str) -> NormalizedImageRequest {
    NormalizedImageRequest {
        model: model.to_string(),
        prompt: "a cat".to_string(),
        n: 1,
        size: None,
        quality: None,
        style: None,
        seed: None,
        negative_prompt: None,
        output_format: None,
    }
}

fn complete(step: Result<ImageStep, ProviderError>) -> NormalizedImageResponse {
    match step {
        Ok(ImageStep::Complete(r)) => r,
        other => panic!("{:?}", other),
    }
}

fn adapter(variant: OpenAiVariant, label: &'static str, url: &str) -> OpenAiImageAdapter {
    OpenAiImageAdapter::new(variant, label, url.to_string(), "k".to_string())
        .unwrap_or_else(|e| panic!("{:?}", e))
}

#[test]
fn encode_request_includes_optional_fields() {
    let r = NormalizedImageRequest {
        size: Some("1024x1024".to_string()),
        quality: Some("hd".to_string()),
        style: Some("vivid".to_string()),
        ..request("dall-e-3")
    };
    let body = to_value(&encode_request(&r));
    assert_eq!(body["model"], "dall-e-3");
    assert_eq!(body["prompt"], "a cat");
    assert_eq!(body["n"], 1);
    assert_eq!(body["size"], "1024x1024");
    assert_eq!(body["quality"], "hd");
    assert_eq!(body["style"], "vivid");
    assert_eq!(body["response_format"], "b64_json");
}

#[test]
fn encode_request_omits_optional_fields_when_unset() {
    let body = to_value(&encode_request(&request("dall-e-3")));
    assert!(body.get("size").is_none());
    assert!(body.get("quality").is_none());
    assert!(body.get("style").is_none());
    assert!(body.get("output_format").is_none());
}

#[test]
fn encode_request_passes_output_format_through() {
    let r = NormalizedImageRequest {
        output_format: Some("webp".to_string()),
        ..request("gpt-image-1")
    };
    let body = to_value(&encode_request(&r));
    assert_eq!(body["output_format"], "webp");
}

#[test]
fn seeds_and_negative_prompts_are_not_sent() {
    let r = NormalizedImageRequest {
        seed: Some(7),
        negative_prompt: Some("dogs".to_string()),
        ..request("m")
    };
    let body = to_value(&encode_request(&r));
    assert_eq!(body, to_value(&encode_request(&request("m"))));
    assert_eq!(body["response_format"], "b64_json");
}

#[test]
fn decode_response_parses_b64_json() {
    let payload = b"hello image bytes";
    let b64 = base64::engine::general_purpose::STANDARD.encode(payload);
    let raw = doc(&format!(
        "{{\"created\": 1700000000, \"data\": [\
         {{\"b64_json\": \"{}\", \"revised_prompt\": \"cat sitting on a chair\"}}]}}",
        b64
    ));
    let r = complete(decode_response(&raw, &[]));
    assert_eq!(r.images.len(), 1);
    assert_eq!(r.images[0].bytes, payload);
    assert_eq!(r.images[0].mime_type, "image/png");
    assert_eq!(r.images[0].revised_prompt.as_deref(), Some("cat sitting on a chair"));
}

#[test]
fn decode_response_handles_missing_revised_prompt() {
    let b64 = base64::engine::general_purpose::STANDARD.encode(b"x");
    let raw = doc(&format!("{{\"data\": [{{\"b64_json\": \"{}\"}}]}}", b64));
    let r = complete(decode_response(&raw, &[]));
    assert!(r.images[0].revised_prompt.is_none());
}

#[test]
fn decode_response_rejects_entry_without_bytes_or_url() {
    let err = decode_response(&doc("{\"data\": [{}]}"), &[]).unwrap_err();
    assert!(matches!(err, ProviderError::Malformed { .. }));
    assert_eq!(err.message(), "image entry has neither `b64_json` nor `url`");
}

#[test]
fn decode_response_rejects_missing_data_field() {
    let err = decode_response(&doc("{}"), &[]).unwrap_err();
    assert!(matches!(err, ProviderError::Malformed { .. }));
    assert_eq!(err.message(), "image response missing `data`");
}

#[test]
fn bad_base64_is_malformed() {
    let err = decode_response(&doc("{\"data\": [{\"b64_json\": \"*\"}]}"), &[]).unwrap_err();
    assert!(matches!(err, ProviderError::Malformed { .. }));
    assert!(err.message().starts_with("decode b64_json: Invalid"));
    let err = image_from_base64(&doc("{}"), Err("e".to_string())).unwrap_err();
    assert_eq!(err.message(), "decode b64_json: e");
    let image = image_from_base64(&doc("{\"mime_type\": \"image/webp\"}"), Ok(vec![1])).unwrap();
    assert_eq!(image.mime_type, "image/webp");
    assert_eq!(image.bytes, vec![1]);
}

#[test]
fn images_behind_urls_are_asked_for_in_turn() {
    let raw = doc(
        "{\"data\": [{\"url\": \"https://a\"}, {\"b64_json\": \"QQ==\"}, {\"url\": \"https://b\"}]}",
    );
    let mut bodies: Vec<Vec<u8>> = vec![];
    for (url, body) in [("https://a", vec![1u8]), ("https://b", vec![2u8])] {
        match decode_response(&raw, &bodies) {
            Ok(ImageStep::Fetch(asked)) => assert_eq!(asked, url),
            other => panic!("{:?}", other),
        }
        bodies.push(body);
    }
    let r = complete(decode_response(&raw, &bodies));
    let bytes: Vec<Vec<u8>> = r.images.into_iter().map(|i| i.bytes).collect();
    assert_eq!(bytes, vec![vec![1], b"A".to_vec(), vec![2]]);
}

#[test]
fn a_fetch_comes_before_a_later_error() {
    let raw = doc("{\"data\": [{\"url\": \"https://a\"}, {}]}");
    assert!(matches!(decode_response(&raw, &[]), Ok(ImageStep::Fetch(_))));
    assert!(decode_response(&raw, &[vec![1]]).is_err());
}

#[test]
fn fetches_are_concluded() {
    let fault = TransportFault {
        timeout: false,
        connect: true,
        request: false,
        body: false,
        decode: false,
        detail: "d".to_string(),
    };
    assert_eq!(conclude_fetch(Exchange::SendFailed(fault)).unwrap_err().message(), "fetch image url: d");
    assert_eq!(
        conclude_fetch(Exchange::ReadFailed("d".to_string())).unwrap_err().message(),
        "read image url body: d"
    );
    let gone = conclude_fetch(Exchange::Replied { status: 404, body: vec![] }).unwrap_err();
    assert!(matches!(gone, ProviderError::Server { .. }));
    assert_eq!(gone.message(), "upstream image fetch returned 404 Not Found");
    assert_eq!(conclude_fetch(Exchange::Replied { status: 200, body: vec![7] }).unwrap(), vec![7]);
    let gone = accept_fetched(Exchange::Replied { status: 500, body: vec![] }, "t").unwrap_err();
    assert_eq!(gone.message(), "upstream image fetch returned t");
}

#[test]
fn image_adapter_map_status_429_rate_limited() {
    let e = map_status_error(429, b"slow down");
    assert!(matches!(e, ProviderError::RateLimited { .. }));
}

#[test]
fn image_adapter_map_status_401_auth_failed() {
    let e = map_status_error(401, b"bad key");
    assert!(matches!(e, ProviderError::AuthFailed { .. }));
}

#[test]
fn endpoint_url_appends_images_generations_for_openai() {
    let a = adapter(OpenAiVariant::OpenAi, "openai", "https://api.openai.com/v1");
    assert_eq!(a.endpoint_url(), "https://api.openai.com/v1/images/generations");
}

#[test]
fn image_adapter_endpoint_url_keeps_azure_url_as_is() {
    let url = "https://r.openai.azure.com/openai/deployments/dalle/images/generations?api-version=2024-02-01";
    let a = adapter(OpenAiVariant::Azure, "azure-openai", url);
    assert_eq!(
        a.endpoint_url(),
        "https://r.openai.azure.com/openai/deployments/dalle/images/generations?api-version=2024-02-01"
    );
    let post = a.generate(&request("m")).unwrap_or_else(|e| panic!("{:?}", e));
    assert_eq!(post.url, url);
    assert_eq!(post.headers[1], ("api-key".to_string(), "k".to_string()));
}

#[test]
fn image_exchanges_are_concluded() {
    let ok = conclude_generate(Exchange::Replied { status: 200, body: b"{\"data\": []}".to_vec() });
    assert!(complete(decode_response(&ok.unwrap(), &[])).images.is_empty());
    let bad = conclude_generate(Exchange::Replied { status: 400, body: b"token".to_vec() });
    assert!(matches!(bad.unwrap_err(), ProviderError::BadRequest { .. }));
}
