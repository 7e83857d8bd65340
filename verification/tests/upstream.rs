//! Addresses, headers and statuses.
use mcpg_plugin_backend_llm_openai::error::ProviderError;
use mcpg_plugin_backend_llm_openai::upstream::{
    accept_body, classify_status, is_success, map_plain_status, take_json, Exchange, TransportFault, Upstream,
};
use mcpg_plugin_backend_llm_openai::OpenAiVariant;

fn upstream(variant: OpenAiVariant, url: &str, key: &str) -> Upstream {
    Upstream::new(variant, "l", url.to_string(), key.to_string())
        .unwrap_or_else(|e| panic!("{:?}", e))
}

#[test]
fn an_empty_base_url_is_refused() {
    for variant in [OpenAiVariant::OpenAi, OpenAiVariant::Azure, OpenAiVariant::Compatible] {
        match Upstream::new(variant, "l", String::new(), "k".to_string()) {
            Ok(_) => panic!("accepted"),
            Err(e) => {
                assert!(matches!(e, ProviderError::BadRequest { .. }));
                assert_eq!(e.message(), "base_url is empty");
            }
        }
    }
}

#[test]
fn azure_urls_are_kept_verbatim() {
    let url = "https://r.example/x?api-version=1//";
    let u = upstream(OpenAiVariant::Azure, url, "k");
    assert_eq!(u.endpoint_url("/chat/completions"), url);
    assert_eq!(u.base_url(), url);
    assert_eq!(u.variant(), OpenAiVariant::Azure);
}

#[test]
fn slashes_at_the_end_of_other_urls_do_not_matter() {
    for url in ["https://e/v1", "https://e/v1/", "https://e/v1///"] {
        let u = upstream(OpenAiVariant::Compatible, url, "");
        assert_eq!(u.endpoint_url("/embeddings"), "https://e/v1/embeddings");
    }
}

#[test]
fn the_key_goes_into_one_header() {
    let azure = upstream(OpenAiVariant::Azure, "u", "k").form_headers().unwrap();
    assert_eq!(azure, vec![("api-key".to_string(), "k".to_string())]);
    let open = upstream(OpenAiVariant::OpenAi, "u", "k").form_headers().unwrap();
    assert_eq!(open, vec![("authorization".to_string(), "Bearer k".to_string())]);
    let none = upstream(OpenAiVariant::Compatible, "u", "").json_headers().unwrap();
    assert_eq!(none, vec![("content-type".to_string(), "application/json".to_string())]);
    let empty = upstream(OpenAiVariant::Azure, "u", "").form_headers().unwrap();
    assert_eq!(empty, vec![("api-key".to_string(), String::new())]);
}

#[test]
fn keys_that_no_header_can_hold_are_refused() {
    for key in ["a\nb", "a\u{7f}", "\u{0}"] {
        for variant in [OpenAiVariant::OpenAi, OpenAiVariant::Azure] {
            let e = upstream(variant, "u", key).json_headers().unwrap_err();
            assert!(matches!(e, ProviderError::BadRequest { .. }));
            assert_eq!(
                e.message(),
                "api_key contains characters not allowed in HTTP headers"
            );
        }
    }
    assert!(upstream(OpenAiVariant::Azure, "u", "tab\tand é").json_headers().is_ok());
}

#[test]
fn statuses_are_classified() {
    assert!(is_success(200) && is_success(299) && !is_success(199) && !is_success(300));
    assert!(matches!(map_plain_status(401, b"b"), ProviderError::AuthFailed { .. }));
    assert!(matches!(map_plain_status(403, b"b"), ProviderError::AuthFailed { .. }));
    assert!(matches!(map_plain_status(429, b"b"), ProviderError::RateLimited { .. }));
    assert!(matches!(map_plain_status(404, b"b"), ProviderError::BadRequest { .. }));
    assert!(matches!(map_plain_status(502, b"b"), ProviderError::Server { .. }));
    let odd = map_plain_status(302, b"b");
    assert!(matches!(odd, ProviderError::Network { .. }));
    assert_eq!(odd.message(), "unexpected status 302 Found: b");
    assert_eq!(
        map_plain_status(700, b"").message(),
        "unexpected status 700 <unknown status code>: "
    );
    assert_eq!(classify_status(100, "t", "x".to_string()).message(), "unexpected status t: x");
}

#[test]
fn statuses_are_worth_a_retry_or_not() {
    for status in [429, 500, 599, 302] {
        assert!(map_plain_status(status, b"").is_retryable());
    }
    for status in [400, 401, 403, 404, 413, 499] {
        assert!(!map_plain_status(status, b"").is_retryable());
    }
}

#[test]
fn documents_are_taken_out_of_exchanges() {
    let sent = TransportFault {
        timeout: true,
        connect: false,
        request: false,
        body: false,
        decode: false,
        detail: "d".to_string(),
    };
    assert_eq!(take_json(Exchange::SendFailed(sent)).unwrap_err().message(), "send: d");
    assert_eq!(
        take_json(Exchange::ReadFailed("d".to_string())).unwrap_err().message(),
        "read body: d"
    );
    let bad = take_json(Exchange::Replied { status: 200, body: b"{".to_vec() }).unwrap_err();
    assert!(bad.message().starts_with("parse response json: EOF"));
    assert_eq!(accept_body(Err("e".to_string())).unwrap_err().message(), "parse response json: e");
    let ok = take_json(Exchange::Replied { status: 204, body: b"[7]".to_vec() }).unwrap();
    assert_eq!(ok.as_array().unwrap()[0].as_u64(), Some(7));
}
