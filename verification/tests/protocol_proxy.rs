use codex_plus_core::protocol_proxy::{
    audio_transcriptions_url, chat_completions_url, is_audio_transcriptions_proxy_path,
    is_chat_completions_proxy_path, is_models_proxy_path, is_responses_compact_proxy_path,
    is_responses_proxy_path, models_url, responses_compact_url, upstream_header_timeout,
    upstream_stream_header_timeout,
};
use codex_plus_core::time::Duration;

#[test]
fn proxy_route_matchers_accept_ccswitch_codex_aliases() {
    for path in [
        "/responses",
        "/v1/responses",
        "/v1/v1/responses",
        "/codex/v1/responses",
        "/responses/compact",
        "/v1/responses/compact",
        "/v1/v1/responses/compact",
        "/codex/v1/responses/compact",
    ] {
        assert!(is_responses_proxy_path(path), "{path}");
    }
    assert!(is_responses_compact_proxy_path("/v1/responses/compact"));
    assert!(!is_responses_compact_proxy_path("/v1/responses"));

    for path in [
        "/chat/completions",
        "/v1/chat/completions",
        "/v1/v1/chat/completions",
        "/codex/v1/chat/completions",
    ] {
        assert!(is_chat_completions_proxy_path(path), "{path}");
    }

    for path in ["/models", "/v1/models", "/v1/v1/models", "/codex/v1/models"] {
        assert!(is_models_proxy_path(path), "{path}");
    }

    for path in [
        "/audio/transcriptions",
        "/v1/audio/transcriptions",
        "/v1/v1/audio/transcriptions",
        "/codex/v1/audio/transcriptions",
    ] {
        assert!(is_audio_transcriptions_proxy_path(path), "{path}");
    }
}

#[test]
fn responses_compact_url_preserves_compact_endpoint() {
    assert_eq!(
        responses_compact_url("https://api.example.test/v1"),
        "https://api.example.test/v1/responses/compact"
    );
    assert_eq!(
        responses_compact_url("https://api.example.test/v1/responses"),
        "https://api.example.test/v1/responses/compact"
    );
    assert_eq!(
        responses_compact_url("https://api.example.test/v1/responses/compact"),
        "https://api.example.test/v1/responses/compact"
    );
}

#[test]
fn chat_completions_url_normalizes_common_base_urls() {
    assert_eq!(
        chat_completions_url("https://api.example.test"),
        "https://api.example.test/v1/chat/completions"
    );
    assert_eq!(
        chat_completions_url("https://api.example.test/v1"),
        "https://api.example.test/v1/chat/completions"
    );
    assert_eq!(
        chat_completions_url("https://api.example.test/openai"),
        "https://api.example.test/openai/chat/completions"
    );
    assert_eq!(
        chat_completions_url("https://api.example.test/v1/chat/completions"),
        "https://api.example.test/v1/chat/completions"
    );
    assert_eq!(
        chat_completions_url("https://api.example.test/v2"),
        "https://api.example.test/v2/chat/completions"
    );
    assert_eq!(
        chat_completions_url("https://api.example.test/v1beta"),
        "https://api.example.test/v1beta/chat/completions"
    );
    assert_eq!(
        chat_completions_url("https://api.example.test/openai#"),
        "https://api.example.test/openai/chat/completions"
    );
}

#[test]
fn audio_transcriptions_url_normalizes_common_base_urls() {
    assert_eq!(
        audio_transcriptions_url("https://api.example.test"),
        "https://api.example.test/v1/audio/transcriptions"
    );
    assert_eq!(
        audio_transcriptions_url("https://api.example.test/v1"),
        "https://api.example.test/v1/audio/transcriptions"
    );
    assert_eq!(
        audio_transcriptions_url("https://api.example.test/openai"),
        "https://api.example.test/openai/audio/transcriptions"
    );
    assert_eq!(
        audio_transcriptions_url("https://api.example.test/v1/audio/transcriptions"),
        "https://api.example.test/v1/audio/transcriptions"
    );
    assert_eq!(
        audio_transcriptions_url("https://api.example.test/openai#"),
        "https://api.example.test/openai/audio/transcriptions"
    );
}

#[test]
fn models_url_normalizes_common_base_urls() {
    assert_eq!(
        models_url("https://api.example.test"),
        "https://api.example.test/v1/models"
    );
    assert_eq!(
        models_url("https://api.example.test/v1"),
        "https://api.example.test/v1/models"
    );
    assert_eq!(
        models_url("https://api.example.test/v1/chat/completions"),
        "https://api.example.test/v1/models"
    );
    assert_eq!(
        models_url("https://api.example.test/models"),
        "https://api.example.test/models"
    );
    assert_eq!(
        models_url("https://api.example.test/v2"),
        "https://api.example.test/v2/models"
    );
    assert_eq!(
        models_url("https://api.example.test/v1beta"),
        "https://api.example.test/v1beta/models"
    );
    assert_eq!(
        models_url("https://api.example.test/openai#"),
        "https://api.example.test/openai/models"
    );
}

#[test]
fn models_proxy_path_matches_v1_models() {
    assert!(is_models_proxy_path("/models"));
    assert!(is_models_proxy_path("/v1/models"));
    assert!(is_models_proxy_path("/v1/models?limit=10"));
    assert!(!is_models_proxy_path("/v1/responses"));
}

#[test]
fn upstream_header_timeout_is_bounded_for_hung_providers() {
    assert!(upstream_header_timeout() >= Duration::from_secs(30));
    assert!(upstream_header_timeout() <= Duration::from_secs(60));
    assert!(upstream_stream_header_timeout() >= Duration::from_secs(120));
}

#[test]
fn addresses_lose_space_and_slashes() {
    assert_eq!(
        chat_completions_url(" https://api.example.test/v1/ "),
        "https://api.example.test/v1/chat/completions"
    );
    assert_eq!(
        responses_compact_url("http://127.0.0.1:8080"),
        "http://127.0.0.1:8080/v1/responses/compact"
    );
    assert_eq!(models_url("localhost"), "localhost/v1/models");
}

#[test]
fn other_paths_are_not_served() {
    assert!(!is_responses_proxy_path("/v2/responses"));
    assert!(!is_chat_completions_proxy_path("/chat/completions/"));
    assert!(!is_audio_transcriptions_proxy_path(""));
}
