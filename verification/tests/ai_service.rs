use douyin_creator_tools::text::char_is_whitespace;
use douyin_creator_tools::ai::service::{
    analysis_prompt, chat_ping_available, extract_json, first_choice_content, http_status_error,
    models_probe, AiError, AiProviderType, AiService, CustomApiProvider, CustomApiProviderConfig,
    ModelsProbe, ProviderRoute, ANALYSIS_PROMPT,
};

fn custom_config(base_url: &str) -> CustomApiProviderConfig {
    CustomApiProviderConfig {
        id: "silicon-flow".to_string(),
        name: "Silicon Flow".to_string(),
        base_url: base_url.to_string(),
        model: "Qwen/Qwen3-235B-A22B".to_string(),
        api_key: Some("sk-test".to_string()),
    }
}

#[test]
fn custom_provider_appends_chat_completions_to_base_url() {
    let provider = CustomApiProvider::new(custom_config("https://api.siliconflow.cn/v1"));

    assert_eq!(
        provider.chat_completions_url(),
        "https://api.siliconflow.cn/v1/chat/completions"
    );
}

#[test]
fn custom_provider_keeps_full_chat_completions_url() {
    let provider = CustomApiProvider::new(custom_config(
        "https://gateway.example.com/openai/v1/chat/completions",
    ));

    assert_eq!(
        provider.chat_completions_url(),
        "https://gateway.example.com/openai/v1/chat/completions"
    );
}

#[test]
fn ai_service_round_trips_selected_custom_provider_key() {
    let mut service = AiService::default();
    service.set_custom_api_providers(vec![custom_config("https://api.siliconflow.cn/v1")]);
    service.set_provider_from_key("custom:silicon-flow".to_string());

    assert_eq!(service.provider_key(), "custom:silicon-flow");
}

#[test]
fn custom_provider_urls_trim_spaces_and_slashes() {
    let provider = CustomApiProvider::new(custom_config("  https://api.example.com/v1//  "));
    assert_eq!(provider.chat_completions_url(), "https://api.example.com/v1/chat/completions");
    assert_eq!(provider.models_url(), "https://api.example.com/v1/models");
    let full = CustomApiProvider::new(custom_config("https://gw.example.com/v1/chat/completions/"));
    assert_eq!(full.models_url(), "https://gw.example.com/v1/models");
}

#[test]
fn custom_provider_authorization_uses_trimmed_key() {
    let mut config = custom_config("https://x");
    config.api_key = Some("  sk-1  ".to_string());
    assert_eq!(CustomApiProvider::new(config.clone()).authorization(), Some("Bearer sk-1".to_string()));
    config.api_key = Some("   ".to_string());
    assert_eq!(CustomApiProvider::new(config.clone()).authorization(), None);
    config.api_key = None;
    assert_eq!(CustomApiProvider::new(config).authorization(), None);
}

#[test]
fn provider_keys_round_trip_for_builtin_providers() {
    for key in ["doubao", "openai", "deepseek", "lmstudio"] {
        let mut service = AiService::new();
        service.set_provider_from_key(key.to_string());
        assert_eq!(service.provider_key(), key);
    }
}

#[test]
fn unknown_or_bare_custom_key_selects_expected_provider() {
    let mut service = AiService::new();
    service.set_provider(AiProviderType::Doubao);
    service.set_provider_from_key("something-else".to_string());
    assert_eq!(service.provider_type, AiProviderType::LmStudio);
    service.set_provider_from_key("custom".to_string());
    assert_eq!(service.provider_type, AiProviderType::Custom);
    assert_eq!(service.provider_key(), "custom");
}

#[test]
fn default_service_routes_to_local_lm_studio() {
    let service = AiService::new();
    assert_eq!(service.provider_type, AiProviderType::LmStudio);
    assert_eq!(
        service.provider_route(),
        Ok(ProviderRoute::LmStudio { base_url: "http://localhost:1234".to_string() })
    );
}

#[test]
fn missing_keys_and_custom_configs_are_reported() {
    let mut service = AiService::new();
    service.set_provider(AiProviderType::OpenAi);
    assert_eq!(service.provider_route(), Err(AiError::InvalidApiKey));
    service.set_openai_key("sk-o".to_string());
    assert_eq!(service.provider_route(), Ok(ProviderRoute::OpenAi { api_key: "sk-o".to_string() }));

    service.set_provider(AiProviderType::Custom);
    assert_eq!(
        service.provider_route(),
        Err(AiError::ServiceUnavailable("自定义 API 未配置".to_string()))
    );
    service.set_custom_api_providers(vec![custom_config("https://a")]);
    assert_eq!(
        service.provider_route(),
        Ok(ProviderRoute::Custom { config: custom_config("https://a") })
    );
    service.set_provider_from_key("custom:missing".to_string());
    assert_eq!(
        service.provider_route(),
        Err(AiError::ServiceUnavailable("自定义 API 未配置或已删除".to_string()))
    );
}

#[test]
fn setters_store_keys_and_url() {
    let mut service = AiService::new();
    service.set_doubao_key("d".to_string());
    service.set_deepseek_key("s".to_string());
    service.set_lm_studio_url("http://127.0.0.1:9999".to_string());
    assert_eq!(service.doubao_api_key, Some("d".to_string()));
    assert_eq!(service.deepseek_api_key, Some("s".to_string()));
    assert_eq!(service.lm_studio_url, "http://127.0.0.1:9999");
    service.set_provider(AiProviderType::DeepSeek);
    assert_eq!(service.provider_route(), Ok(ProviderRoute::DeepSeek { api_key: "s".to_string() }));
    service.set_provider(AiProviderType::Doubao);
    assert_eq!(service.provider_route(), Ok(ProviderRoute::Doubao { api_key: "d".to_string() }));
}

#[test]
fn extracts_outermost_json_block() {
    assert_eq!(extract_json("前缀 {\"a\": {\"b\": 1}} 后缀"), "{\"a\": {\"b\": 1}}");
    assert_eq!(extract_json("no json here"), "no json here");
    assert_eq!(extract_json("only { open"), "only { open");
    assert_eq!(extract_json("}{"), "");
}

#[test]
fn analysis_prompt_appends_content_and_context() {
    let prompt = analysis_prompt("文案", "知识");
    assert!(prompt.starts_with(ANALYSIS_PROMPT));
    assert!(prompt.ends_with("文案\n\n参考知识：\n知识"));
}

#[test]
fn health_probe_decisions() {
    assert_eq!(models_probe(200), ModelsProbe::Available);
    assert_eq!(models_probe(204), ModelsProbe::Available);
    assert_eq!(models_probe(401), ModelsProbe::Unauthorized);
    assert_eq!(models_probe(404), ModelsProbe::TryChat);
    assert!(chat_ping_available(200, 1));
    assert!(!chat_ping_available(200, 0));
    assert!(!chat_ping_available(500, 1));
}

#[test]
fn status_errors_and_first_choice() {
    assert_eq!(http_status_error(401, "401 Unauthorized", "x", true), AiError::InvalidApiKey);
    assert_eq!(
        http_status_error(401, "401 Unauthorized", "x", false),
        AiError::ApiCallFailed("状态码: 401 Unauthorized, 响应: x".to_string())
    );
    assert_eq!(
        first_choice_content(vec!["pong".to_string(), "b".to_string()], "空响应"),
        Ok("pong".to_string())
    );
    assert_eq!(
        first_choice_content(Vec::new(), "空响应"),
        Err(AiError::ParseError("空响应".to_string()))
    );
}

#[test]
fn error_messages_name_the_failure() {
    assert_eq!(AiError::InvalidApiKey.message(), "API Key 无效");
    assert_eq!(AiError::ApiCallFailed("x".to_string()).message(), "API 调用失败: x");
    assert_eq!(AiError::ServiceUnavailable("y".to_string()).message(), "服务不可用: y");
    assert_eq!(AiError::ParseError("z".to_string()).message(), "响应解析失败: z");
    assert_eq!(AiError::NetworkError("w".to_string()).message(), "网络错误: w");
}

use douyin_creator_tools::ai::service::{
    analysis_from_json, analysis_messages, parse_analysis_result, DeepSeekProvider, DoubaoProvider,
    LmStudioProvider, OpenAiProvider,
};
use douyin_creator_tools::ai::json::JsonValue;
use douyin_creator_tools::ai::service::{chat_outcome, ChatReply};

#[test]
fn parses_analysis_reply_with_surrounding_text() {
    let reply = "分析如下：\n{\"hook\": {\"text\": \"你是不是\", \"technique\": \"悬念\"}, \"buildup\": [{\"text\": \"铺垫\", \"purpose\": \"引入\"}, {\"purpose\": \"无文本\"}, {\"text\": \"第二段\"}], \"climax\": null, \"ending\": {\"text\": \"关注我\", \"call_to_action\": \"关注\"}}\n以上。";
    let result = parse_analysis_result(reply).unwrap();
    let hook = result.hook.unwrap();
    assert_eq!(hook.text, "你是不是");
    assert_eq!(hook.technique, "悬念");
    assert_eq!(hook.effectiveness, "");
    assert_eq!(result.buildup.len(), 2);
    assert_eq!(result.buildup[0].text, "铺垫");
    assert_eq!(result.buildup[0].purpose, "引入");
    assert_eq!(result.buildup[1].text, "第二段");
    assert_eq!(result.buildup[1].purpose, "");
    assert!(result.climax.is_none());
    assert_eq!(result.ending.unwrap().call_to_action, "关注");
    assert!(result.references.is_empty());
}

#[test]
fn unparsable_reply_is_a_parse_error() {
    match parse_analysis_result("no json at all") {
        Err(AiError::ParseError(message)) => assert!(message.starts_with("JSON 解析失败: ")),
        other => panic!("unexpected {other:?}"),
    }
}

#[test]
fn analysis_reads_only_objects_and_strings() {
    let parsed = JsonValue::Object(vec![
        ("hook".to_string(), JsonValue::Str("plain".to_string())),
        ("buildup".to_string(), JsonValue::Number("3".to_string())),
        ("climax".to_string(), JsonValue::Object(vec![("text".to_string(), JsonValue::Bool(true))])),
    ]);
    let result = analysis_from_json(&parsed);
    let hook = result.hook.unwrap();
    assert_eq!((hook.text.as_str(), hook.technique.as_str()), ("", ""));
    assert!(result.buildup.is_empty());
    assert_eq!(result.climax.unwrap().text, "");
    assert!(result.ending.is_none());
    assert!(analysis_from_json(&JsonValue::Null).hook.is_none());
}

#[test]
fn hosted_providers_build_their_requests() {
    let doubao = DoubaoProvider::new("k1".to_string());
    assert_eq!(doubao.name(), "豆包");
    assert_eq!(doubao.model, "doubao-seed-1-8-251228");
    let call = doubao.chat_call(Vec::new());
    assert_eq!(call.url, "https://ark.cn-beijing.volces.com/api/v3/chat/completions");
    assert_eq!(call.authorization, Some("Bearer k1".to_string()));
    assert_eq!(call.timeout_secs, Some(60));
    assert!(!call.unauthorized_is_invalid_key);
    assert_eq!(call.temperature_tenths, 7);

    let openai = OpenAiProvider::with_model("k2".to_string(), "gpt-4o".to_string());
    assert_eq!(openai.name(), "ChatGPT");
    let call = openai.analyze_call("文案", "知识");
    assert_eq!(call.url, "https://api.openai.com/v1/chat/completions");
    assert_eq!(call.model, "gpt-4o");
    assert!(call.unauthorized_is_invalid_key);
    assert_eq!(call.messages, analysis_messages("文案", "知识"));
    assert_eq!(call.messages[0].role, "user");
    assert_eq!(call.messages[0].content, analysis_prompt("文案", "知识"));

    let deepseek = DeepSeekProvider::new("k3".to_string());
    assert_eq!(deepseek.name(), "DeepSeek");
    assert_eq!(deepseek.chat_call(Vec::new()).url, "https://api.deepseek.com/v1/chat/completions");
    assert_eq!(deepseek.chat_call(Vec::new()).model, "deepseek-chat");
}

#[test]
fn local_and_custom_providers_build_their_requests() {
    let lm = LmStudioProvider::default_url();
    assert_eq!(lm.name(), "LM Studio");
    assert_eq!(lm.models_url(), "http://localhost:1234/v1/models");
    let call = lm.chat_call(Vec::new());
    assert_eq!(call.url, "http://localhost:1234/v1/chat/completions");
    assert_eq!(call.authorization, None);
    assert_eq!(call.model, "default");
    assert_eq!(lm.not_running_error(), AiError::ServiceUnavailable("LM Studio 未运行".to_string()));

    let custom = CustomApiProvider::new(custom_config("https://api.siliconflow.cn/v1/"));
    let ping = custom.ping_call();
    assert_eq!(ping.url, "https://api.siliconflow.cn/v1/chat/completions");
    assert_eq!(ping.authorization, Some("Bearer sk-test".to_string()));
    assert_eq!(ping.temperature_tenths, 0);
    assert_eq!(ping.timeout_secs, Some(10));
    assert_eq!(ping.messages[0].content, "ping");
    let chat = custom.chat_call(Vec::new());
    assert_eq!(chat.timeout_secs, Some(120));
    assert_eq!(chat.empty_message, "empty response");
    assert_eq!(chat.model, "Qwen/Qwen3-235B-A22B");
}

#[test]
fn chat_url_is_stable_when_configured_again() {
    let first = CustomApiProvider::new(custom_config(" https://api.example.com/v1/ ")).chat_completions_url();
    let second = CustomApiProvider::new(custom_config(&first)).chat_completions_url();
    assert_eq!(first, second);
    assert_eq!(CustomApiProvider::new(custom_config("")).chat_completions_url(), "/chat/completions");
}

#[test]
fn chat_outcomes_follow_status_and_choices() {
    let custom = CustomApiProvider::new(custom_config("https://x/v1"));
    let call = custom.chat_call(Vec::new());
    assert_eq!(
        chat_outcome(&call, ChatReply::Failed { status: 401, status_text: "401 Unauthorized".to_string(), body: String::new() }),
        Err(AiError::InvalidApiKey)
    );
    assert_eq!(
        chat_outcome(&call, ChatReply::Failed { status: 500, status_text: "500 Internal Server Error".to_string(), body: "down".to_string() }),
        Err(AiError::ApiCallFailed("状态码: 500 Internal Server Error, 响应: down".to_string()))
    );
    assert_eq!(chat_outcome(&call, ChatReply::Decoded { contents: vec!["pong".to_string()] }), Ok("pong".to_string()));
    assert_eq!(
        chat_outcome(&call, ChatReply::Decoded { contents: Vec::new() }),
        Err(AiError::ParseError("empty response".to_string()))
    );
    assert_eq!(
        chat_outcome(&call, ChatReply::Undecodable { error: "bad body".to_string() }),
        Err(AiError::ParseError("bad body".to_string()))
    );
    let lm = LmStudioProvider::new("http://h".to_string());
    assert_eq!(
        chat_outcome(&lm.chat_call(Vec::new()), ChatReply::Failed { status: 401, status_text: "401 Unauthorized".to_string(), body: "no".to_string() }),
        Err(AiError::ApiCallFailed("状态码: 401 Unauthorized, 响应: no".to_string()))
    );
}

#[test]
fn whitespace_test_agrees_with_std() {
    for code in 0u32..0x3100 {
        if let Some(c) = char::from_u32(code) {
            assert_eq!(char_is_whitespace(c), c.is_whitespace(), "U+{code:04X}");
        }
    }
}
