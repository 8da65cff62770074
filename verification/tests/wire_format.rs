use wyrtloom_provider_nous::{
    build_chat_body, decode_json, map_status, parse_chat_response, parse_models,
    price_field_to_microdollars, role_str, ContentBlock, GenerationRequest, GenerationResponse,
    Json, JsonNumber, Message, MessageRole, ProviderError, MAX_TOKENS_CEILING,
};

fn message(role: MessageRole, content: &str) -> Message {
    Message { role, content: content.to_string() }
}

fn req(model: &str, max: u32) -> GenerationRequest {
    GenerationRequest {
        messages: vec![message(MessageRole::System, "be terse"), message(MessageRole::User, "hello")],
        max_output_tokens: max,
        model: model.to_string(),
    }
}

fn json(text: &str) -> Json {
    decode_json(text.as_bytes()).unwrap()
}

fn full_text(resp: &GenerationResponse) -> String {
    let mut out = String::new();
    for block in &resp.content {
        match block {
            ContentBlock::Text(t) => out.push_str(t),
        }
    }
    out
}

#[test]
fn status_mapping_is_correct() {
    assert!(map_status(200).is_none());
    assert!(map_status(204).is_none());
    assert!(matches!(map_status(401), Some(ProviderError::Unauthorized)));
    assert!(matches!(map_status(403), Some(ProviderError::Unauthorized)));
    assert!(matches!(map_status(429), Some(ProviderError::RateLimited)));
    assert!(matches!(map_status(402), Some(ProviderError::Provider(_))));
    // 3xx is an error (redirects disabled), not a silent success.
    assert!(matches!(map_status(302), Some(ProviderError::Provider(_))));
    match map_status(500) {
        Some(ProviderError::Provider(m)) => assert_eq!(m, "server returned HTTP 500"),
        other => panic!("unexpected {:?}", other),
    }
}

#[test]
fn error_messages_do_not_leak_bodies() {
    // No mapped error should echo a response body, only status/category text.
    for code in [400u16, 403, 418, 500, 503] {
        if let Some(ProviderError::Provider(m)) = map_status(code) {
            assert!(m.starts_with("server returned HTTP") || m.contains("payment required"));
        }
    }
}

#[test]
fn every_status_has_its_message() {
    for code in 0..=u16::MAX {
        let expected = match code {
            200..=299 => None,
            401 | 403 | 429 => continue,
            402 => Some("payment required (x402 not supported)".to_string()),
            300..=399 => Some(format!("unexpected redirect (HTTP {})", code)),
            _ => Some(format!("server returned HTTP {}", code)),
        };
        match map_status(code) {
            None => assert_eq!(expected, None),
            Some(ProviderError::Provider(m)) => assert_eq!(expected, Some(m)),
            other => panic!("unexpected {:?}", other),
        }
    }
}

#[test]
fn build_body_maps_roles_and_disables_stream() {
    let body = build_chat_body(&req("Hermes-4-70B", 100));
    assert_eq!(body.get("model").unwrap().as_str(), Some("Hermes-4-70B"));
    assert!(matches!(body.get("stream"), Some(Json::Bool(false))));
    let messages = body.get("messages").unwrap();
    assert_eq!(messages.get_index(0).unwrap().get("role").unwrap().as_str(), Some("system"));
    assert_eq!(messages.get_index(1).unwrap().get("role").unwrap().as_str(), Some("user"));
    assert_eq!(messages.get_index(1).unwrap().get("content").unwrap().as_str(), Some("hello"));
}

#[test]
fn build_body_clamps_max_tokens_to_api_ceiling() {
    let max_tokens = |max: u32| build_chat_body(&req("Hermes-4-70B", max)).get("max_tokens").unwrap().as_u64();
    assert_eq!(max_tokens(999_999), Some(MAX_TOKENS_CEILING as u64));
    assert_eq!(max_tokens(256), Some(256));
    assert_eq!(max_tokens(1), Some(1));
    assert_eq!(max_tokens(32_000), Some(32_000));
    assert_eq!(max_tokens(0), Some(1));
}

#[test]
fn body_numbers_carry_their_digits() {
    match build_chat_body(&req("Hermes-4-70B", 20_480)).get("max_tokens") {
        Some(Json::Number(n)) => assert_eq!(n.text, "20480"),
        other => panic!("unexpected {:?}", other),
    }
}

#[test]
fn roles_have_wire_names() {
    assert_eq!(role_str(&MessageRole::System), "system");
    assert_eq!(role_str(&MessageRole::User), "user");
    assert_eq!(role_str(&MessageRole::Assistant), "assistant");
}

#[test]
fn parse_response_extracts_text_usage_and_cost() {
    let json = json(
        r#"{
            "choices": [ { "index": 0, "message": { "role": "assistant", "content": "hi there" }, "finish_reason": "stop" } ],
            "usage": { "prompt_tokens": 1000000, "completion_tokens": 0, "total_tokens": 1000000 }
        }"#,
    );
    let resp = parse_chat_response(&json, &"Hermes-4-405B".to_string()).unwrap();
    assert_eq!(full_text(&resp), "hi there");
    assert_eq!(resp.usage.input_tokens, 1_000_000);
    assert_eq!(resp.usage.output_tokens, 0);
    // 1M input tokens of 405B at $0.09/1M = $0.09 = 90_000 microdollars.
    assert_eq!(resp.usage.cost.unwrap().amount_microdollars, 90_000);
}

#[test]
fn parse_response_without_usage_defaults_to_zero() {
    let json = json(r#"{ "choices": [ { "message": { "content": "ok" } } ] }"#);
    let resp = parse_chat_response(&json, &"Hermes-4-405B".to_string()).unwrap();
    assert_eq!(resp.usage.input_tokens, 0);
    assert_eq!(resp.usage.output_tokens, 0);
    // Zero tokens still yields a $0.00 cost for a priced model.
    assert_eq!(resp.usage.cost.unwrap().amount_microdollars, 0);
}

#[test]
fn parse_response_malformed_is_provider_error() {
    let json = json(r#"{ "choices": [] }"#);
    assert!(matches!(
        parse_chat_response(&json, &"Hermes-4-70B".to_string()),
        Err(ProviderError::Provider(_))
    ));
}

#[test]
fn malformed_replies_have_one_message() {
    let texts = [
        "null", "[]", "{}", r#"{"choices":{"0":{"message":{"content":"x"}}}}"#,
        r#"{"choices":[{"message":{"content":7}}]}"#, r#"{"choices":[{"message":"x"}]}"#,
        r#"{"choices":[{}]}"#,
    ];
    for text in texts {
        match parse_chat_response(&json(text), &"Hermes-4-70B".to_string()) {
            Err(ProviderError::Provider(m)) => assert_eq!(m, "malformed response from provider"),
            other => panic!("unexpected {:?}", other),
        }
    }
}

#[test]
fn odd_usage_never_fails_a_reply() {
    let json = json(
        r#"{"choices":[{"message":{"content":"\u001b[31mred\u001b[0m"}}],
            "usage":{"prompt_tokens":"many","completion_tokens":-3}}"#,
    );
    let resp = parse_chat_response(&json, &"other".to_string()).unwrap();
    assert_eq!(full_text(&resp), "red");
    assert_eq!(resp.usage.input_tokens, 0);
    assert_eq!(resp.usage.output_tokens, 0);
    assert!(resp.usage.cost.is_none());
}

#[test]
fn a_reply_can_be_written_as_a_value() {
    let text = |s: &str| Json::Text(s.to_string());
    let count = |n: u64| Json::Number(JsonNumber { unsigned: Some(n), text: n.to_string() });
    let reply = Json::Object(vec![("message".to_string(), Json::Object(vec![("content".to_string(), text("hi"))]))]);
    let json = Json::Object(vec![
        ("choices".to_string(), Json::Array(vec![reply])),
        ("usage".to_string(), Json::Object(vec![
            ("prompt_tokens".to_string(), count(3)),
            ("completion_tokens".to_string(), count(4)),
        ])),
    ]);
    let resp = parse_chat_response(&json, &"Hermes-4-70B".to_string()).unwrap();
    assert_eq!(full_text(&resp), "hi");
    assert_eq!((resp.usage.input_tokens, resp.usage.output_tokens), (3, 4));
    assert_eq!(resp.usage.cost.unwrap().amount_microdollars, 1);
}

#[test]
fn parse_models_reads_ids_and_pricing() {
    let json = json(
        r#"{
            "data": [
                { "id": "nousresearch/hermes-4-405b", "name": "Hermes 4 405B",
                  "pricing": { "prompt": "0.0000000900", "completion": "0.0000003700" } },
                { "id": "expensive/model", "name": "Pricey",
                  "pricing": { "prompt": "0.0000050000", "completion": "0.0000100000" } },
                { "id": "no-pricing-model" }
            ]
        }"#,
    );
    let models = parse_models(&json);
    assert_eq!(models.len(), 3);
    assert_eq!(models[0].id, "nousresearch/hermes-4-405b");
    assert_eq!(models[0].description.as_deref(), Some("Hermes 4 405B"));
    // $0.00000009/token rounds below one microdollar: reported as None, not a fake $0.00.
    assert!(models[0].cost_per_input_token.is_none());
    // $0.000005/token = 5 microdollars, representable, so surfaced.
    assert_eq!(models[1].cost_per_input_token.as_ref().unwrap().amount_microdollars, 5);
    assert_eq!(models[1].cost_per_output_token.as_ref().unwrap().amount_microdollars, 10);
    assert!(models[2].cost_per_input_token.is_none());
}

#[test]
fn nameless_entries_are_skipped_and_order_is_kept() {
    let models = parse_models(&json(
        r#"{"data":[{"id":"a"},{"name":"x"},7,{"id":9},{"id":"b","name":4,"pricing":{"prompt":0.000002,"completion":-1}}]}"#,
    ));
    assert_eq!(models.len(), 2);
    assert_eq!(models[0].id, "a");
    assert_eq!(models[1].id, "b");
    assert!(models[1].description.is_none());
    assert_eq!(models[1].cost_per_input_token.unwrap().amount_microdollars, 2);
    assert!(models[1].cost_per_output_token.is_none());
}

#[test]
fn a_catalog_without_data_is_empty() {
    for text in ["null", "{}", "[]", r#"{"data":{}}"#, r#"{"data":[]}"#] {
        assert_eq!(parse_models(&json(text)).len(), 0);
    }
}

#[test]
fn price_fields_are_text_or_numbers() {
    assert_eq!(price_field_to_microdollars(&json("\"0.5\"")), Some(500_000));
    assert_eq!(price_field_to_microdollars(&json("0.5")), Some(500_000));
    assert_eq!(price_field_to_microdollars(&json("3")), Some(3_000_000));
    assert_eq!(price_field_to_microdollars(&json("-3")), Some(-3_000_000));
    assert_eq!(price_field_to_microdollars(&json("1e-6")), Some(1));
    assert_eq!(price_field_to_microdollars(&json("1e30")), Some(i64::MAX));
    assert_eq!(price_field_to_microdollars(&json("true")), None);
    assert_eq!(price_field_to_microdollars(&json("[1]")), None);
    assert_eq!(price_field_to_microdollars(&json("\"free\"")), None);
}

#[test]
fn documents_are_decoded_as_written() {
    let j = json(r#"{"n":null,"b":true,"u":18446744073709551615,"i":-5,"f":1.5,"s":"é","a":[1,[2]],"o":{"k":"v"},"d":1,"d":2}"#);
    assert!(matches!(j.get("n"), Some(Json::Null)));
    assert!(matches!(j.get("b"), Some(Json::Bool(true))));
    assert_eq!(j.get("u").unwrap().as_u64(), Some(u64::MAX));
    assert_eq!(j.get("i").unwrap().as_u64(), None);
    assert_eq!(j.get("f").unwrap().as_u64(), None);
    assert_eq!(j.get("s").unwrap().as_str(), Some("é"));
    assert_eq!(j.get("a").unwrap().as_array().unwrap().len(), 2);
    assert_eq!(j.get("a").unwrap().get_index(1).unwrap().get_index(0).unwrap().as_u64(), Some(2));
    assert!(j.get("a").unwrap().get_index(2).is_none());
    assert_eq!(j.get("o").unwrap().get("k").unwrap().as_str(), Some("v"));
    assert_eq!(j.get("d").unwrap().as_u64(), Some(2));
    assert!(j.get("missing").is_none());
    assert!(j.get_index(0).is_none());
    match j.get("i") {
        Some(Json::Number(n)) => assert_eq!(n.text, "-5"),
        other => panic!("unexpected {:?}", other),
    }
}

#[test]
fn what_is_no_document_is_not_decoded() {
    for text in ["", "{", "{} {}", "nope", "[1,]", "\"\u{1}\""] {
        assert!(decode_json(text.as_bytes()).is_none(), "{}", text);
    }
    assert!(decode_json(&[0xff, 0xfe]).is_none());
}

#[test]
fn the_later_of_two_entries_counts() {
    let j = Json::Object(vec![
        ("k".to_string(), Json::Bool(true)),
        ("k".to_string(), Json::Bool(false)),
    ]);
    assert!(matches!(j.get("k"), Some(Json::Bool(false))));
}
