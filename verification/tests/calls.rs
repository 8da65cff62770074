use wyrtloom_provider_nous::{
    check_head, decode_body, map_send_failure, CallEvent, ContentBlock, GenerateAction,
    GenerationRequest, GenerationResponse, Message, MessageRole, ModelsAction, NousProvider,
    ProviderError, ResponseHead, SendFailure, MAX_RESPONSE_BYTES, NOUS_BASE_URL,
};

fn req(model: &str, max: u32) -> GenerationRequest {
    GenerationRequest {
        messages: vec![
            Message { role: MessageRole::System, content: "be terse".to_string() },
            Message { role: MessageRole::User, content: "hello".to_string() },
        ],
        max_output_tokens: max,
        model: model.to_string(),
    }
}

fn provider() -> NousProvider {
    NousProvider::new("sk-test", NOUS_BASE_URL).unwrap()
}

fn head(status: u16, content_length: Option<u64>) -> CallEvent {
    CallEvent::Sent(Ok(ResponseHead { status, content_length }))
}

fn finish(action: GenerateAction) -> Result<GenerationResponse, ProviderError> {
    match action {
        GenerateAction::Finish(r) => r,
        other => panic!("unexpected {:?}", other),
    }
}

fn transport(r: Result<GenerationResponse, ProviderError>) -> String {
    match r {
        Err(ProviderError::Transport(m)) => m,
        other => panic!("unexpected {:?}", other),
    }
}

#[test]
fn generate_rejects_zero_output_budget() {
    // A zero budget is rejected before any network call (uses BudgetExceeded).
    let p = NousProvider::new("sk-test", NOUS_BASE_URL).unwrap();
    let err = finish(p.generate(&req("Hermes-4-405B", 0), CallEvent::Start)).unwrap_err();
    assert!(matches!(err, ProviderError::BudgetExceeded), "got {:?}", err);
}

#[test]
fn generate_against_unreachable_host_is_transport_error() {
    let p = NousProvider::new("sk-test", "https://127.0.0.1:19999/v1").unwrap();
    let r = req("Hermes-4-405B", 16);
    assert!(matches!(p.generate(&r, CallEvent::Start), GenerateAction::Post { .. }));
    let refused = CallEvent::Sent(Err(SendFailure { timed_out: false, connecting: true }));
    let err = finish(p.generate(&r, refused)).unwrap_err();
    assert!(matches!(err, ProviderError::Transport(_)), "got {:?}", err);
}

#[test]
fn a_generation_is_posted_below_the_base_url() {
    let p = NousProvider::new("sk-test", "http://localhost:8080/v1").unwrap();
    match p.generate(&req("Hermes-4-405B", 40_000), CallEvent::Start) {
        GenerateAction::Post { url, bearer, body } => {
            assert_eq!(url, "http://localhost:8080/v1/chat/completions");
            assert_eq!(bearer, "sk-test");
            assert_eq!(body.get("model").unwrap().as_str(), Some("Hermes-4-405B"));
            assert_eq!(body.get("max_tokens").unwrap().as_u64(), Some(32_000));
        }
        other => panic!("unexpected {:?}", other),
    }
}

#[test]
fn failures_to_send_have_a_category() {
    let message = |timed_out: bool, connecting: bool| match map_send_failure(SendFailure { timed_out, connecting }) {
        ProviderError::Transport(m) => m,
        other => panic!("unexpected {:?}", other),
    };
    assert_eq!(message(true, false), "connection timed out");
    assert_eq!(message(true, true), "connection timed out");
    assert_eq!(message(false, true), "connection refused");
    assert_eq!(message(false, false), "network error");
}

#[test]
fn the_head_decides_whether_the_body_is_read() {
    let p = provider();
    let r = req("Hermes-4-405B", 16);
    assert!(matches!(p.generate(&r, head(200, None)), GenerateAction::ReadBody { limit: 8_388_609 }));
    assert!(matches!(
        p.generate(&r, head(200, Some(MAX_RESPONSE_BYTES))),
        GenerateAction::ReadBody { limit: 8_388_609 }
    ));
    assert_eq!(
        transport(finish(p.generate(&r, head(200, Some(MAX_RESPONSE_BYTES + 1))))),
        "response too large"
    );
    assert!(matches!(finish(p.generate(&r, head(401, None))), Err(ProviderError::Unauthorized)));
    assert!(matches!(finish(p.generate(&r, head(429, None))), Err(ProviderError::RateLimited)));
    // The status comes before the length.
    assert!(matches!(
        check_head(ResponseHead { status: 403, content_length: Some(u64::MAX) }),
        Some(ProviderError::Unauthorized)
    ));
    assert!(check_head(ResponseHead { status: 204, content_length: Some(0) }).is_none());
}

#[test]
fn a_body_becomes_a_reply() {
    let p = provider();
    let body = br#"{"choices":[{"message":{"content":"\u001b]0;x\u0007hi\u202e there"}}],
        "usage":{"prompt_tokens":10,"completion_tokens":20}}"#;
    let event = CallEvent::Body(Some(body.to_vec()));
    let resp = finish(p.generate(&req("nousresearch/hermes-4-70b", 16), event)).unwrap();
    assert_eq!(resp.content.len(), 1);
    match &resp.content[0] {
        ContentBlock::Text(t) => assert_eq!(t, "hi there"),
    }
    assert_eq!((resp.usage.input_tokens, resp.usage.output_tokens), (10, 20));
    // 10 * 0.05 + 20 * 0.20 microdollars.
    assert_eq!(resp.usage.cost.unwrap().amount_microdollars, 5);
}

#[test]
fn bodies_that_do_not_decode_are_opaque_errors() {
    let p = provider();
    let r = req("Hermes-4-405B", 16);
    let outcome = |body: Option<Vec<u8>>| finish(p.generate(&r, CallEvent::Body(body)));
    assert_eq!(transport(outcome(None)), "response decode failed");
    assert_eq!(transport(outcome(Some(b"<html>secret</html>".to_vec()))), "response decode failed");
    assert_eq!(transport(outcome(Some(vec![b' '; 8_388_609]))), "response too large");
    match outcome(Some(b"{}".to_vec())) {
        Err(ProviderError::Provider(m)) => assert_eq!(m, "malformed response from provider"),
        other => panic!("unexpected {:?}", other),
    }
}

#[test]
fn a_body_at_the_cap_is_decoded() {
    let mut body = b"[]".to_vec();
    body.resize(MAX_RESPONSE_BYTES as usize, b' ');
    assert!(decode_body(&Some(body)).is_ok());
}

#[test]
fn models_are_listed_below_the_base_url() {
    let p = provider();
    match p.models(CallEvent::Start) {
        ModelsAction::Get { url, bearer } => {
            assert_eq!(url, "https://inference-api.nousresearch.com/v1/models");
            assert_eq!(bearer, "sk-test");
        }
        other => panic!("unexpected {:?}", other),
    }
    assert!(matches!(p.models(head(200, None)), ModelsAction::ReadBody { limit: 8_388_609 }));
    match p.models(CallEvent::Body(Some(br#"{"data":[{"id":"a"},{"id":"b"}]}"#.to_vec()))) {
        ModelsAction::Finish(models) => {
            assert_eq!(models.len(), 2);
            assert_eq!(models[1].id, "b");
        }
        other => panic!("unexpected {:?}", other),
    }
}

#[test]
fn a_listing_that_fails_is_empty() {
    let p = provider();
    let events = vec![
        CallEvent::Sent(Err(SendFailure { timed_out: true, connecting: false })),
        head(500, None),
        head(301, None),
        head(200, Some(u64::MAX)),
        CallEvent::Body(None),
        CallEvent::Body(Some(b"oops".to_vec())),
        CallEvent::Body(Some(vec![b' '; 8_388_609])),
        CallEvent::Body(Some(b"{}".to_vec())),
    ];
    for event in events {
        match p.models(event) {
            ModelsAction::Finish(models) => assert_eq!(models.len(), 0),
            other => panic!("unexpected {:?}", other),
        }
    }
}

#[test]
fn the_key_does_not_change_an_outcome() {
    let r = req("Hermes-4-405B", 16);
    let one = NousProvider::new("sk-one", NOUS_BASE_URL).unwrap();
    let two = NousProvider::new("sk-two", NOUS_BASE_URL).unwrap();
    for body in [&b"{}"[..], &b"no"[..]] {
        let a = one.generate(&r, CallEvent::Body(Some(body.to_vec())));
        let b = two.generate(&r, CallEvent::Body(Some(body.to_vec())));
        assert_eq!(format!("{:?}", a), format!("{:?}", b));
    }
}
