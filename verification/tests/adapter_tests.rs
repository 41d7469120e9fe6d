use ai_gateway_engine::error::Error;
use ai_gateway_engine::json::Json;
use ai_gateway_engine::models::{ClientProtocol, TargetProtocol};
use ai_gateway_engine::protocol::adapter::{copy_bytes, StreamAdapter, UniversalAdapter};
use ai_gateway_engine::protocol::anthropic;
use ai_gateway_engine::protocol::anthropic::{AnthropicRequest, AnthropicResponse, ContentBlock, ImageSource};
use ai_gateway_engine::protocol::openai;
use ai_gateway_engine::protocol::openai::{Choice, OpenAIRequest, OpenAIResponse};

fn text(r: Result<Vec<u8>, Error>) -> String {
    String::from_utf8(r.unwrap()).unwrap()
}

const CHAT: &[u8] = b"{\"model\":\"m\",\"messages\":[{\"role\":\"user\",\"content\":\"hi\"}],\"stream\":false}";

#[test]
fn same_protocol_requests_only_change_the_model() {
    let a = UniversalAdapter::new();
    let out = text(a.transform_request(&ClientProtocol::OpenAI, &TargetProtocol::OpenAI, "n", b"{\"model\":\"m\",\"messages\":[{\"role\":\"tool\",\"content\":null}],\"top_k\":3,\"temperature\":0.30000000000000004}"));
    assert_eq!(out, "{\"messages\":[{\"content\":null,\"role\":\"tool\"}],\"model\":\"n\",\"temperature\":0.30000000000000004,\"top_k\":3}");
    let out = text(a.transform_request(&ClientProtocol::Anthropic, &TargetProtocol::Anthropic, "n", b"{\"messages\":[]}"));
    assert_eq!(out, "{\"messages\":[],\"model\":\"n\"}");
    let out = text(a.transform_request(&ClientProtocol::OpenAI, &TargetProtocol::OpenAI, "n", b"[1]"));
    assert_eq!(out, "[1]");
}

#[test]
fn an_openai_request_becomes_an_anthropic_request() {
    let a = UniversalAdapter::new();
    let out = text(a.transform_request(&ClientProtocol::OpenAI, &TargetProtocol::Anthropic, "n", CHAT));
    assert_eq!(out, "{\"max_tokens\":1024,\"messages\":[{\"content\":\"hi\",\"role\":\"user\"}],\"model\":\"n\",\"stream\":false}");
}

#[test]
fn system_messages_are_promoted_and_unknown_roles_dropped() {
    let a = UniversalAdapter::new();
    let body = b"{\"model\":\"m\",\"max_tokens\":7,\"temperature\":0.7,\"top_p\":1,\"frequency_penalty\":0.5,\"user\":\"u\",\"messages\":[{\"role\":\"system\",\"content\":\"first\"},{\"role\":\"user\",\"content\":\"q\"},{\"role\":\"tool\",\"content\":\"t\"},{\"role\":\"system\",\"content\":\"second\"},{\"role\":\"assistant\",\"content\":[{\"type\":\"text\",\"text\":\"parts\"}]},{\"role\":\"system\",\"content\":[]}]}";
    let out = text(a.transform_request(&ClientProtocol::OpenAI, &TargetProtocol::Anthropic, "n", body));
    assert_eq!(out, "{\"max_tokens\":7,\"messages\":[{\"content\":\"q\",\"role\":\"user\"},{\"content\":\"\",\"role\":\"assistant\"}],\"model\":\"n\",\"system\":\"second\",\"temperature\":0.7,\"top_p\":1}");
}

#[test]
fn an_anthropic_request_becomes_an_openai_request() {
    let a = UniversalAdapter::new();
    let body = b"{\"model\":\"c\",\"max_tokens\":100,\"system\":\"be brief\",\"top_k\":5,\"stream\":true,\"messages\":[{\"role\":\"user\",\"content\":\"q\"},{\"role\":\"assistant\",\"content\":[{\"type\":\"text\",\"text\":\"a\"},{\"type\":\"image\",\"source\":{\"type\":\"base64\",\"media_type\":\"image/png\",\"data\":\"AA\"}}]}]}";
    let out = text(a.transform_request(&ClientProtocol::Anthropic, &TargetProtocol::OpenAI, "gpt", body));
    assert_eq!(out, "{\"max_tokens\":100,\"messages\":[{\"content\":\"be brief\",\"role\":\"system\"},{\"content\":\"q\",\"role\":\"user\"},{\"content\":\"\",\"role\":\"assistant\"}],\"model\":\"gpt\",\"stream\":true}");
}

#[test]
fn a_body_that_is_no_json_is_a_serialization_error() {
    let a = UniversalAdapter::new();
    match a.transform_request(&ClientProtocol::OpenAI, &TargetProtocol::OpenAI, "n", b"{") {
        Err(Error::Serialization(msg)) => assert_eq!(msg, "EOF while parsing an object at line 1 column 1"),
        other => panic!("unexpected {:?}", other),
    }
    assert!(matches!(a.transform_response_at(&TargetProtocol::OpenAI, &ClientProtocol::OpenAI, b"", 0), Err(Error::Serialization(_))));
    assert!(matches!(a.transform_request(&ClientProtocol::OpenAI, &TargetProtocol::Custom("x".into()), "n", b"{"), Err(Error::Serialization(_))));
}

#[test]
fn a_body_of_the_wrong_shape_is_a_serialization_error() {
    let a = UniversalAdapter::new();
    for body in ["{}", "{\"model\":\"m\"}", "{\"model\":\"m\",\"messages\":{}}", "{\"model\":\"m\",\"messages\":[{\"role\":\"user\"}]}", "{\"model\":\"m\",\"messages\":[],\"max_tokens\":\"many\"}", "{\"model\":\"m\",\"messages\":[],\"max_tokens\":2147483648}", "{\"model\":\"m\",\"messages\":[],\"stream\":1}", "{\"model\":\"m\",\"messages\":[],\"temperature\":\"hot\"}"] {
        match a.transform_request(&ClientProtocol::OpenAI, &TargetProtocol::Anthropic, "n", body.as_bytes()) {
            Err(Error::Serialization(msg)) => assert_eq!(msg, "not a valid OpenAI chat request"),
            other => panic!("unexpected {:?} for {}", other, body),
        }
    }
    match a.transform_request(&ClientProtocol::Anthropic, &TargetProtocol::OpenAI, "n", b"{\"model\":\"m\",\"messages\":[]}") {
        Err(Error::Serialization(msg)) => assert_eq!(msg, "not a valid Anthropic messages request"),
        other => panic!("unexpected {:?}", other),
    }
    match a.transform_response_at(&TargetProtocol::OpenAI, &ClientProtocol::Anthropic, b"{\"id\":\"x\"}", 0) {
        Err(Error::Serialization(msg)) => assert_eq!(msg, "not a valid OpenAI chat response"),
        other => panic!("unexpected {:?}", other),
    }
    match a.transform_response_at(&TargetProtocol::Anthropic, &ClientProtocol::OpenAI, b"{\"id\":\"x\",\"model\":\"n\",\"content\":[{\"type\":\"tool_use\"}],\"usage\":{\"input_tokens\":1,\"output_tokens\":1}}", 0) {
        Err(Error::Serialization(msg)) => assert_eq!(msg, "not a valid Anthropic messages response"),
        other => panic!("unexpected {:?}", other),
    }
}

#[test]
fn custom_protocols_have_no_rewrite() {
    let a = UniversalAdapter::new();
    match a.transform_request(&ClientProtocol::OpenAI, &TargetProtocol::Custom("my \"own\"".into()), "n", CHAT) {
        Err(Error::Protocol(msg)) => assert_eq!(msg, "Unsupported protocol conversion: OpenAI -> Custom(\"my \\\"own\\\"\")"),
        other => panic!("unexpected {:?}", other),
    }
    match a.transform_response_at(&TargetProtocol::Anthropic, &ClientProtocol::Custom("c".into()), b"{}", 0) {
        Err(Error::Protocol(msg)) => assert_eq!(msg, "Unsupported protocol conversion: Anthropic -> Custom(\"c\")"),
        other => panic!("unexpected {:?}", other),
    }
    assert!(matches!(a.transform_request(&ClientProtocol::Custom("c".into()), &TargetProtocol::Custom("c".into()), "n", CHAT), Err(Error::Protocol(_))));
}

#[test]
fn same_protocol_responses_are_kept() {
    let a = UniversalAdapter::new();
    let body = b"{\"id\":\"x\",\"choices\":[{\"message\":{\"role\":\"assistant\",\"content\":\"hello\"},\"finish_reason\":\"stop\"}],\"usage\":{\"prompt_tokens\":1,\"completion_tokens\":1}}";
    let out = text(a.transform_response_at(&TargetProtocol::OpenAI, &ClientProtocol::OpenAI, body, 0));
    assert_eq!(out, "{\"choices\":[{\"finish_reason\":\"stop\",\"message\":{\"content\":\"hello\",\"role\":\"assistant\"}}],\"id\":\"x\",\"usage\":{\"completion_tokens\":1,\"prompt_tokens\":1}}");
    assert_eq!(Json::parse(out.as_bytes()).unwrap().to_text(), Json::parse(body).unwrap().to_text());
    let out = text(a.transform_response(&TargetProtocol::Anthropic, &ClientProtocol::Anthropic, b"{\"a\": 1}"));
    assert_eq!(out, "{\"a\":1}");
}

#[test]
fn an_anthropic_response_becomes_an_openai_response() {
    let a = UniversalAdapter::new();
    let body = b"{\"id\":\"a\",\"content\":[{\"type\":\"text\",\"text\":\"hello\"}],\"model\":\"n\",\"stop_reason\":\"end_turn\",\"usage\":{\"input_tokens\":2,\"output_tokens\":3}}";
    let out = text(a.transform_response_at(&TargetProtocol::Anthropic, &ClientProtocol::OpenAI, body, 77));
    assert_eq!(out, "{\"choices\":[{\"finish_reason\":\"end_turn\",\"index\":0,\"message\":{\"content\":\"hello\",\"role\":\"assistant\"}}],\"created\":77,\"id\":\"a\",\"model\":\"n\",\"object\":\"chat.completion\",\"usage\":{\"completion_tokens\":3,\"prompt_tokens\":2,\"total_tokens\":5}}");
}

#[test]
fn text_blocks_are_joined_and_images_left_out() {
    let a = UniversalAdapter::new();
    let body = b"{\"id\":\"a\",\"type\":\"message\",\"role\":\"assistant\",\"content\":[{\"type\":\"text\",\"text\":\"one \"},{\"type\":\"image\",\"source\":{\"type\":\"base64\",\"media_type\":\"image/png\",\"data\":\"AA\"}},{\"type\":\"text\",\"text\":\"two\"}],\"model\":\"n\",\"stop_reason\":null,\"stop_sequence\":null,\"usage\":{\"input_tokens\":2,\"output_tokens\":3}}";
    let out = text(a.transform_response_at(&TargetProtocol::Anthropic, &ClientProtocol::OpenAI, body, 1));
    assert!(out.contains("\"message\":{\"content\":\"one two\",\"role\":\"assistant\"}"));
    assert!(out.contains("\"finish_reason\":null"));
}

#[test]
fn the_clock_stamps_a_rewritten_response() {
    let a = UniversalAdapter::new();
    let body = b"{\"id\":\"a\",\"content\":[],\"model\":\"n\",\"usage\":{\"input_tokens\":2,\"output_tokens\":3}}";
    let out = a.transform_response(&TargetProtocol::Anthropic, &ClientProtocol::OpenAI, body).unwrap();
    assert!(Json::parse(&out).unwrap().get_i64("created").unwrap() > 1_600_000_000);
}

#[test]
fn an_openai_response_becomes_an_anthropic_response() {
    let a = UniversalAdapter::new();
    let body = b"{\"id\":\"x\",\"object\":\"chat.completion\",\"created\":5,\"model\":\"gpt\",\"choices\":[{\"index\":0,\"message\":{\"role\":\"assistant\",\"content\":\"hello\"},\"finish_reason\":\"stop\"},{\"index\":1,\"message\":{\"role\":\"assistant\",\"content\":\"other\"},\"finish_reason\":\"length\"}],\"usage\":{\"prompt_tokens\":1,\"completion_tokens\":2,\"total_tokens\":3}}";
    let out = text(a.transform_response_at(&TargetProtocol::OpenAI, &ClientProtocol::Anthropic, body, 0));
    assert_eq!(out, "{\"content\":[{\"text\":\"hello\",\"type\":\"text\"}],\"id\":\"x\",\"model\":\"gpt\",\"role\":\"assistant\",\"stop_reason\":\"stop\",\"stop_sequence\":null,\"type\":\"message\",\"usage\":{\"input_tokens\":1,\"output_tokens\":2}}");
}

#[test]
fn a_response_without_choices_is_a_protocol_error() {
    let a = UniversalAdapter::new();
    let body = b"{\"id\":\"x\",\"model\":\"gpt\",\"choices\":[],\"usage\":{\"prompt_tokens\":1,\"completion_tokens\":2}}";
    match a.transform_response_at(&TargetProtocol::OpenAI, &ClientProtocol::Anthropic, body, 0) {
        Err(Error::Protocol(msg)) => assert_eq!(msg, "No choices in OpenAI response"),
        other => panic!("unexpected {:?}", other),
    }
    let resp = OpenAIResponse {
        id: "x".into(),
        object: "chat.completion".into(),
        created: 0,
        model: "m".into(),
        choices: Vec::<Choice>::new(),
        usage: openai::Usage { prompt_tokens: 0, completion_tokens: 0, total_tokens: 0 },
    };
    assert!(matches!(UniversalAdapter::openai_response_to_anthropic(&resp), Err(Error::Protocol(_))));
}

#[test]
fn token_counts_that_do_not_add_up_are_a_protocol_error() {
    let resp = AnthropicResponse {
        id: "a".into(),
        response_type: "message".into(),
        role: "assistant".into(),
        content: vec![ContentBlock::Text { text: "t".into() }, ContentBlock::Image { source: ImageSource { source_type: "base64".into(), media_type: "image/png".into(), data: "AA".into() } }],
        model: "n".into(),
        stop_reason: Some("end_turn".into()),
        stop_sequence: None,
        usage: anthropic::Usage { input_tokens: i32::MAX, output_tokens: 1 },
    };
    match UniversalAdapter::anthropic_response_to_openai(&resp, 3) {
        Err(Error::Protocol(msg)) => assert_eq!(msg, "Token counts out of range"),
        other => panic!("unexpected {:?}", other),
    }
    let ok = AnthropicResponse { usage: anthropic::Usage { input_tokens: i32::MAX - 1, output_tokens: 1 }, ..resp };
    let out = UniversalAdapter::anthropic_response_to_openai(&ok, 3).unwrap();
    assert_eq!(out.usage.total_tokens, i32::MAX);
    assert_eq!(out.created, 3);
    assert_eq!(out.object, "chat.completion");
    assert_eq!(out.choices.len(), 1);
    assert_eq!(out.choices[0].index, 0);
    assert_eq!(out.choices[0].finish_reason.as_deref(), Some("end_turn"));
    assert!(matches!(&out.choices[0].message.content, openai::MessageContent::Text(t) if t == "t"));
}

fn chat(messages: Vec<(&str, &str)>, max_tokens: Option<i32>) -> OpenAIRequest {
    OpenAIRequest {
        model: "m".into(),
        messages: messages
            .into_iter()
            .map(|(r, c)| openai::Message { role: r.into(), content: openai::MessageContent::Text(c.into()) })
            .collect(),
        max_tokens,
        temperature: Some(Json::Num("0.7".into())),
        top_p: Some(Json::Int(1)),
        stream: Some(true),
        frequency_penalty: Some(Json::Num("0.1".into())),
        presence_penalty: None,
        extra: Json::Obj(vec![("user".to_string(), Json::text("u"))]),
    }
}

#[test]
fn a_plain_conversation_comes_back_as_it_went() {
    let req = chat(vec![("system", "s"), ("user", "q"), ("assistant", "a"), ("user", "q2")], Some(64));
    let there: AnthropicRequest = UniversalAdapter::openai_to_anthropic(&req, "m").unwrap();
    assert_eq!(there.system.as_deref(), Some("s"));
    assert_eq!(there.messages.len(), 3);
    assert_eq!(there.top_k, None);
    let back = UniversalAdapter::anthropic_to_openai(&there, "m").unwrap();
    assert_eq!(back.model, "m");
    assert_eq!(back.max_tokens, Some(64));
    assert_eq!(back.stream, Some(true));
    assert_eq!(back.temperature.as_ref().unwrap().to_text(), "0.7");
    assert_eq!(back.top_p.as_ref().unwrap().to_text(), "1");
    let roles: Vec<(String, String)> = back
        .messages
        .iter()
        .map(|m| match &m.content {
            openai::MessageContent::Text(t) => (m.role.clone(), t.clone()),
            _ => panic!("not text"),
        })
        .collect();
    assert_eq!(roles, vec![("system".to_string(), "s".to_string()), ("user".into(), "q".into()), ("assistant".into(), "a".into()), ("user".into(), "q2".into())]);
    assert!(back.frequency_penalty.is_none());
    assert_eq!(back.to_json().to_text(), "{\"max_tokens\":64,\"messages\":[{\"content\":\"s\",\"role\":\"system\"},{\"content\":\"q\",\"role\":\"user\"},{\"content\":\"a\",\"role\":\"assistant\"},{\"content\":\"q2\",\"role\":\"user\"}],\"model\":\"m\",\"stream\":true,\"temperature\":0.7,\"top_p\":1}");
}

#[test]
fn what_anthropic_cannot_say_is_lost_on_the_way() {
    let req = chat(vec![("user", "q"), ("system", "late"), ("tool", "t")], None);
    let there = UniversalAdapter::openai_to_anthropic(&req, "n").unwrap();
    assert_eq!(there.max_tokens, 1024);
    let back = UniversalAdapter::anthropic_to_openai(&there, "n").unwrap();
    assert_eq!(back.max_tokens, Some(1024));
    assert_eq!(back.messages.len(), 2);
    assert_eq!(back.messages[0].role, "system");
    assert_eq!(back.messages[1].role, "user");
}

#[test]
fn extra_members_are_written_after_the_named_ones() {
    let req = chat(vec![("user", "q")], None);
    assert_eq!(req.to_json().to_text(), "{\"frequency_penalty\":0.1,\"messages\":[{\"content\":\"q\",\"role\":\"user\"}],\"model\":\"m\",\"stream\":true,\"temperature\":0.7,\"top_p\":1,\"user\":\"u\"}");
    let parsed = OpenAIRequest::from_json(&req.to_json()).unwrap();
    assert_eq!(parsed.extra.to_text(), "{\"user\":\"u\"}");
    assert_eq!(parsed.to_json().to_text(), req.to_json().to_text());
    let body = Json::parse(b"{\"model\":\"c\",\"max_tokens\":1,\"messages\":[],\"metadata\":{\"k\":1},\"top_k\":null,\"stop_sequences\":[\"x\"]}").unwrap();
    let parsed = AnthropicRequest::from_json(&body).unwrap();
    assert_eq!(parsed.extra.to_text(), "{\"metadata\":{\"k\":1},\"stop_sequences\":[\"x\"]}");
    assert_eq!(parsed.to_json().to_text(), "{\"max_tokens\":1,\"messages\":[],\"metadata\":{\"k\":1},\"model\":\"c\",\"stop_sequences\":[\"x\"]}");
}

#[test]
fn the_stream_adapter_follows_the_protocols() {
    let a = UniversalAdapter::new();
    assert!(matches!(a.transform_stream_chunk(&TargetProtocol::OpenAI, &ClientProtocol::OpenAI), StreamAdapter::Passthrough));
    assert!(matches!(a.transform_stream_chunk(&TargetProtocol::Anthropic, &ClientProtocol::Anthropic), StreamAdapter::Passthrough));
    assert!(matches!(a.transform_stream_chunk(&TargetProtocol::OpenAI, &ClientProtocol::Anthropic), StreamAdapter::ToAnthropic(_)));
    assert!(matches!(a.transform_stream_chunk(&TargetProtocol::Anthropic, &ClientProtocol::OpenAI), StreamAdapter::ToOpenAi(_)));
    assert!(matches!(a.transform_stream_chunk(&TargetProtocol::Custom("c".into()), &ClientProtocol::OpenAI), StreamAdapter::Passthrough));
    assert!(matches!(a.transform_stream_chunk(&TargetProtocol::OpenAI, &ClientProtocol::Custom("c".into())), StreamAdapter::Passthrough));
    assert!(!a.convert_openai_to_anthropic_stream().is_finished());
    assert!(!a.convert_anthropic_to_openai_stream().is_finished());
}

#[test]
fn a_same_protocol_stream_passes_byte_for_byte() {
    let a = UniversalAdapter::new();
    let mut s = a.transform_stream_chunk(&TargetProtocol::OpenAI, &ClientProtocol::OpenAI);
    let chunks: [&[u8]; 5] = [b"data: {\"id\":\"c\",\"model\":\"m\",\"choices\":[{\"delta\":{\"role\":\"assistant\",\"content\":\"\"}}]}\n\n", b"data: {\"id\":\"c\",\"choi", b"ces\":[{\"delta\":{\"content\":\"hi\"}}]}\n\n: keepalive   \r\n\r\n", &[0xff, 0x00, b'\n'], b"data: [DONE]\n\n"];
    for c in chunks {
        assert_eq!(s.push(c), c);
        assert_eq!(s.push_at(c, 5), c);
    }
    assert_eq!(s.push(b""), b"");
    assert_eq!(copy_bytes(b"abc"), b"abc");
}

#[test]
fn a_mixed_stream_goes_through_its_adapter() {
    let a = UniversalAdapter::new();
    let mut s = a.transform_stream_chunk(&TargetProtocol::OpenAI, &ClientProtocol::Anthropic);
    assert_eq!(String::from_utf8(s.push(b"data: [DONE]\n")).unwrap(), "event: message_delta\ndata: {\"delta\":{\"stop_reason\":\"end_turn\"},\"type\":\"message_delta\"}\n\nevent: message_stop\ndata: {\"type\":\"message_stop\"}\n\n");
    let mut s = a.transform_stream_chunk(&TargetProtocol::Anthropic, &ClientProtocol::OpenAI);
    assert_eq!(String::from_utf8(s.push_at(b"event: message_stop\ndata: {}\n", 1)).unwrap(), "data: [DONE]\n\n");
}
