use matrix_openai_bot::json::Json;
use matrix_openai_bot::openai::tools::{FunctionCall, ToolCall};
use matrix_openai_bot::openai::wire::{messages_to_json, request_to_json, ShapeError};
use matrix_openai_bot::openai::{
    ImageUrl, MessageContent, OpenAIChoice, OpenAIConfig, OpenAIImageContent, OpenAIMessage,
    OpenAIResponse, Role,
};

fn json(text: &str) -> Json {
    Json::parse(text).unwrap()
}

fn tool_call() -> ToolCall {
    ToolCall {
        id: "call_1".to_string(),
        kind: "function".to_string(),
        function: FunctionCall {
            name: "fetch_url".to_string(),
            arguments: "{\"url\":\"https://x\"}".to_string(),
        },
    }
}

#[test]
fn role_names_are_those_of_the_wire() {
    assert_eq!(Role::User.as_str(), "user");
    assert_eq!(Role::Assistant.as_str(), "assistant");
    assert_eq!(Role::User.to_string(), "user");
    assert_eq!(Role::Assistant.to_string(), "assistant");
}

#[test]
fn bearer_carries_the_api_key() {
    let config = OpenAIConfig {
        endpoint: "https://api.example/v1/chat/completions".to_string(),
        api_key: "SECRET-REDACTED".to_string(),
        model: "m".to_string(),
    };
    assert_eq!(config.bearer(), "Bearer SECRET-REDACTED");
}

#[test]
fn text_turn_has_no_tool_calls() {
    assert_eq!(
        OpenAIMessage::text(Role::Assistant, "Hi!".to_string()),
        OpenAIMessage {
            role: "assistant".to_string(),
            content: Some(MessageContent::Text("Hi!".to_string())),
            tool_calls: Vec::new(),
        }
    );
}

#[test]
fn text_turn_is_written_without_tool_calls() {
    let turn = OpenAIMessage::text(Role::User, "Hello".to_string());
    assert_eq!(turn.to_json(), json("{\"role\":\"user\",\"content\":\"Hello\"}"));
}

#[test]
fn turn_without_content_is_written_with_null() {
    let turn = OpenAIMessage { role: "assistant".to_string(), content: None, tool_calls: vec![tool_call()] };
    assert_eq!(
        turn.to_json(),
        json("{\"role\":\"assistant\",\"content\":null,\"tool_calls\":[{\"id\":\"call_1\",\"type\":\"function\",\"function\":{\"name\":\"fetch_url\",\"arguments\":\"{\\\"url\\\":\\\"https://x\\\"}\"}}]}")
    );
}

#[test]
fn image_turn_is_written_as_a_list() {
    let turn = OpenAIMessage {
        role: "user".to_string(),
        content: Some(MessageContent::Images(vec![OpenAIImageContent {
            kind: "image_url".to_string(),
            image_url: ImageUrl { url: "https://x/".to_string() },
        }])),
        tool_calls: Vec::new(),
    };
    assert_eq!(
        turn.to_json(),
        json("{\"role\":\"user\",\"content\":[{\"type\":\"image_url\",\"image_url\":{\"url\":\"https://x/\"}}]}")
    );
}

#[test]
fn turns_survive_the_way_out_and_back() {
    let turns = vec![
        OpenAIMessage::text(Role::User, "Hello".to_string()),
        OpenAIMessage { role: "assistant".to_string(), content: None, tool_calls: vec![tool_call()] },
        OpenAIMessage {
            role: "user".to_string(),
            content: Some(MessageContent::Images(vec![OpenAIImageContent {
                kind: "image_url".to_string(),
                image_url: ImageUrl { url: "https://x/".to_string() },
            }])),
            tool_calls: Vec::new(),
        },
    ];
    for turn in &turns {
        assert_eq!(OpenAIMessage::from_json(&turn.to_json()).as_ref(), Some(turn));
    }
    assert_eq!(
        messages_to_json(&turns),
        Json::Array(turns.iter().map(|turn| turn.to_json()).collect())
    );
}

#[test]
fn request_lists_model_turns_and_tools() {
    let turns = vec![OpenAIMessage::text(Role::User, "Hello".to_string())];
    let tools = vec![json("{\"type\":\"function\"}")];
    assert_eq!(
        request_to_json("gpt", &turns, tools),
        json("{\"model\":\"gpt\",\"messages\":[{\"role\":\"user\",\"content\":\"Hello\"}],\"tools\":[{\"type\":\"function\"}]}")
    );
}

#[test]
fn message_is_read_with_its_defaults() {
    assert_eq!(
        OpenAIMessage::from_json(&json("{\"role\":\"assistant\"}")),
        Some(OpenAIMessage { role: "assistant".to_string(), content: None, tool_calls: Vec::new() })
    );
    assert_eq!(
        OpenAIMessage::from_json(&json("{\"role\":\"assistant\",\"content\":null,\"tool_calls\":[]}")),
        Some(OpenAIMessage { role: "assistant".to_string(), content: None, tool_calls: Vec::new() })
    );
    assert_eq!(
        OpenAIMessage::from_json(&json("{\"role\":\"assistant\",\"content\":\"Hi!\",\"refusal\":null}")),
        Some(OpenAIMessage::text(Role::Assistant, "Hi!".to_string()))
    );
}

#[test]
fn message_of_another_shape_is_not_read() {
    assert_eq!(OpenAIMessage::from_json(&json("{\"content\":\"Hi!\"}")), None);
    assert_eq!(OpenAIMessage::from_json(&json("{\"role\":1,\"content\":\"Hi!\"}")), None);
    assert_eq!(OpenAIMessage::from_json(&json("{\"role\":\"user\",\"content\":7}")), None);
    assert_eq!(OpenAIMessage::from_json(&json("{\"role\":\"user\",\"content\":[{\"type\":\"x\"}]}")), None);
    assert_eq!(OpenAIMessage::from_json(&json("{\"role\":\"user\",\"tool_calls\":null}")), None);
    assert_eq!(OpenAIMessage::from_json(&json("{\"role\":\"user\",\"tool_calls\":[{\"id\":\"a\"}]}")), None);
    assert_eq!(OpenAIMessage::from_json(&json("[\"user\", \"Hi!\"]")), None);
}

#[test]
fn tool_call_and_image_are_read_member_by_member() {
    assert_eq!(
        ToolCall::from_json(&json("{\"id\":\"call_1\",\"type\":\"function\",\"function\":{\"name\":\"fetch_url\",\"arguments\":\"{\\\"url\\\":\\\"https://x\\\"}\"}}")),
        Some(tool_call())
    );
    assert_eq!(ToolCall::from_json(&json("{\"id\":\"call_1\",\"type\":\"function\",\"function\":{\"name\":\"f\"}}")), None);
    assert_eq!(ToolCall::from_json(&json("{\"id\":\"call_1\",\"function\":{\"name\":\"f\",\"arguments\":\"\"}}")), None);
    assert_eq!(
        OpenAIImageContent::from_json(&json("{\"type\":\"image_url\",\"image_url\":{\"url\":\"u\"}}")),
        Some(OpenAIImageContent { kind: "image_url".to_string(), image_url: ImageUrl { url: "u".to_string() } })
    );
    assert_eq!(OpenAIImageContent::from_json(&json("{\"type\":\"image_url\",\"image_url\":\"u\"}")), None);
    assert_eq!(
        tool_call().to_json(),
        json("{\"id\":\"call_1\",\"type\":\"function\",\"function\":{\"name\":\"fetch_url\",\"arguments\":\"{\\\"url\\\":\\\"https://x\\\"}\"}}")
    );
}

#[test]
fn response_is_read() {
    let response = OpenAIResponse::from_json(&json(
        "{\"id\":\"c1\",\"object\":\"chat.completion\",\"created\":1700000000,\"model\":\"gpt\",\"choices\":[{\"index\":0,\"message\":{\"role\":\"assistant\",\"content\":\"Hi!\"},\"finish_reason\":\"stop\"}]}",
    ))
    .unwrap();
    assert_eq!(response.object, "chat.completion");
    assert_eq!(response.created, 1700000000);
    assert_eq!(response.model, "gpt");
    assert_eq!(response.choices.len(), 1);
    assert_eq!(response.choices[0].index, 0);
    assert_eq!(response.choices[0].message, OpenAIMessage::text(Role::Assistant, "Hi!".to_string()));
}

#[test]
fn response_numbers_must_fit() {
    let read = |created: &str, index: &str| {
        OpenAIResponse::from_json(&json(&format!(
            "{{\"object\":\"o\",\"created\":{},\"model\":\"m\",\"choices\":[{{\"index\":{},\"message\":{{\"role\":\"assistant\"}}}}]}}",
            created, index
        )))
        .map(|response| (response.created, response.choices[0].index))
    };
    assert_eq!(read("4294967295", "65535"), Ok((u32::MAX, u16::MAX)));
    assert_eq!(read("4294967296", "0"), Err(ShapeError));
    assert_eq!(read("0", "65536"), Err(ShapeError));
    assert_eq!(read("-1", "0"), Err(ShapeError));
    assert_eq!(read("1.0", "0"), Err(ShapeError));
    assert_eq!(read("\"1\"", "0"), Err(ShapeError));
}

#[test]
fn response_of_another_shape_is_refused() {
    let refused = |text: &str| assert!(OpenAIResponse::from_json(&json(text)).is_err(), "{}", text);
    refused("{\"choices\":[{\"message\":{\"role\":\"assistant\",\"content\":\"Hi!\"}}]}");
    refused("{\"object\":\"o\",\"created\":1,\"model\":\"m\"}");
    refused("{\"object\":\"o\",\"created\":1,\"model\":\"m\",\"choices\":{}}");
    refused("{\"object\":\"o\",\"created\":1,\"model\":\"m\",\"choices\":[{\"index\":0}]}");
    refused("{\"object\":\"o\",\"created\":1,\"model\":\"m\",\"choices\":[{\"message\":{\"role\":\"a\"}}]}");
    refused("{\"object\":\"o\",\"created\":1,\"model\":\"m\",\"choices\":[{\"index\":0,\"message\":{}}]}");
    refused("{\"error\":{\"message\":\"bad key\"}}");
    refused("[]");
}

#[test]
fn choice_is_read() {
    let choice = OpenAIChoice::from_json(&json("{\"index\":3,\"message\":{\"role\":\"assistant\",\"content\":\"x\"}}")).unwrap();
    assert_eq!(choice.index, 3);
    assert_eq!(choice.message, OpenAIMessage::text(Role::Assistant, "x".to_string()));
    assert!(OpenAIChoice::from_json(&json("{\"index\":3}")).is_none());
}
