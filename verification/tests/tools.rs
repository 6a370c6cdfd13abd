use matrix_openai_bot::json::Json;
use matrix_openai_bot::openai::tools::{
    fetch_url, FunctionCall, SchemaError, Tool, ToolCall, ToolError,
};
use matrix_openai_bot::openai::{ImageUrl, MessageContent, OpenAIImageContent, OpenAIMessage};

fn call(name: &str, arguments: &str) -> ToolCall {
    ToolCall {
        id: "call_1".to_string(),
        kind: "function".to_string(),
        function: FunctionCall { name: name.to_string(), arguments: arguments.to_string() },
    }
}

fn image_turn(url: &str) -> OpenAIMessage {
    OpenAIMessage {
        role: "user".to_string(),
        content: Some(MessageContent::Images(vec![OpenAIImageContent {
            kind: "image_url".to_string(),
            image_url: ImageUrl { url: url.to_string() },
        }])),
        tool_calls: Vec::new(),
    }
}

const ROOT: &str = "{\"$schema\":\"https://json-schema.org/draft/2020-12/schema\",\"title\":\"Tool\",\"oneOf\":[{\"description\":\"Fetch the contents of a URL and return HTML or image metadata.\",\"type\":\"object\",\"properties\":{\"name\":{\"type\":\"string\",\"const\":\"fetch_url\"},\"arguments\":{\"type\":\"object\",\"properties\":{\"url\":{\"type\":\"string\"}},\"required\":[\"url\"]}},\"required\":[\"name\",\"arguments\"]}]}";

#[test]
fn tool_call_parses_to_fetch_url() {
    let tool = Tool::try_from(&call("fetch_url", "{\"url\":\"https://x\"}"));
    assert_eq!(tool, Ok(Tool::FetchUrl { url: "https://x".to_string() }));
}

#[test]
fn tool_call_may_carry_more_than_the_tool_reads() {
    let tool = Tool::try_from(&call("fetch_url", "{\"depth\": 2, \"url\": \"https://x/y\"}"));
    assert_eq!(tool, Ok(Tool::FetchUrl { url: "https://x/y".to_string() }));
}

#[test]
fn tool_call_with_arguments_that_are_no_json_is_refused() {
    assert_eq!(Tool::try_from(&call("fetch_url", "{\"url\":")), Err(ToolError::Syntax));
    assert_eq!(Tool::try_from(&call("fetch_url", "")), Err(ToolError::Syntax));
    assert_eq!(Tool::try_from(&call("other", "not json")), Err(ToolError::Syntax));
}

#[test]
fn tool_call_of_an_unknown_tool_is_refused() {
    assert_eq!(
        Tool::try_from(&call("run_shell", "{\"url\":\"https://x\"}")),
        Err(ToolError::UnknownTool)
    );
    assert_eq!(Tool::try_from(&call("", "{}")), Err(ToolError::UnknownTool));
}

#[test]
fn tool_call_with_arguments_of_another_shape_is_refused() {
    assert_eq!(Tool::try_from(&call("fetch_url", "{}")), Err(ToolError::Arguments));
    assert_eq!(Tool::try_from(&call("fetch_url", "{\"url\": 1}")), Err(ToolError::Arguments));
    assert_eq!(Tool::try_from(&call("fetch_url", "{\"uri\": \"https://x\"}")), Err(ToolError::Arguments));
    assert_eq!(Tool::try_from(&call("fetch_url", "\"https://x\"")), Err(ToolError::Arguments));
    assert_eq!(Tool::try_from(&call("fetch_url", "null")), Err(ToolError::Arguments));
}

#[test]
fn decode_reads_a_tool_from_decoded_arguments() {
    let arguments = Json::Object(vec![("url".to_string(), Json::Text("https://x".to_string()))]);
    assert_eq!(
        Tool::decode("fetch_url", &arguments),
        Ok(Tool::FetchUrl { url: "https://x".to_string() })
    );
    assert_eq!(Tool::decode("fetch", &arguments), Err(ToolError::UnknownTool));
    assert_eq!(Tool::decode("fetch_url", &Json::Null), Err(ToolError::Arguments));
}

#[test]
fn running_fetch_url_gives_an_image_turn_of_the_user() {
    let tool = Tool::FetchUrl { url: "https://x".to_string() };
    assert_eq!(tool.run(), Ok(image_turn("https://x/")));
}

#[test]
fn running_fetch_url_normalises_the_address() {
    let tool = Tool::FetchUrl { url: "HTTPS://Example.COM:443/a/../b?q=1#f".to_string() };
    assert_eq!(tool.run(), Ok(image_turn("https://example.com/b?q=1#f")));
}

#[test]
fn running_fetch_url_on_what_is_no_url_fails() {
    assert_eq!(Tool::FetchUrl { url: "not a url".to_string() }.run(), Err(ToolError::Url));
    assert_eq!(Tool::FetchUrl { url: "/relative/path".to_string() }.run(), Err(ToolError::Url));
    assert_eq!(Tool::FetchUrl { url: String::new() }.run(), Err(ToolError::Url));
}

#[test]
fn finish_packages_what_the_address_came_to() {
    let tool = Tool::FetchUrl { url: "https://x".to_string() };
    assert_eq!(tool.finish(Some("https://x/".to_string())), Ok(image_turn("https://x/")));
    assert_eq!(tool.finish(None), Err(ToolError::Url));
}

#[test]
fn fetch_url_packages_the_address_as_it_is() {
    assert_eq!(fetch_url("https://example.com/cat.png".to_string()), image_turn("https://example.com/cat.png"));
}

#[test]
fn scenario_tool_call_is_read_and_run() {
    let tool = Tool::try_from(&call("fetch_url", "{\"url\":\"https://x\"}")).unwrap();
    assert_eq!(tool, Tool::FetchUrl { url: "https://x".to_string() });
    let turn = tool.run().unwrap();
    assert_eq!(turn.role, "user");
    assert!(turn.tool_calls.is_empty());
    match turn.content {
        Some(MessageContent::Images(images)) => {
            assert_eq!(images.len(), 1);
            assert_eq!(images[0].kind, "image_url");
            assert_eq!(images[0].image_url.url, "https://x/");
        }
        other => panic!("{:?}", other),
    }
}

#[test]
fn schemas_advertise_each_variant() {
    let root = Json::parse(ROOT).unwrap();
    let expected = Json::parse(
        "{\"type\":\"function\",\"function\":{\"name\":\"fetch_url\",\"description\":\"Fetch the contents of a URL and return HTML or image metadata.\",\"parameters\":{\"type\":\"object\",\"properties\":{\"url\":{\"type\":\"string\"}},\"required\":[\"url\"]}}}",
    )
    .unwrap();
    assert_eq!(Tool::schemas(&root), Ok(vec![expected]));
}

#[test]
fn schemas_keep_the_order_of_the_variants() {
    let root = Json::parse(
        "{\"oneOf\":[{\"properties\":{\"name\":{\"const\":\"a\"},\"arguments\":{\"x\":1}}},{\"description\":\"second\",\"properties\":{\"name\":{\"const\":\"b\"},\"arguments\":null}}]}",
    )
    .unwrap();
    let first = Json::parse(
        "{\"function\":{\"description\":\"\",\"name\":\"a\",\"parameters\":{\"x\":1}},\"type\":\"function\"}",
    )
    .unwrap();
    let second = Json::parse(
        "{\"function\":{\"description\":\"second\",\"name\":\"b\",\"parameters\":null},\"type\":\"function\"}",
    )
    .unwrap();
    assert_eq!(Tool::schemas(&root), Ok(vec![first, second]));
}

#[test]
fn schemas_of_no_variant_are_none() {
    assert_eq!(Tool::schemas(&Json::parse("{\"oneOf\":[]}").unwrap()), Ok(vec![]));
}

#[test]
fn schemas_take_a_description_that_is_no_text_as_empty() {
    let root = Json::parse(
        "{\"oneOf\":[{\"description\":7,\"properties\":{\"name\":{\"const\":\"a\"},\"arguments\":{}}}]}",
    )
    .unwrap();
    let expected =
        Json::parse("{\"function\":{\"description\":\"\",\"name\":\"a\",\"parameters\":{}},\"type\":\"function\"}")
            .unwrap();
    assert_eq!(Tool::schemas(&root), Ok(vec![expected]));
}

#[test]
fn schemas_need_a_one_of_array() {
    assert_eq!(Tool::schemas(&Json::parse("{}").unwrap()), Err(SchemaError::OneOf));
    assert_eq!(Tool::schemas(&Json::parse("{\"oneOf\":{}}").unwrap()), Err(SchemaError::OneOf));
    assert_eq!(Tool::schemas(&Json::parse("[]").unwrap()), Err(SchemaError::OneOf));
}

#[test]
fn schemas_need_properties_in_each_variant() {
    let root = Json::parse("{\"oneOf\":[{\"type\":\"object\"}]}").unwrap();
    assert_eq!(Tool::schemas(&root), Err(SchemaError::Properties));
}

#[test]
fn schemas_need_a_name_in_each_variant() {
    let none = Json::parse("{\"oneOf\":[{\"properties\":{\"arguments\":{}}}]}").unwrap();
    assert_eq!(Tool::schemas(&none), Err(SchemaError::Name));
    let no_const = Json::parse("{\"oneOf\":[{\"properties\":{\"name\":{},\"arguments\":{}}}]}").unwrap();
    assert_eq!(Tool::schemas(&no_const), Err(SchemaError::Name));
    let number =
        Json::parse("{\"oneOf\":[{\"properties\":{\"name\":{\"const\":1},\"arguments\":{}}}]}").unwrap();
    assert_eq!(Tool::schemas(&number), Err(SchemaError::Name));
}

#[test]
fn schemas_need_arguments_in_each_variant() {
    let root = Json::parse("{\"oneOf\":[{\"properties\":{\"name\":{\"const\":\"a\"}}}]}").unwrap();
    assert_eq!(Tool::schemas(&root), Err(SchemaError::Arguments));
}

#[test]
fn schemas_report_the_first_variant_that_fails() {
    let root = Json::parse(
        "{\"oneOf\":[{\"properties\":{\"name\":{\"const\":\"a\"},\"arguments\":{}}},{\"properties\":{\"name\":{\"const\":\"b\"}}},{}]}",
    )
    .unwrap();
    assert_eq!(Tool::schemas(&root), Err(SchemaError::Arguments));
}

#[test]
fn schema_errors_have_their_messages() {
    assert_eq!(SchemaError::OneOf.as_str(), "Missing or invalid 'oneOf' in Tool schema");
    assert_eq!(SchemaError::Properties.as_str(), "Variant missing 'properties' field");
    assert_eq!(SchemaError::Name.as_str(), "Variant 'name.const' missing or not a string");
    assert_eq!(SchemaError::Arguments.as_str(), "Variant missing 'arguments' field");
}
