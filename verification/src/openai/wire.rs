//! The JSON shapes of turns, requests and responses.

use crate::json::{find_from, member_views, views, Json, JsonView};
use crate::openai::tools::{FunctionCall, ToolCall, ToolCallView};
use crate::openai::{
    call_views, choice_views, image_views, message_views, ChoiceView, ContentView, ImageUrl,
    ImageView, MessageContent, MessageView, OpenAIChoice, OpenAIImageContent, OpenAIMessage,
    OpenAIResponse, ResponseView,
};
use vstd::prelude::*;

verus! {

/// A response that does not have the shape of a completion.
#[derive(Debug, Clone, Copy, PartialEq, Eq)]
pub struct ShapeError;

/// The JSON of an image reference.
pub open spec fn image_json(image: ImageView) -> JsonView {
    JsonView::Object(
        seq![
            ("image_url"@, JsonView::Object(seq![("url"@, JsonView::Text(image.url))])),
            ("type"@, JsonView::Text(image.kind)),
        ],
    )
}

/// The JSON of a tool call.
pub open spec fn call_json(call: ToolCallView) -> JsonView {
    JsonView::Object(
        seq![
            (
                "function"@,
                JsonView::Object(
                    seq![
                        ("arguments"@, JsonView::Text(call.arguments)),
                        ("name"@, JsonView::Text(call.name)),
                    ],
                ),
            ),
            ("id"@, JsonView::Text(call.id)),
            ("type"@, JsonView::Text(call.kind)),
        ],
    )
}

/// The JSON of what a turn says.
pub open spec fn content_json(content: Option<ContentView>) -> JsonView {
    match content {
        None => JsonView::Null,
        Some(ContentView::Text(text)) => JsonView::Text(text),
        Some(ContentView::Images(images)) => JsonView::Array(
            Seq::new(images.len(), |i: int| image_json(images[i])),
        ),
    }
}

/// The JSON of a turn: its content and role, and its tool calls where it has
/// any.
pub open spec fn message_json(message: MessageView) -> JsonView {
    let fixed = seq![("content"@, content_json(message.content)), ("role"@, JsonView::Text(message.role))];
    if message.tool_calls.len() == 0 {
        JsonView::Object(fixed)
    } else {
        JsonView::Object(
            fixed.push(
                (
                    "tool_calls"@,
                    JsonView::Array(
                        Seq::new(
                            message.tool_calls.len(),
                            |i: int| call_json(message.tool_calls[i]),
                        ),
                    ),
                ),
            ),
        )
    }
}

/// The JSON of a request to the completion backend.
pub open spec fn request_json(
    model: Seq<char>,
    messages: Seq<MessageView>,
    tools: Seq<JsonView>,
) -> JsonView {
    JsonView::Object(
        seq![
            (
                "messages"@,
                JsonView::Array(Seq::new(messages.len(), |i: int| message_json(messages[i]))),
            ),
            ("model"@, JsonView::Text(model)),
            ("tools"@, JsonView::Array(tools)),
        ],
    )
}

/// The text under `key`, where the value has one.
pub open spec fn text_at(json: JsonView, key: Seq<char>) -> Option<Seq<char>> {
    match json.get(key) {
        Some(JsonView::Text(text)) => Some(text),
        _ => None,
    }
}

/// The image reference that a JSON value stands for.
pub open spec fn image_of(json: JsonView) -> Option<ImageView> {
    match (text_at(json, "type"@), json.get("image_url"@)) {
        (Some(kind), Some(address)) => match text_at(address, "url"@) {
            Some(url) => Some(ImageView { kind, url }),
            None => None,
        },
        _ => None,
    }
}

/// The tool call that a JSON value stands for.
pub open spec fn call_of(json: JsonView) -> Option<ToolCallView> {
    match (text_at(json, "id"@), text_at(json, "type"@), json.get("function"@)) {
        (Some(id), Some(kind), Some(function)) => match (
            text_at(function, "name"@),
            text_at(function, "arguments"@),
        ) {
            (Some(name), Some(arguments)) => Some(ToolCallView { id, kind, name, arguments }),
            _ => None,
        },
        _ => None,
    }
}

/// The image references that a list of JSON values stands for, where each
/// stands for one.
pub open spec fn images_of(items: Seq<JsonView>) -> Option<Seq<ImageView>> {
    if forall|i: int| 0 <= i < items.len() ==> (#[trigger] image_of(items[i])) is Some {
        Some(Seq::new(items.len(), |i: int| image_of(items[i])->0))
    } else {
        None
    }
}

/// The tool calls that a list of JSON values stands for, where each stands
/// for one.
pub open spec fn calls_of(items: Seq<JsonView>) -> Option<Seq<ToolCallView>> {
    if forall|i: int| 0 <= i < items.len() ==> (#[trigger] call_of(items[i])) is Some {
        Some(Seq::new(items.len(), |i: int| call_of(items[i])->0))
    } else {
        None
    }
}

/// What the member `content` of a turn stands for: nothing where it is
/// absent or null, a text, or a list of image references.
pub open spec fn content_of(json: Option<JsonView>) -> Option<Option<ContentView>> {
    match json {
        None => Some(None),
        Some(JsonView::Null) => Some(None),
        Some(JsonView::Text(text)) => Some(Some(ContentView::Text(text))),
        Some(JsonView::Array(items)) => match images_of(items) {
            Some(images) => Some(Some(ContentView::Images(images))),
            None => None,
        },
        Some(_) => None,
    }
}

/// What the member `tool_calls` of a turn stands for: no call where it is
/// absent, and the calls of an array.
pub open spec fn tool_calls_of(json: Option<JsonView>) -> Option<Seq<ToolCallView>> {
    match json {
        None => Some(Seq::empty()),
        Some(JsonView::Array(items)) => calls_of(items),
        Some(_) => None,
    }
}

/// The turn that a JSON value stands for.
pub open spec fn message_of(json: JsonView) -> Option<MessageView> {
    match (
        text_at(json, "role"@),
        content_of(json.get("content"@)),
        tool_calls_of(json.get("tool_calls"@)),
    ) {
        (Some(role), Some(content), Some(tool_calls)) => Some(
            MessageView { role, content, tool_calls },
        ),
        _ => None,
    }
}

/// The number under `key`, where it is an integer from 0 to `max`.
pub open spec fn number_at(json: JsonView, key: Seq<char>, max: u64) -> Option<u64> {
    match json.get(key) {
        Some(JsonView::Unsigned(n)) => if n <= max {
            Some(n)
        } else {
            None
        },
        _ => None,
    }
}

/// The choice that a JSON value stands for.
pub open spec fn choice_of(json: JsonView) -> Option<ChoiceView> {
    match (number_at(json, "index"@, 0xffff), json.get("message"@)) {
        (Some(index), Some(message)) => match message_of(message) {
            Some(message) => Some(ChoiceView { index: index as u16, message }),
            None => None,
        },
        _ => None,
    }
}

/// The choices that a list of JSON values stands for, where each stands for
/// one.
pub open spec fn choices_of(items: Seq<JsonView>) -> Option<Seq<ChoiceView>> {
    if forall|i: int| 0 <= i < items.len() ==> (#[trigger] choice_of(items[i])) is Some {
        Some(Seq::new(items.len(), |i: int| choice_of(items[i])->0))
    } else {
        None
    }
}

/// The response that a JSON value stands for.
pub open spec fn response_of(json: JsonView) -> Option<ResponseView> {
    match (
        text_at(json, "object"@),
        number_at(json, "created"@, 0xffff_ffff),
        text_at(json, "model"@),
        json.get("choices"@),
    ) {
        (Some(object), Some(created), Some(model), Some(JsonView::Array(items))) => match choices_of(
            items,
        ) {
            Some(choices) => Some(ResponseView { object, created: created as u32, model, choices }),
            None => None,
        },
        _ => None,
    }
}

/// An image reference that was written is read back as it was.
pub proof fn lemma_image_round_trip(image: ImageView)
    ensures
        image_of(image_json(image)) == Some(image),
{
    reveal_strlit("image_url");
    reveal_strlit("type");
    reveal_strlit("url");
    reveal_with_fuel(find_from, 3);
    assert("type"@.len() != "image_url"@.len());
}

/// A tool call that was written is read back as it was.
pub proof fn lemma_call_round_trip(call: ToolCallView)
    ensures
        call_of(call_json(call)) == Some(call),
{
    reveal_strlit("function");
    reveal_strlit("id");
    reveal_strlit("type");
    reveal_strlit("arguments");
    reveal_strlit("name");
    reveal_with_fuel(find_from, 4);
    assert("id"@.len() != "function"@.len());
    assert("type"@.len() != "function"@.len());
    assert("type"@.len() != "id"@.len());
    assert("name"@.len() != "arguments"@.len());
}

/// A turn that was written is read back as it was.
pub proof fn lemma_message_round_trip(message: MessageView)
    ensures
        message_of(message_json(message)) == Some(message),
{
    reveal_strlit("content");
    reveal_strlit("role");
    reveal_strlit("tool_calls");
    reveal_with_fuel(find_from, 4);
    assert("role"@.len() != "content"@.len());
    assert("tool_calls"@.len() != "content"@.len());
    assert("tool_calls"@.len() != "role"@.len());
    let json = message_json(message);
    assert(text_at(json, "role"@) == Some(message.role));
    assert(json.get("content"@) == Some(content_json(message.content)));
    match message.content {
        Some(ContentView::Images(images)) => {
            let items = Seq::new(images.len(), |i: int| image_json(images[i]));
            assert forall|i: int| 0 <= i < items.len() implies (#[trigger] image_of(items[i]))
                == Some(images[i]) by {
                lemma_image_round_trip(images[i]);
            }
            assert(images_of(items)->0 =~= images);
        },
        _ => {},
    }
    assert(content_of(json.get("content"@)) == Some(message.content));
    if message.tool_calls.len() > 0 {
        let items = Seq::new(message.tool_calls.len(), |i: int| call_json(message.tool_calls[i]));
        assert(json.get("tool_calls"@) == Some(JsonView::Array(items)));
        assert forall|i: int| 0 <= i < items.len() implies (#[trigger] call_of(items[i])) == Some(
            message.tool_calls[i],
        ) by {
            lemma_call_round_trip(message.tool_calls[i]);
        }
        assert(calls_of(items)->0 =~= message.tool_calls);
    } else {
        assert(json.get("tool_calls"@) is None);
        assert(message.tool_calls =~= Seq::empty());
    }
}

/// The text under `key`, as an owned text.
fn read_text(json: &Json, key: &str) -> (r: Option<String>)
    ensures
        match r {
            Some(text) => text_at(json@, key@) == Some(text@),
            None => text_at(json@, key@) is None,
        },
{
    match json.get(key) {
        Some(value) => match value.as_str() {
            Some(text) => Some(text.to_owned()),
            None => None,
        },
        None => None,
    }
}

/// The number under `key`, where it is an integer from 0 to `max`.
fn read_number(json: &Json, key: &str, max: u64) -> (r: Option<u64>)
    ensures
        r == number_at(json@, key@, max),
{
    match json.get(key) {
        Some(value) => match value.as_u64() {
            Some(n) => if n <= max {
                Some(n)
            } else {
                None
            },
            None => None,
        },
        None => None,
    }
}

impl OpenAIImageContent {
    /// The JSON of this image reference.
    pub fn to_json(&self) -> (r: Json)
        ensures
            r@ == image_json(self@),
    {
        let mut address: Vec<(String, Json)> = Vec::new();
        address.push(("url".to_owned(), Json::text(self.image_url.url.as_str())));
        let address_json = Json::object(address);
        let mut members: Vec<(String, Json)> = Vec::new();
        members.push(("image_url".to_owned(), address_json));
        members.push(("type".to_owned(), Json::text(self.kind.as_str())));
        proof {
            assert(member_views(address@) =~= seq![("url"@, JsonView::Text(self@.url))]);
            assert(member_views(members@) =~= seq![
                ("image_url"@, address_json@),
                ("type"@, JsonView::Text(self@.kind)),
            ]);
        }
        Json::object(members)
    }

    /// The image reference that a JSON value stands for.
    pub fn from_json(json: &Json) -> (r: Option<OpenAIImageContent>)
        ensures
            match r {
                Some(image) => image_of(json@) == Some(image@),
                None => image_of(json@) is None,
            },
    {
        let kind = match read_text(json, "type") {
            Some(kind) => kind,
            None => return None,
        };
        let address = match json.get("image_url") {
            Some(address) => address,
            None => return None,
        };
        match read_text(address, "url") {
            Some(url) => Some(OpenAIImageContent { kind, image_url: ImageUrl { url } }),
            None => None,
        }
    }
}

impl ToolCall {
    /// The JSON of this call.
    pub fn to_json(&self) -> (r: Json)
        ensures
            r@ == call_json(self@),
    {
        let mut function: Vec<(String, Json)> = Vec::new();
        function.push(("arguments".to_owned(), Json::text(self.function.arguments.as_str())));
        function.push(("name".to_owned(), Json::text(self.function.name.as_str())));
        let function_json = Json::object(function);
        let mut members: Vec<(String, Json)> = Vec::new();
        members.push(("function".to_owned(), function_json));
        members.push(("id".to_owned(), Json::text(self.id.as_str())));
        members.push(("type".to_owned(), Json::text(self.kind.as_str())));
        proof {
            assert(member_views(function@) =~= seq![
                ("arguments"@, JsonView::Text(self@.arguments)),
                ("name"@, JsonView::Text(self@.name)),
            ]);
            assert(member_views(members@) =~= seq![
                ("function"@, function_json@),
                ("id"@, JsonView::Text(self@.id)),
                ("type"@, JsonView::Text(self@.kind)),
            ]);
        }
        Json::object(members)
    }

    /// The tool call that a JSON value stands for.
    pub fn from_json(json: &Json) -> (r: Option<ToolCall>)
        ensures
            match r {
                Some(call) => call_of(json@) == Some(call@),
                None => call_of(json@) is None,
            },
    {
        let id = match read_text(json, "id") {
            Some(id) => id,
            None => return None,
        };
        let kind = match read_text(json, "type") {
            Some(kind) => kind,
            None => return None,
        };
        let function = match json.get("function") {
            Some(function) => function,
            None => return None,
        };
        let name = match read_text(function, "name") {
            Some(name) => name,
            None => return None,
        };
        match read_text(function, "arguments") {
            Some(arguments) => Some(ToolCall { id, kind, function: FunctionCall { name, arguments } }),
            None => None,
        }
    }
}

/// The JSON of a list of image references.
fn images_to_json(images: &Vec<OpenAIImageContent>) -> (r: Json)
    ensures
        r@ == JsonView::Array(
            Seq::new(images@.len(), |i: int| image_json(image_views(images@)[i])),
        ),
{
    let mut items: Vec<Json> = Vec::new();
    let mut i: usize = 0;
    while i < images.len()
        invariant
            0 <= i <= images.len(),
            items.len() == i,
            forall|k: int| 0 <= k < i ==> (#[trigger] items[k])@ == image_json(images[k]@),
        decreases images.len() - i,
    {
        items.push(images[i].to_json());
        i += 1;
    }
    proof {
        assert(views(items@) =~= Seq::new(
            images@.len(),
            |i: int| image_json(image_views(images@)[i]),
        ));
    }
    Json::array(items)
}

/// The JSON of a list of tool calls.
fn calls_to_json(calls: &Vec<ToolCall>) -> (r: Json)
    ensures
        r@ == JsonView::Array(Seq::new(calls@.len(), |i: int| call_json(call_views(calls@)[i]))),
{
    let mut items: Vec<Json> = Vec::new();
    let mut i: usize = 0;
    while i < calls.len()
        invariant
            0 <= i <= calls.len(),
            items.len() == i,
            forall|k: int| 0 <= k < i ==> (#[trigger] items[k])@ == call_json(calls[k]@),
        decreases calls.len() - i,
    {
        items.push(calls[i].to_json());
        i += 1;
    }
    proof {
        assert(views(items@) =~= Seq::new(
            calls@.len(),
            |i: int| call_json(call_views(calls@)[i]),
        ));
    }
    Json::array(items)
}

/// The image references that a list of JSON values stands for.
fn images_from_json(items: &Vec<Json>) -> (r: Option<Vec<OpenAIImageContent>>)
    ensures
        match r {
            Some(images) => images_of(views(items@)) == Some(image_views(images@)),
            None => images_of(views(items@)) is None,
        },
{
    let mut images: Vec<OpenAIImageContent> = Vec::new();
    let mut i: usize = 0;
    while i < items.len()
        invariant
            0 <= i <= items.len(),
            images.len() == i,
            forall|k: int|
                0 <= k < i ==> image_of(#[trigger] views(items@)[k]) == Some(images[k]@),
        decreases items.len() - i,
    {
        match OpenAIImageContent::from_json(&items[i]) {
            Some(image) => images.push(image),
            None => {
                assert(image_of(views(items@)[i as int]) is None);
                return None;
            },
        }
        i += 1;
    }
    proof {
        assert(image_views(images@) =~= Seq::new(
            items@.len(),
            |i: int| image_of(views(items@)[i])->0,
        ));
    }
    Some(images)
}

/// The tool calls that a list of JSON values stands for.
fn calls_from_json(items: &Vec<Json>) -> (r: Option<Vec<ToolCall>>)
    ensures
        match r {
            Some(calls) => calls_of(views(items@)) == Some(call_views(calls@)),
            None => calls_of(views(items@)) is None,
        },
{
    let mut calls: Vec<ToolCall> = Vec::new();
    let mut i: usize = 0;
    while i < items.len()
        invariant
            0 <= i <= items.len(),
            calls.len() == i,
            forall|k: int| 0 <= k < i ==> call_of(#[trigger] views(items@)[k]) == Some(calls[k]@),
        decreases items.len() - i,
    {
        match ToolCall::from_json(&items[i]) {
            Some(call) => calls.push(call),
            None => {
                assert(call_of(views(items@)[i as int]) is None);
                return None;
            },
        }
        i += 1;
    }
    proof {
        assert(call_views(calls@) =~= Seq::new(
            items@.len(),
            |i: int| call_of(views(items@)[i])->0,
        ));
    }
    Some(calls)
}

impl OpenAIMessage {
    /// The JSON of this turn.
    pub fn to_json(&self) -> (r: Json)
        ensures
            r@ == message_json(self@),
    {
        let content = match &self.content {
            None => Json::Null,
            Some(MessageContent::Text(text)) => Json::text(text.as_str()),
            Some(MessageContent::Images(images)) => images_to_json(images),
        };
        let mut members: Vec<(String, Json)> = Vec::new();
        members.push(("content".to_owned(), content));
        members.push(("role".to_owned(), Json::text(self.role.as_str())));
        let ghost fixed = seq![
            ("content"@, content_json(self@.content)),
            ("role"@, JsonView::Text(self@.role)),
        ];
        assert(member_views(members@) =~= fixed);
        if self.tool_calls.len() > 0 {
            let calls = calls_to_json(&self.tool_calls);
            members.push(("tool_calls".to_owned(), calls));
            assert(member_views(members@) =~= fixed.push(("tool_calls"@, calls@)));
        }
        Json::object(members)
    }

    /// The turn that a JSON value stands for.
    pub fn from_json(json: &Json) -> (r: Option<OpenAIMessage>)
        ensures
            match r {
                Some(message) => message_of(json@) == Some(message@),
                None => message_of(json@) is None,
            },
    {
        let role = match read_text(json, "role") {
            Some(role) => role,
            None => return None,
        };
        let content = match json.get("content") {
            None => None,
            Some(Json::Null) => None,
            Some(Json::Text(text)) => Some(MessageContent::Text(text.clone())),
            Some(Json::Array(items)) => {
                proof {
                    crate::json::lemma_array_view(*items);
                }
                match images_from_json(items) {
                    Some(images) => Some(MessageContent::Images(images)),
                    None => return None,
                }
            },
            Some(_) => return None,
        };
        let tool_calls = match json.get("tool_calls") {
            None => Vec::new(),
            Some(Json::Array(items)) => {
                proof {
                    crate::json::lemma_array_view(*items);
                }
                match calls_from_json(items) {
                    Some(calls) => calls,
                    None => return None,
                }
            },
            Some(_) => return None,
        };
        let message = OpenAIMessage { role, content, tool_calls };
        proof {
            if json@.get("tool_calls"@) is None {
                assert(message@.tool_calls =~= Seq::empty());
            }
        }
        Some(message)
    }
}

impl OpenAIChoice {
    /// The choice that a JSON value stands for.
    pub fn from_json(json: &Json) -> (r: Option<OpenAIChoice>)
        ensures
            match r {
                Some(choice) => choice_of(json@) == Some(choice@),
                None => choice_of(json@) is None,
            },
    {
        let index = match read_number(json, "index", 0xffff) {
            Some(index) => index,
            None => return None,
        };
        let message = match json.get("message") {
            Some(message) => message,
            None => return None,
        };
        match OpenAIMessage::from_json(message) {
            Some(message) => Some(OpenAIChoice { index: index as u16, message }),
            None => None,
        }
    }
}

/// The choices that a list of JSON values stands for.
fn choices_from_json(items: &Vec<Json>) -> (r: Option<Vec<OpenAIChoice>>)
    ensures
        match r {
            Some(choices) => choices_of(views(items@)) == Some(choice_views(choices@)),
            None => choices_of(views(items@)) is None,
        },
{
    let mut choices: Vec<OpenAIChoice> = Vec::new();
    let mut i: usize = 0;
    while i < items.len()
        invariant
            0 <= i <= items.len(),
            choices.len() == i,
            forall|k: int|
                0 <= k < i ==> choice_of(#[trigger] views(items@)[k]) == Some(choices[k]@),
        decreases items.len() - i,
    {
        match OpenAIChoice::from_json(&items[i]) {
            Some(choice) => choices.push(choice),
            None => {
                assert(choice_of(views(items@)[i as int]) is None);
                return None;
            },
        }
        i += 1;
    }
    proof {
        assert(choice_views(choices@) =~= Seq::new(
            items@.len(),
            |i: int| choice_of(views(items@)[i])->0,
        ));
    }
    Some(choices)
}

impl OpenAIResponse {
    /// The response that a JSON value stands for, or the error where it has
    /// not the shape of one.
    pub fn from_json(json: &Json) -> (r: Result<OpenAIResponse, ShapeError>)
        ensures
            match r {
                Ok(response) => response_of(json@) == Some(response@),
                Err(_) => response_of(json@) is None,
            },
    {
        let object = match read_text(json, "object") {
            Some(object) => object,
            None => return Err(ShapeError),
        };
        let created = match read_number(json, "created", 0xffff_ffff) {
            Some(created) => created,
            None => return Err(ShapeError),
        };
        let model = match read_text(json, "model") {
            Some(model) => model,
            None => return Err(ShapeError),
        };
        let items = match json.get("choices") {
            Some(Json::Array(items)) => {
                proof {
                    crate::json::lemma_array_view(*items);
                }
                items
            },
            _ => return Err(ShapeError),
        };
        match choices_from_json(items) {
            Some(choices) => Ok(OpenAIResponse { object, created: created as u32, model, choices }),
            None => Err(ShapeError),
        }
    }
}

/// The JSON of a list of turns.
pub fn messages_to_json(messages: &Vec<OpenAIMessage>) -> (r: Json)
    ensures
        r@ == JsonView::Array(
            Seq::new(messages@.len(), |i: int| message_json(message_views(messages@)[i])),
        ),
{
    let mut items: Vec<Json> = Vec::new();
    let mut i: usize = 0;
    while i < messages.len()
        invariant
            0 <= i <= messages.len(),
            items.len() == i,
            forall|k: int| 0 <= k < i ==> (#[trigger] items[k])@ == message_json(messages[k]@),
        decreases messages.len() - i,
    {
        items.push(messages[i].to_json());
        i += 1;
    }
    proof {
        assert(views(items@) =~= Seq::new(
            messages@.len(),
            |i: int| message_json(message_views(messages@)[i]),
        ));
    }
    Json::array(items)
}

/// The JSON of a request to the completion backend.
pub fn request_to_json(model: &str, messages: &Vec<OpenAIMessage>, tools: Vec<Json>) -> (r: Json)
    ensures
        r@ == request_json(model@, message_views(messages@), views(tools@)),
{
    let listed = messages_to_json(messages);
    let tools_json = Json::array(tools);
    let mut members: Vec<(String, Json)> = Vec::new();
    members.push(("messages".to_owned(), listed));
    members.push(("model".to_owned(), Json::text(model)));
    members.push(("tools".to_owned(), tools_json));
    proof {
        assert(listed@->Array_0 =~= Seq::new(
            message_views(messages@).len(),
            |i: int| message_json(message_views(messages@)[i]),
        ));
        assert(member_views(members@) =~= seq![
            ("messages"@, listed@),
            ("model"@, JsonView::Text(model@)),
            ("tools"@, tools_json@),
        ]);
    }
    Json::object(members)
}

} // verus!
