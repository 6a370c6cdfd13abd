//! The chat turn and the shapes exchanged with the completion backend.

use crate::openai::tools::{ToolCall, ToolCallView};
use vstd::prelude::*;
use vstd::string::StringExecFns;

pub mod conversation;
pub mod event;
pub mod scan;
pub mod store;
pub mod tools;
pub mod wire;

verus! {

/// The settings of the bot.
#[derive(Debug, Clone)]
pub struct Config {
    pub openai: OpenAIConfig,
}

/// Where the completion backend is, and how to address it.
#[derive(Debug, Clone)]
pub struct OpenAIConfig {
    pub endpoint: String,
    pub api_key: String,
    pub model: String,
}

/// One alternative of a completion.
#[derive(Debug)]
pub struct OpenAIChoice {
    pub index: u16,
    pub message: OpenAIMessage,
}

/// The answer of the completion backend.
#[derive(Debug)]
pub struct OpenAIResponse {
    pub object: String,
    pub created: u32,
    pub model: String,
    pub choices: Vec<OpenAIChoice>,
}

/// One chat turn.
#[derive(Debug, PartialEq, Eq)]
pub struct OpenAIMessage {
    pub role: String,
    pub content: Option<MessageContent>,
    pub tool_calls: Vec<ToolCall>,
}

/// One image reference inside a turn.
#[derive(Debug, PartialEq, Eq)]
pub struct OpenAIImageContent {
    pub kind: String,
    pub image_url: ImageUrl,
}

/// The address of an image.
#[derive(Debug, PartialEq, Eq)]
pub struct ImageUrl {
    pub url: String,
}

/// What a turn says: plain text, or a list of image references.
#[derive(Debug, PartialEq, Eq)]
pub enum MessageContent {
    Text(String),
    Images(Vec<OpenAIImageContent>),
}

/// Who speaks in a turn.
#[derive(Debug, Clone, Copy, PartialEq, Eq, Structural)]
pub enum Role {
    User,
    Assistant,
}

/// The mathematical value of an [`OpenAIImageContent`].
pub ghost struct ImageView {
    pub kind: Seq<char>,
    pub url: Seq<char>,
}

/// The mathematical value of a [`MessageContent`].
pub ghost enum ContentView {
    Text(Seq<char>),
    Images(Seq<ImageView>),
}

/// The mathematical value of an [`OpenAIMessage`].
pub ghost struct MessageView {
    pub role: Seq<char>,
    pub content: Option<ContentView>,
    pub tool_calls: Seq<ToolCallView>,
}

/// The mathematical value of an [`OpenAIChoice`].
pub ghost struct ChoiceView {
    pub index: u16,
    pub message: MessageView,
}

/// The mathematical value of an [`OpenAIResponse`].
pub ghost struct ResponseView {
    pub object: Seq<char>,
    pub created: u32,
    pub model: Seq<char>,
    pub choices: Seq<ChoiceView>,
}

impl View for ImageUrl {
    type V = Seq<char>;

    open spec fn view(&self) -> Seq<char> {
        self.url@
    }
}

impl View for OpenAIImageContent {
    type V = ImageView;

    open spec fn view(&self) -> ImageView {
        ImageView { kind: self.kind@, url: self.image_url@ }
    }
}

/// The views of a list of image references.
pub open spec fn image_views(images: Seq<OpenAIImageContent>) -> Seq<ImageView> {
    Seq::new(images.len(), |i: int| images[i]@)
}

impl View for MessageContent {
    type V = ContentView;

    open spec fn view(&self) -> ContentView {
        match self {
            MessageContent::Text(text) => ContentView::Text(text@),
            MessageContent::Images(images) => ContentView::Images(image_views(images@)),
        }
    }
}

/// The view of an optional content.
pub open spec fn content_view(content: Option<MessageContent>) -> Option<ContentView> {
    match content {
        Some(c) => Some(c@),
        None => None,
    }
}

/// The views of a list of tool calls.
pub open spec fn call_views(calls: Seq<ToolCall>) -> Seq<ToolCallView> {
    Seq::new(calls.len(), |i: int| calls[i]@)
}

impl View for OpenAIMessage {
    type V = MessageView;

    open spec fn view(&self) -> MessageView {
        MessageView {
            role: self.role@,
            content: content_view(self.content),
            tool_calls: call_views(self.tool_calls@),
        }
    }
}

/// The views of a list of turns.
pub open spec fn message_views(messages: Seq<OpenAIMessage>) -> Seq<MessageView> {
    Seq::new(messages.len(), |i: int| messages[i]@)
}

impl View for OpenAIChoice {
    type V = ChoiceView;

    open spec fn view(&self) -> ChoiceView {
        ChoiceView { index: self.index, message: self.message@ }
    }
}

/// The views of a list of choices.
pub open spec fn choice_views(choices: Seq<OpenAIChoice>) -> Seq<ChoiceView> {
    Seq::new(choices.len(), |i: int| choices[i]@)
}

impl View for OpenAIResponse {
    type V = ResponseView;

    open spec fn view(&self) -> ResponseView {
        ResponseView {
            object: self.object@,
            created: self.created,
            model: self.model@,
            choices: choice_views(self.choices@),
        }
    }
}

/// The name of a role on the wire.
pub open spec fn role_name(role: Role) -> Seq<char> {
    match role {
        Role::User => "user"@,
        Role::Assistant => "assistant"@,
    }
}

/// A turn of `role` that says `text` and asks for no tool.
pub open spec fn text_turn(role: Role, text: Seq<char>) -> MessageView {
    MessageView {
        role: role_name(role),
        content: Some(ContentView::Text(text)),
        tool_calls: Seq::empty(),
    }
}

/// The value of the `Authorization` header for an API key.
pub open spec fn bearer_of(api_key: Seq<char>) -> Seq<char> {
    "Bearer "@ + api_key
}

impl Role {
    /// The name of this role on the wire.
    pub fn as_str(&self) -> (r: &'static str)
        ensures
            r@ == role_name(*self),
    {
        match self {
            Role::User => "user",
            Role::Assistant => "assistant",
        }
    }

    /// The name of this role on the wire, as an owned text.
    pub fn to_string(&self) -> (r: String)
        ensures
            r@ == role_name(*self),
    {
        self.as_str().to_owned()
    }
}

impl OpenAIConfig {
    /// The value of the `Authorization` header that carries the API key.
    pub fn bearer(&self) -> (r: String)
        ensures
            r@ == bearer_of(self.api_key@),
    {
        let mut token = "Bearer ".to_owned();
        token.append(self.api_key.as_str());
        token
    }
}

impl OpenAIMessage {
    /// A turn of `role` that says `text` and asks for no tool.
    pub fn text(role: Role, text: String) -> (r: OpenAIMessage)
        ensures
            r@ == text_turn(role, text@),
    {
        let message = OpenAIMessage {
            role: role.to_string(),
            content: Some(MessageContent::Text(text)),
            tool_calls: Vec::new(),
        };
        assert(message@.tool_calls =~= Seq::empty());
        message
    }
}

} // verus!
