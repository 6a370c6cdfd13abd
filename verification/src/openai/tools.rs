//! The tools that the completion backend may ask for: how they are
//! advertised, how a call is read, and what running one gives.

use crate::json::{member_views, views, json_text, Json, JsonView};
use crate::openai::{
    image_views, ContentView, ImageUrl, ImageView, MessageContent, MessageView, OpenAIImageContent,
    OpenAIMessage,
};
use crate::text::same_text;
use vstd::prelude::*;

verus! {

/// A call that the backend issued: which tool, and its arguments as JSON text.
#[derive(Debug, PartialEq, Eq)]
pub struct ToolCall {
    pub id: String,
    pub kind: String,
    pub function: FunctionCall,
}

/// The tool that a call names, and the arguments it gives.
#[derive(Debug, PartialEq, Eq)]
pub struct FunctionCall {
    pub name: String,
    pub arguments: String,
}

/// What the assistant wants done with its answer.
#[derive(Debug, PartialEq, Eq)]
pub enum AssistantAction {
    Reply(String),
    ToolCall(Tool),
}

/// The tools.
#[derive(Debug, PartialEq, Eq)]
pub enum Tool {
    /// Fetch the contents of a URL and return HTML or image metadata.
    FetchUrl { url: String },
}

/// Why a tool call could not be read or run.
#[derive(Debug, Clone, Copy, PartialEq, Eq, Structural)]
pub enum ToolError {
    /// The arguments are no JSON text.
    Syntax,
    /// No tool has the name.
    UnknownTool,
    /// The arguments do not have the shape that the tool declares.
    Arguments,
    /// The address is no absolute URL.
    Url,
}

/// Why the tool schemas could not be taken out of a root schema.
#[derive(Debug, Clone, Copy, PartialEq, Eq, Structural)]
pub enum SchemaError {
    /// The root has no `oneOf` array.
    OneOf,
    /// A variant has no `properties`.
    Properties,
    /// A variant has no text under `properties.name.const`.
    Name,
    /// A variant has no `properties.arguments`.
    Arguments,
}

/// The mathematical value of a [`ToolCall`].
pub ghost struct ToolCallView {
    pub id: Seq<char>,
    pub kind: Seq<char>,
    pub name: Seq<char>,
    pub arguments: Seq<char>,
}

/// The mathematical value of a [`Tool`].
pub ghost enum ToolView {
    FetchUrl { url: Seq<char> },
}

/// The mathematical value of an [`AssistantAction`].
pub ghost enum ActionView {
    Reply(Seq<char>),
    ToolCall(ToolView),
}

impl View for ToolCall {
    type V = ToolCallView;

    open spec fn view(&self) -> ToolCallView {
        ToolCallView {
            id: self.id@,
            kind: self.kind@,
            name: self.function.name@,
            arguments: self.function.arguments@,
        }
    }
}

impl View for Tool {
    type V = ToolView;

    open spec fn view(&self) -> ToolView {
        match self {
            Tool::FetchUrl { url } => ToolView::FetchUrl { url: url@ },
        }
    }
}

impl View for AssistantAction {
    type V = ActionView;

    open spec fn view(&self) -> ActionView {
        match self {
            AssistantAction::Reply(text) => ActionView::Reply(text@),
            AssistantAction::ToolCall(tool) => ActionView::ToolCall(tool@),
        }
    }
}

/// The views of a list of actions.
pub open spec fn action_views(actions: Seq<AssistantAction>) -> Seq<ActionView> {
    Seq::new(actions.len(), |i: int| actions[i]@)
}

/// The view of the outcome of reading a call.
pub open spec fn tool_outcome(outcome: Result<Tool, ToolError>) -> Result<ToolView, ToolError> {
    match outcome {
        Ok(tool) => Ok(tool@),
        Err(e) => Err(e),
    }
}

/// The view of the outcome of running a tool.
pub open spec fn turn_outcome(outcome: Result<OpenAIMessage, ToolError>) -> Result<
    MessageView,
    ToolError,
> {
    match outcome {
        Ok(message) => Ok(message@),
        Err(e) => Err(e),
    }
}

/// The address that the arguments of `fetch_url` give: the text under `url`.
pub open spec fn fetch_url_arguments(arguments: JsonView) -> Option<Seq<char>> {
    match arguments.get("url"@) {
        Some(JsonView::Text(url)) => Some(url),
        _ => None,
    }
}

/// The tool that a name and decoded arguments stand for.
pub open spec fn decode_tool(name: Seq<char>, arguments: JsonView) -> Result<ToolView, ToolError> {
    if name != "fetch_url"@ {
        Err(ToolError::UnknownTool)
    } else {
        match fetch_url_arguments(arguments) {
            Some(url) => Ok(ToolView::FetchUrl { url }),
            None => Err(ToolError::Arguments),
        }
    }
}

/// The tool that a call stands for, given what its arguments read as.
pub open spec fn read_call(call: ToolCallView, arguments: Option<JsonView>) -> Result<
    ToolView,
    ToolError,
> {
    match arguments {
        None => Err(ToolError::Syntax),
        Some(json) => decode_tool(call.name, json),
    }
}

/// The turn that carries one image reference.
pub open spec fn image_turn(url: Seq<char>) -> MessageView {
    MessageView {
        role: "user"@,
        content: Some(ContentView::Images(seq![ImageView { kind: "image_url"@, url }])),
        tool_calls: Seq::empty(),
    }
}

/// What running a tool gives, given what its address normalises to.
pub open spec fn run_outcome(tool: ToolView, address: Option<Seq<char>>) -> Result<
    MessageView,
    ToolError,
> {
    match address {
        Some(url) => Ok(image_turn(url)),
        None => Err(ToolError::Url),
    }
}

/// The advertisement of one tool.
pub open spec fn function_schema(
    name: Seq<char>,
    description: Seq<char>,
    parameters: JsonView,
) -> JsonView {
    JsonView::Object(
        seq![
            (
                "function"@,
                JsonView::Object(
                    seq![
                        ("description"@, JsonView::Text(description)),
                        ("name"@, JsonView::Text(name)),
                        ("parameters"@, parameters),
                    ],
                ),
            ),
            ("type"@, JsonView::Text("function"@)),
        ],
    )
}

/// The name that a variant's properties fix: the text under `name.const`.
pub open spec fn name_const(properties: JsonView) -> Option<Seq<char>> {
    match properties.get("name"@) {
        Some(name) => match name.get("const"@) {
            Some(value) => value.as_text(),
            None => None,
        },
        None => None,
    }
}

/// The description of a variant: the text under `description`, or nothing.
pub open spec fn description_of(variant: JsonView) -> Seq<char> {
    match variant.get("description"@) {
        Some(JsonView::Text(text)) => text,
        _ => Seq::empty(),
    }
}

/// The advertisement that one variant of the root schema gives.
pub open spec fn variant_schema(variant: JsonView) -> Result<JsonView, SchemaError> {
    match variant.get("properties"@) {
        None => Err(SchemaError::Properties),
        Some(properties) => match name_const(properties) {
            None => Err(SchemaError::Name),
            Some(name) => match properties.get("arguments"@) {
                None => Err(SchemaError::Arguments),
                Some(parameters) => Ok(
                    function_schema(name, description_of(variant), parameters),
                ),
            },
        },
    }
}

/// The advertisements of the first `n` variants, or the error of the first
/// variant among them that gives none.
pub open spec fn variant_schemas(variants: Seq<JsonView>, n: int) -> Result<
    Seq<JsonView>,
    SchemaError,
>
    decreases n,
{
    if n <= 0 {
        Ok(Seq::empty())
    } else {
        match variant_schemas(variants, n - 1) {
            Err(e) => Err(e),
            Ok(before) => match variant_schema(variants[n - 1]) {
                Err(e) => Err(e),
                Ok(schema) => Ok(before.push(schema)),
            },
        }
    }
}

/// The advertisements that a root schema gives: one for each variant under
/// `oneOf`, in order.
pub open spec fn schemas_of(root: JsonView) -> Result<Seq<JsonView>, SchemaError> {
    match root.get("oneOf"@) {
        Some(JsonView::Array(variants)) => variant_schemas(variants, variants.len() as int),
        _ => Err(SchemaError::OneOf),
    }
}

/// The message that goes with a schema error.
pub open spec fn schema_error_text(error: SchemaError) -> Seq<char> {
    match error {
        SchemaError::OneOf => "Missing or invalid 'oneOf' in Tool schema"@,
        SchemaError::Properties => "Variant missing 'properties' field"@,
        SchemaError::Name => "Variant 'name.const' missing or not a string"@,
        SchemaError::Arguments => "Variant missing 'arguments' field"@,
    }
}

/// The message that goes with a tool error.
pub open spec fn tool_error_text(error: ToolError) -> Seq<char> {
    match error {
        ToolError::Syntax => "Tool arguments are not valid JSON"@,
        ToolError::UnknownTool => "Unknown tool"@,
        ToolError::Arguments => "Tool arguments do not match the parameters of the tool"@,
        ToolError::Url => "Invalid URL"@,
    }
}

/// `url::ParseError`, which is handed on and never looked into.
#[verifier::external_type_specification]
#[verifier::external_body]
pub struct ExParseError(url::ParseError);

/// What the `url` crate makes of a text: the serialization of the URL that it
/// parses to, or nothing where it is no absolute URL.
pub uninterp spec fn url_text(input: Seq<char>) -> Option<Seq<char>>;

/// Calls `url::Url::parse` and, on a URL, its `to_string`. The contract only
/// names the outcome: it is `url_text` of the characters given.
#[verifier::external_body]
fn parse_url(input: &str) -> (r: Result<String, url::ParseError>)
    ensures
        match r {
            Ok(text) => url_text(input@) == Some(text@),
            Err(_) => url_text(input@) is None,
        },
{
    match url::Url::parse(input) {
        Ok(url) => Ok(url.to_string()),
        Err(e) => Err(e),
    }
}

impl ToolError {
    /// The message that goes with this error.
    pub fn as_str(&self) -> (r: &'static str)
        ensures
            r@ == tool_error_text(*self),
    {
        match self {
            ToolError::Syntax => "Tool arguments are not valid JSON",
            ToolError::UnknownTool => "Unknown tool",
            ToolError::Arguments => "Tool arguments do not match the parameters of the tool",
            ToolError::Url => "Invalid URL",
        }
    }
}

impl SchemaError {
    /// The message that goes with this error.
    pub fn as_str(&self) -> (r: &'static str)
        ensures
            r@ == schema_error_text(*self),
    {
        match self {
            SchemaError::OneOf => "Missing or invalid 'oneOf' in Tool schema",
            SchemaError::Properties => "Variant missing 'properties' field",
            SchemaError::Name => "Variant 'name.const' missing or not a string",
            SchemaError::Arguments => "Variant missing 'arguments' field",
        }
    }
}

/// Builds the advertisement of one tool.
fn make_schema(name: &str, description: &str, parameters: Json) -> (r: Json)
    ensures
        r@ == function_schema(name@, description@, parameters@),
{
    let mut inner: Vec<(String, Json)> = Vec::new();
    inner.push(("description".to_owned(), Json::text(description)));
    inner.push(("name".to_owned(), Json::text(name)));
    inner.push(("parameters".to_owned(), parameters));
    let function = Json::object(inner);
    let mut outer: Vec<(String, Json)> = Vec::new();
    outer.push(("function".to_owned(), function));
    outer.push(("type".to_owned(), Json::text("function")));
    let schema = Json::object(outer);
    proof {
        assert(member_views(inner@) =~= seq![
            ("description"@, JsonView::Text(description@)),
            ("name"@, JsonView::Text(name@)),
            ("parameters"@, parameters@),
        ]);
        assert(member_views(outer@) =~= seq![
            ("function"@, function@),
            ("type"@, JsonView::Text("function"@)),
        ]);
    }
    schema
}

/// Builds the advertisement that one variant of the root schema gives.
fn schema_of_variant(variant: &Json) -> (r: Result<Json, SchemaError>)
    ensures
        match r {
            Ok(schema) => variant_schema(variant@) == Ok::<JsonView, SchemaError>(schema@),
            Err(e) => variant_schema(variant@) == Err::<JsonView, SchemaError>(e),
        },
{
    let properties = match variant.get("properties") {
        Some(properties) => properties,
        None => return Err(SchemaError::Properties),
    };
    let name = match properties.get("name") {
        Some(name) => match name.get("const") {
            Some(value) => match value.as_str() {
                Some(text) => text,
                None => return Err(SchemaError::Name),
            },
            None => return Err(SchemaError::Name),
        },
        None => return Err(SchemaError::Name),
    };
    let description = match variant.get("description") {
        Some(value) => match value.as_str() {
            Some(text) => text,
            None => "",
        },
        None => "",
    };
    let parameters = match properties.get("arguments") {
        Some(parameters) => parameters,
        None => return Err(SchemaError::Arguments),
    };
    proof {
        reveal_strlit("");
        assert(description@ == description_of(variant@));
    }
    Ok(make_schema(name, description, parameters.clone()))
}

/// Packages an address as a turn of the user that carries one image.
pub fn fetch_url(url: String) -> (r: OpenAIMessage)
    ensures
        r@ == image_turn(url@),
{
    let content = OpenAIImageContent { kind: "image_url".to_owned(), image_url: ImageUrl { url } };
    let mut images: Vec<OpenAIImageContent> = Vec::new();
    images.push(content);
    let message = OpenAIMessage {
        role: "user".to_owned(),
        content: Some(MessageContent::Images(images)),
        tool_calls: Vec::new(),
    };
    proof {
        assert(image_views(images@) =~= seq![ImageView { kind: "image_url"@, url: url@ }]);
        assert(message@.tool_calls =~= Seq::empty());
    }
    message
}

impl Tool {
    /// The tool that `name` and decoded `arguments` stand for.
    pub fn decode(name: &str, arguments: &Json) -> (r: Result<Tool, ToolError>)
        ensures
            tool_outcome(r) == decode_tool(name@, arguments@),
    {
        if !same_text(name, "fetch_url") {
            return Err(ToolError::UnknownTool);
        }
        match arguments.get("url") {
            Some(value) => match value.as_str() {
                Some(url) => Ok(Tool::FetchUrl { url: url.to_owned() }),
                None => Err(ToolError::Arguments),
            },
            None => Err(ToolError::Arguments),
        }
    }

    /// Reads the tool that a call of the backend asks for: the arguments are
    /// parsed as JSON and decoded against the shape of the tool that the call
    /// names.
    pub fn try_from(tool_call: &ToolCall) -> (r: Result<Tool, ToolError>)
        ensures
            tool_outcome(r) == read_call(tool_call@, json_text(tool_call@.arguments)),
    {
        match Json::parse(tool_call.function.arguments.as_str()) {
            Ok(arguments) => Tool::decode(tool_call.function.name.as_str(), &arguments),
            Err(_) => Err(ToolError::Syntax),
        }
    }

    /// What this tool gives once its address has been normalised: the turn to
    /// append, or the error where the address was none.
    pub fn finish(&self, address: Option<String>) -> (r: Result<OpenAIMessage, ToolError>)
        ensures
            turn_outcome(r) == run_outcome(
                self@,
                match address {
                    Some(url) => Some(url@),
                    None => None,
                },
            ),
    {
        match address {
            Some(url) => Ok(fetch_url(url)),
            None => Err(ToolError::Url),
        }
    }

    /// Runs the tool: the address is parsed as a URL and packaged as a turn.
    pub fn run(&self) -> (r: Result<OpenAIMessage, ToolError>)
        ensures
            turn_outcome(r) == run_outcome(self@, url_text(self@->url)),
    {
        match self {
            Tool::FetchUrl { url } => {
                match parse_url(url.as_str()) {
                    Ok(text) => self.finish(Some(text)),
                    Err(_) => self.finish(None),
                }
            },
        }
    }

    /// The advertisements of the tools, taken out of the root schema of the
    /// tool set: one for each variant under `oneOf`, in order.
    pub fn schemas(root: &Json) -> (r: Result<Vec<Json>, SchemaError>)
        ensures
            match r {
                Ok(tools) => schemas_of(root@) == Ok::<Seq<JsonView>, SchemaError>(views(tools@)),
                Err(e) => schemas_of(root@) == Err::<Seq<JsonView>, SchemaError>(e),
            },
    {
        let one_of = match root.get("oneOf") {
            Some(value) => match value.as_array() {
                Some(variants) => variants,
                None => return Err(SchemaError::OneOf),
            },
            None => return Err(SchemaError::OneOf),
        };
        let ghost variants = views(one_of@);
        let mut tools: Vec<Json> = Vec::new();
        let mut i: usize = 0;
        assert(views(tools@) =~= Seq::empty());
        while i < one_of.len()
            invariant
                0 <= i <= one_of.len(),
                variants == views(one_of@),
                root@.get("oneOf"@) == Some(JsonView::Array(variants)),
                variant_schemas(variants, i as int) == Ok::<Seq<JsonView>, SchemaError>(
                    views(tools@),
                ),
            decreases one_of.len() - i,
        {
            let ghost before = views(tools@);
            match schema_of_variant(&one_of[i]) {
                Ok(schema) => {
                    tools.push(schema);
                    assert(views(tools@) =~= before.push(schema@));
                },
                Err(e) => {
                    proof {
                        assert(variant_schemas(variants, i as int + 1) is Err);
                        lemma_schemas_fail(variants, i as int + 1, one_of.len() as int);
                    }
                    return Err(e);
                },
            }
            i += 1;
        }
        Ok(tools)
    }
}

/// Once the first `n` variants fail, so do the first `m` for every `m` from
/// `n` on, with the same error.
proof fn lemma_schemas_fail(variants: Seq<JsonView>, n: int, m: int)
    requires
        0 <= n <= m,
        variant_schemas(variants, n) is Err,
    ensures
        variant_schemas(variants, m) == variant_schemas(variants, n),
    decreases m - n,
{
    if n < m {
        lemma_schemas_fail(variants, n, m - 1);
    }
}

} // verus!
