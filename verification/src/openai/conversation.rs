//! The engine that reconciles and runs a conversation.

use crate::command::{command_signal, parse_spec, Command};
use crate::json::{json_text, views, Json, JsonView};
use crate::openai::event::{
    event_views, kind_of, lemma_replay_fails, raw_views, replayed_all, EventError, EventKind,
    Membership, MessageEvent, MessageEventView, Payload, PayloadView, RawEvent, RawEventView,
};
use crate::openai::scan::{
    history_anchors, history_turns, outcome_view, outcome_views, scan, Outcome, OutcomeView,
    Processed, ProcessedView,
};
use crate::openai::store::{appended, replaced, touched, ConversationStore};
use crate::openai::tools::{
    action_views, read_call, schemas_of, tool_error_text, ActionView, AssistantAction,
    SchemaError, Tool, ToolCall, ToolCallView, ToolError,
};
use crate::openai::wire::{request_json, request_to_json};
use crate::openai::{
    call_views, message_views, text_turn, ContentView, MessageContent, MessageView, OpenAIConfig,
    OpenAIMessage, OpenAIResponse, ResponseView, Role,
};
use crate::text::{same_text, texts};
use vstd::prelude::*;

verus! {

/// The turn that a message stands for: the assistant's where the bot sent
/// it, the user's otherwise.
pub open spec fn turn_of(bot_id: Seq<char>, event: MessageEventView) -> MessageView {
    text_turn(
        if event.sender == bot_id {
            Role::Assistant
        } else {
            Role::User
        },
        event.body,
    )
}

/// What a message of the history means for the scan.
pub open spec fn message_signal(bot_id: Seq<char>, event: MessageEventView) -> Option<
    ProcessedView,
> {
    match parse_spec(event.body) {
        Some(command) => command_signal(command),
        None => Some(ProcessedView::Continue(event.event_id, turn_of(bot_id, event))),
    }
}

/// What an event of the history means for the scan. An event whose type tag
/// cannot be read, or of a kind that is not handled, is passed over; a
/// member who left is the boundary; a content that cannot be read is an
/// error.
pub open spec fn event_signal(bot_id: Seq<char>, event: RawEventView) -> OutcomeView {
    match event.event_type {
        None => Ok(None),
        Some(tag) => match kind_of(tag) {
            EventKind::Other => Ok(None),
            EventKind::Member => match event.payload {
                PayloadView::Member(change) => Ok(
                    if change == Membership::Left {
                        Some(ProcessedView::Stop)
                    } else {
                        None
                    },
                ),
                _ => Err(EventError::Failed),
            },
            EventKind::Message | EventKind::Encrypted => match event.payload {
                PayloadView::Message(message) => Ok(message_signal(bot_id, message)),
                _ => Err(EventError::Failed),
            },
        },
    }
}

/// Why a message of the assistant gives no actions.
#[derive(Debug, Clone, Copy, PartialEq, Eq, Structural)]
pub enum ActionError {
    /// The content is no text, and no tool call stands in for it.
    Content,
    /// A tool call could not be read.
    Tool(ToolError),
}

/// Why a response of the backend gives no reply.
#[derive(Debug, Clone, Copy, PartialEq, Eq, Structural)]
pub enum TurnError {
    /// The response holds no choice, or its first choice asks for nothing.
    NoChoice,
    /// The message of the first choice gives no actions.
    Action(ActionError),
    /// The first action is a tool call, which is not carried out.
    ToolCall,
}

/// The message that goes with an action error.
pub open spec fn action_error_text(error: ActionError) -> Seq<char> {
    match error {
        ActionError::Content => "unknown type"@,
        ActionError::Tool(e) => tool_error_text(e),
    }
}

/// The message that goes with a turn error.
pub open spec fn turn_error_text(error: TurnError) -> Seq<char> {
    match error {
        TurnError::NoChoice => "Unable to parse message"@,
        TurnError::Action(e) => action_error_text(e),
        TurnError::ToolCall => "Unable to parse message"@,
    }
}

impl ActionError {
    /// The message that goes with this error.
    pub fn as_str(&self) -> (r: &'static str)
        ensures
            r@ == action_error_text(*self),
    {
        match self {
            ActionError::Content => "unknown type",
            ActionError::Tool(e) => e.as_str(),
        }
    }
}

impl TurnError {
    /// The message that goes with this error.
    pub fn as_str(&self) -> (r: &'static str)
        ensures
            r@ == turn_error_text(*self),
    {
        match self {
            TurnError::NoChoice => "Unable to parse message",
            TurnError::Action(e) => e.as_str(),
            TurnError::ToolCall => "Unable to parse message",
        }
    }
}

/// The tools that the first `n` calls stand for, as actions, or the error of
/// the first call among them that stands for none.
pub open spec fn call_actions(calls: Seq<ToolCallView>, n: int) -> Result<
    Seq<ActionView>,
    ToolError,
>
    decreases n,
{
    if n <= 0 {
        Ok(Seq::empty())
    } else {
        match call_actions(calls, n - 1) {
            Err(e) => Err(e),
            Ok(before) => match read_call(calls[n - 1], json_text(calls[n - 1].arguments)) {
                Err(e) => Err(e),
                Ok(tool) => Ok(before.push(ActionView::ToolCall(tool))),
            },
        }
    }
}

/// The actions that a message of the assistant asks for: a reply for a text,
/// then one tool call for each call on record. A message with images, or
/// with neither text nor calls, gives none.
pub open spec fn actions_of(message: MessageView) -> Result<Seq<ActionView>, ActionError> {
    let calls = call_actions(message.tool_calls, message.tool_calls.len() as int);
    match message.content {
        Some(ContentView::Text(body)) => match calls {
            Ok(actions) => Ok(seq![ActionView::Reply(body)] + actions),
            Err(e) => Err(ActionError::Tool(e)),
        },
        Some(ContentView::Images(_)) => Err(ActionError::Content),
        None => if message.tool_calls.len() == 0 {
            Err(ActionError::Content)
        } else {
            match calls {
                Ok(actions) => Ok(actions),
                Err(e) => Err(ActionError::Tool(e)),
            }
        },
    }
}

/// The reply that a list of actions leads with.
pub open spec fn leading_reply(actions: Seq<ActionView>) -> Result<Seq<char>, TurnError> {
    if actions.len() == 0 {
        Err(TurnError::NoChoice)
    } else {
        match actions[0] {
            ActionView::Reply(text) => Ok(text),
            ActionView::ToolCall(_) => Err(TurnError::ToolCall),
        }
    }
}

/// The reply that a response gives: the text that the message of its first
/// choice leads with.
pub open spec fn reply_of(response: ResponseView) -> Result<Seq<char>, TurnError> {
    if response.choices.len() == 0 {
        Err(TurnError::NoChoice)
    } else {
        match actions_of(response.choices[0].message) {
            Err(e) => Err(TurnError::Action(e)),
            Ok(actions) => leading_reply(actions),
        }
    }
}

/// The body of a request: the model, the turns and the tool schemas, or the
/// error where the root schema gives no tool schemas.
pub open spec fn prompt_body(model: Seq<char>, turns: Seq<MessageView>, root: JsonView) -> Result<
    JsonView,
    SchemaError,
> {
    match schemas_of(root) {
        Ok(tools) => Ok(request_json(model, turns, tools)),
        Err(e) => Err(e),
    }
}

/// Once the first `n` calls fail, so do the first `m` for every `m` from `n`
/// on, with the same error.
proof fn lemma_calls_fail(calls: Seq<ToolCallView>, n: int, m: int)
    requires
        0 <= n <= m,
        call_actions(calls, n) is Err,
    ensures
        call_actions(calls, m) == call_actions(calls, n),
    decreases m - n,
{
    if n < m {
        lemma_calls_fail(calls, n, m - 1);
    }
}

/// The calls of a message that can be read give one tool-call action each.
proof fn lemma_call_actions(calls: Seq<ToolCallView>, n: int)
    requires
        0 <= n,
    ensures
        match call_actions(calls, n) {
            Ok(actions) => actions.len() == n && forall|i: int|
                0 <= i < n ==> (#[trigger] actions[i]) is ToolCall,
            Err(_) => true,
        },
    decreases n,
{
    if n > 0 {
        lemma_call_actions(calls, n - 1);
    }
}

/// A message with a text and no tool calls gives exactly one action, the
/// reply with that text. A message with tool calls gives, where they can be
/// read, one tool-call action for each, after the reply if it has a text.
pub proof fn lemma_actions_shape(message: MessageView)
    ensures
        message.content is Some && message.content->0 is Text && message.tool_calls.len() == 0
            ==> actions_of(message) == Ok::<Seq<ActionView>, ActionError>(
            seq![ActionView::Reply(message.content->0->Text_0)],
        ),
        actions_of(message) is Ok ==> ({
            let actions = actions_of(message)->Ok_0;
            let lead: int = if message.content is Some {
                1
            } else {
                0
            };
            &&& actions.len() == lead + message.tool_calls.len()
            &&& lead == 1 ==> actions[0] == ActionView::Reply(message.content->0->Text_0)
            &&& forall|i: int| lead <= i < actions.len() ==> (#[trigger] actions[i]) is ToolCall
        }),
{
    let n = message.tool_calls.len() as int;
    lemma_call_actions(message.tool_calls, n);
    match message.content {
        Some(ContentView::Text(body)) => {
            if n == 0 {
                assert(seq![ActionView::Reply(body)] + Seq::<ActionView>::empty() =~= seq![
                    ActionView::Reply(body),
                ]);
            }
            match call_actions(message.tool_calls, n) {
                Ok(tail) => {
                    let actions = seq![ActionView::Reply(body)] + tail;
                    assert forall|i: int| 1 <= i < actions.len() implies (
                        #[trigger] actions[i]
                    ) is ToolCall by {
                        assert(actions[i] == tail[i - 1]);
                    }
                },
                Err(_) => {},
            }
        },
        _ => {},
    }
}

/// Reads the actions that a message of the assistant asks for.
pub fn into_actions(message: &OpenAIMessage) -> (r: Result<Vec<AssistantAction>, ActionError>)
    ensures
        match r {
            Ok(actions) => actions_of(message@) == Ok::<Seq<ActionView>, ActionError>(
                action_views(actions@),
            ),
            Err(e) => actions_of(message@) == Err::<Seq<ActionView>, ActionError>(e),
        },
{
    let mut actions: Vec<AssistantAction> = Vec::new();
    match &message.content {
        Some(MessageContent::Text(body)) => actions.push(AssistantAction::Reply(body.clone())),
        Some(MessageContent::Images(_)) => return Err(ActionError::Content),
        None => if message.tool_calls.len() == 0 {
            return Err(ActionError::Content);
        },
    }
    let ghost lead = action_views(actions@);
    let ghost calls = message@.tool_calls;
    let mut tools: Vec<AssistantAction> = Vec::new();
    let mut i: usize = 0;
    assert(action_views(tools@) =~= Seq::empty());
    while i < message.tool_calls.len()
        invariant
            0 <= i <= message.tool_calls.len(),
            calls == call_views(message.tool_calls@),
            calls == message@.tool_calls,
            !(message@.content is Some && message@.content->0 is Images),
            message@.content is None ==> calls.len() > 0,
            call_actions(calls, i as int) == Ok::<Seq<ActionView>, ToolError>(
                action_views(tools@),
            ),
        decreases message.tool_calls.len() - i,
    {
        let ghost before = action_views(tools@);
        assert(calls[i as int] == message.tool_calls[i as int]@);
        match Tool::try_from(&message.tool_calls[i]) {
            Ok(tool) => {
                tools.push(AssistantAction::ToolCall(tool));
                assert(action_views(tools@) =~= before.push(ActionView::ToolCall(tool@)));
            },
            Err(e) => {
                proof {
                    assert(call_actions(calls, i as int + 1) is Err);
                    lemma_calls_fail(calls, i as int + 1, calls.len() as int);
                }
                return Err(ActionError::Tool(e));
            },
        }
        i += 1;
    }
    let ghost tail = action_views(tools@);
    actions.append(&mut tools);
    assert(action_views(actions@) =~= lead + tail);
    proof {
        if message@.content is None {
            assert(lead =~= Seq::empty());
            assert(lead + tail =~= tail);
        } else {
            assert(lead =~= seq![ActionView::Reply(message@.content->0->Text_0)]);
        }
    }
    Ok(actions)
}

/// The turn that a message stands for.
pub fn create_message(bot_id: &str, event: &MessageEvent) -> (r: OpenAIMessage)
    ensures
        r@ == turn_of(bot_id@, event@),
{
    let role = if same_text(event.sender.as_str(), bot_id) {
        Role::Assistant
    } else {
        Role::User
    };
    OpenAIMessage::text(role, event.body.clone())
}

/// What a message of the history means for the scan: a reset command is the
/// boundary, any other command is passed over, and any other text is a turn
/// to keep.
pub fn handle_event(user_id: &str, event: &MessageEvent) -> (r: Option<Processed>)
    ensures
        outcome_view(Ok(r)) == Ok::<Option<ProcessedView>, EventError>(
            message_signal(user_id@, event@),
        ),
{
    match Command::parse(event.body.as_str()) {
        Some(command) => command.into_processed(),
        None => {
            let message = create_message(user_id, event);
            Some(Processed::Continue(event.event_id.clone(), message))
        },
    }
}

/// The mathematical value of a [`Conversation`].
pub ghost struct ConversationView {
    pub config: OpenAIConfig,
    pub user: Seq<char>,
    pub room: Seq<char>,
    pub turns: Seq<MessageView>,
}

/// A live conversation: the identity it belongs to, the settings of the
/// backend, and the turns that have been materialised.
pub struct Conversation {
    config: OpenAIConfig,
    user: String,
    room: String,
    messages: Vec<OpenAIMessage>,
}

impl View for Conversation {
    type V = ConversationView;

    closed spec fn view(&self) -> ConversationView {
        ConversationView {
            config: self.config,
            user: self.user@,
            room: self.room@,
            turns: message_views(self.messages@),
        }
    }
}

/// The turns that a list of messages stands for.
pub open spec fn turns_of(bot_id: Seq<char>, events: Seq<MessageEventView>) -> Seq<MessageView> {
    Seq::new(events.len(), |i: int| turn_of(bot_id, events[i]))
}

impl Conversation {
    /// A conversation of an identity whose history is the given messages.
    pub fn from_events(
        config: OpenAIConfig,
        user: &str,
        room: &str,
        events: &[MessageEvent],
    ) -> (r: Conversation)
        ensures
            r@ == (ConversationView {
                config,
                user: user@,
                room: room@,
                turns: turns_of(user@, event_views(events@)),
            }),
    {
        let mut messages: Vec<OpenAIMessage> = Vec::new();
        let mut i: usize = 0;
        while i < events.len()
            invariant
                0 <= i <= events.len(),
                messages.len() == i,
                forall|k: int| 0 <= k < i ==> (#[trigger] messages[k])@ == turn_of(user@, events[k]@),
            decreases events.len() - i,
        {
            messages.push(create_message(user, &events[i]));
            i += 1;
        }
        assert(message_views(messages@) =~= turns_of(user@, event_views(events@)));
        Conversation { config, user: user.to_owned(), room: room.to_owned(), messages }
    }

    /// The settings of the backend.
    pub fn config(&self) -> (r: &OpenAIConfig)
        ensures
            *r == self@.config,
    {
        &self.config
    }

    /// The user of the identity.
    pub fn user(&self) -> (r: &str)
        ensures
            r@ == self@.user,
    {
        self.user.as_str()
    }

    /// The room of the identity.
    pub fn room(&self) -> (r: &str)
        ensures
            r@ == self@.room,
    {
        self.room.as_str()
    }

    /// The turns that have been materialised, oldest first.
    pub fn messages(&self) -> (r: &Vec<OpenAIMessage>)
        ensures
            message_views(r@) == self@.turns,
    {
        &self.messages
    }

    /// Whether no turn has been materialised.
    pub fn is_empty(&self) -> (r: bool)
        ensures
            r == (self@.turns.len() == 0),
    {
        self.messages.len() == 0
    }

    /// Whether the history is to be recovered from the room: only for a
    /// conversation without turns, in a direct chat.
    pub fn needs_backfill(&self, is_direct: bool) -> (r: bool)
        ensures
            r == (self@.turns.len() == 0 && is_direct),
    {
        self.is_empty() && is_direct
    }

    /// What an event of the history means for the scan.
    pub fn process_raw_event(&self, raw_event: &RawEvent) -> (r: Outcome)
        ensures
            outcome_view(r) == event_signal(self@.user, raw_event@),
    {
        let tag = match &raw_event.event_type {
            Some(tag) => tag,
            None => return Ok(None),
        };
        match EventKind::of_tag(tag.as_str()) {
            EventKind::Member => match &raw_event.payload {
                Payload::Member(change) => match change {
                    Membership::Left => Ok(Some(Processed::Stop)),
                    _ => Ok(None),
                },
                _ => Err(EventError::Failed),
            },
            EventKind::Message | EventKind::Encrypted => match &raw_event.payload {
                Payload::Message(event) => Ok(handle_event(self.user.as_str(), event)),
                _ => Err(EventError::Failed),
            },
            EventKind::Other => Ok(None),
        }
    }

    /// Takes in the history that a backward scan of the room recovered. The
    /// outcomes are given in the order of discovery, newest first. The
    /// anchors of the recovered history replace those on record for the
    /// identity, and its turns come before the turns already held.
    pub fn backfill(&mut self, store: &mut ConversationStore, outcomes: Vec<Outcome>)
        ensures
            final(store)@ == replaced(
                old(store)@,
                (old(self)@.user, old(self)@.room),
                history_anchors(outcome_views(outcomes@)),
            ),
            final(self)@ == (ConversationView {
                turns: history_turns(outcome_views(outcomes@)) + old(self)@.turns,
                ..old(self)@
            }),
    {
        let (event_ids, mut messages) = scan(outcomes);
        store.set(self.user.as_str(), self.room.as_str(), event_ids);
        let ghost recovered = message_views(messages@);
        let ghost held = message_views(self.messages@);
        messages.append(&mut self.messages);
        assert(message_views(messages@) =~= recovered + held);
        self.messages = messages;
    }

    /// The body of a request for a completion of `messages`. The tool
    /// schemas are taken out of the root schema of the tool set.
    pub fn create_prompt_body(&self, messages: &Vec<OpenAIMessage>, root: &Json) -> (r: Result<
        Json,
        SchemaError,
    >)
        ensures
            match r {
                Ok(body) => prompt_body(self@.config.model@, message_views(messages@), root@)
                    == Ok::<JsonView, SchemaError>(body@),
                Err(e) => prompt_body(self@.config.model@, message_views(messages@), root@)
                    == Err::<JsonView, SchemaError>(e),
            },
    {
        match Tool::schemas(root) {
            Ok(tools) => Ok(request_to_json(self.config.model.as_str(), messages, tools)),
            Err(e) => Err(e),
        }
    }

    /// Opens a turn: the prompt is appended as a turn of the user, and the
    /// body of the request for the completion of the whole history is
    /// returned. The turn stays appended where the body cannot be made.
    pub fn send_prompt(&mut self, prompt: String, root: &Json) -> (r: Result<Json, SchemaError>)
        ensures
            final(self)@ == (ConversationView {
                turns: old(self)@.turns.push(text_turn(Role::User, prompt@)),
                ..old(self)@
            }),
            match r {
                Ok(body) => prompt_body(final(self)@.config.model@, final(self)@.turns, root@)
                    == Ok::<JsonView, SchemaError>(body@),
                Err(e) => prompt_body(final(self)@.config.model@, final(self)@.turns, root@)
                    == Err::<JsonView, SchemaError>(e),
            },
    {
        let ghost held = message_views(self.messages@);
        let turn = OpenAIMessage::text(Role::User, prompt);
        self.messages.push(turn);
        assert(message_views(self.messages@) =~= held.push(turn@));
        self.create_prompt_body(&self.messages, root)
    }

    /// Closes a turn: the reply that the response of the backend gives.
    pub fn read_reply(response: &OpenAIResponse) -> (r: Result<String, TurnError>)
        ensures
            match r {
                Ok(text) => reply_of(response@) == Ok::<Seq<char>, TurnError>(text@),
                Err(e) => reply_of(response@) == Err::<Seq<char>, TurnError>(e),
            },
    {
        if response.choices.len() == 0 {
            return Err(TurnError::NoChoice);
        }
        assert(response@.choices[0].message == response.choices[0].message@);
        let actions = match into_actions(&response.choices[0].message) {
            Ok(actions) => actions,
            Err(e) => return Err(TurnError::Action(e)),
        };
        if actions.len() == 0 {
            return Err(TurnError::NoChoice);
        }
        assert(action_views(actions@)[0] == actions[0]@);
        match &actions[0] {
            AssistantAction::Reply(text) => Ok(text.clone()),
            AssistantAction::ToolCall(_) => Err(TurnError::ToolCall),
        }
    }

    /// Records a completed turn: the anchors of the prompt and of the
    /// response are appended to the list of the identity.
    pub fn insert_dialog(&self, store: &mut ConversationStore, prompt_id: String, response_id: String)
        ensures
            final(store)@ == appended(
                old(store)@,
                (self@.user, self@.room),
                seq![prompt_id@, response_id@],
            ),
    {
        let mut pair: Vec<String> = Vec::new();
        pair.push(prompt_id);
        pair.push(response_id);
        assert(texts(pair@) =~= seq![prompt_id@, response_id@]);
        store.insert_events(self.user.as_str(), self.room.as_str(), pair);
    }
}

impl ConversationStore {
    /// The conversation of an identity, with the turns that the events of
    /// its stored history stand for. `events` holds, for each anchor on
    /// record and in their order, the event that the transport found under
    /// it. The first event that stands for no message is an error. An
    /// identity that is new to the store gets an empty list.
    pub fn get_conversation(
        &mut self,
        config: OpenAIConfig,
        user_id: &str,
        room_id: &str,
        events: &Vec<RawEvent>,
    ) -> (r: Result<Conversation, EventError>)
        ensures
            final(self)@ == touched(old(self)@, (user_id@, room_id@)),
            match r {
                Ok(conversation) => replayed_all(raw_views(events@), events@.len() as int) matches Ok(
                    messages,
                ) && conversation@ == (ConversationView {
                    config,
                    user: user_id@,
                    room: room_id@,
                    turns: turns_of(user_id@, messages),
                }),
                Err(e) => replayed_all(raw_views(events@), events@.len() as int) == Err::<
                    Seq<MessageEventView>,
                    EventError,
                >(e),
            },
    {
        let _ = self.get_or_create(user_id, room_id);
        let ghost raws = raw_views(events@);
        let mut messages: Vec<MessageEvent> = Vec::new();
        let mut i: usize = 0;
        assert(event_views(messages@) =~= Seq::empty());
        while i < events.len()
            invariant
                0 <= i <= events.len(),
                raws == raw_views(events@),
                self@ == touched(old(self)@, (user_id@, room_id@)),
                replayed_all(raws, i as int) == Ok::<Seq<MessageEventView>, EventError>(
                    event_views(messages@),
                ),
            decreases events.len() - i,
        {
            let ghost before = event_views(messages@);
            assert(raws[i as int] == events[i as int]@);
            match events[i].replay() {
                Ok(message) => {
                    messages.push(message);
                    assert(event_views(messages@) =~= before.push(message@));
                },
                Err(e) => {
                    proof {
                        assert(replayed_all(raws, i as int + 1) is Err);
                        lemma_replay_fails(raws, i as int + 1, events.len() as int);
                    }
                    return Err(e);
                },
            }
            i += 1;
        }
        Ok(Conversation::from_events(config, user_id, room_id, messages.as_slice()))
    }
}
} // verus!
