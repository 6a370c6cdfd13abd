//! What the bot decides when an event arrives.

use crate::command::{parse_spec, Command, CommandView};
use crate::openai::store::{anchors_of, cleared, Anchors, ConversationStore};
use crate::openai::event::{Membership, MessageEvent, MessageEventView};
use crate::text::{holds_text, same_text};
use vstd::prelude::*;

verus! {

/// What the bot does with a message that arrived.
#[derive(Debug, PartialEq, Eq)]
pub enum Reaction {
    /// Nothing: the bot wrote it itself, or it is a message of a group chat
    /// that does not mention the bot.
    Ignore,
    /// The message is a command: no turn is run.
    Command(Command),
    /// The message is a prompt: a turn is run.
    Converse,
}

/// The mathematical value of a [`Reaction`].
pub ghost enum ReactionView {
    Ignore,
    Command(CommandView),
    Converse,
}

impl View for Reaction {
    type V = ReactionView;

    open spec fn view(&self) -> ReactionView {
        match self {
            Reaction::Ignore => ReactionView::Ignore,
            Reaction::Command(command) => ReactionView::Command(command@),
            Reaction::Converse => ReactionView::Converse,
        }
    }
}

/// Whether a message is addressed to the bot: any message of another user in
/// a direct chat, and in a group chat one that mentions the bot.
pub open spec fn addressed(bot_id: Seq<char>, is_direct: bool, event: MessageEventView) -> bool {
    event.sender != bot_id && (is_direct || event.mentions.contains(bot_id))
}

/// What the bot does with a message.
pub open spec fn reaction_of(
    bot_id: Seq<char>,
    is_direct: bool,
    event: MessageEventView,
) -> ReactionView {
    if !addressed(bot_id, is_direct, event) {
        ReactionView::Ignore
    } else {
        match parse_spec(event.body) {
            Some(command) => ReactionView::Command(command),
            None => ReactionView::Converse,
        }
    }
}

/// The store after the bot has reacted to a message in a room: a reset
/// clears the anchors of the bot in that room, and nothing else changes
/// anything.
pub open spec fn store_after(
    store: Anchors,
    bot_id: Seq<char>,
    room_id: Seq<char>,
    reaction: ReactionView,
) -> Anchors {
    if reaction == ReactionView::Command(CommandView::Reset) {
        cleared(store, (bot_id, room_id))
    } else {
        store
    }
}

/// Whether the bot joins a room on a membership event: where the event is
/// about the bot and invites it.
pub open spec fn joins(bot_id: Seq<char>, state_key: Seq<char>, change: Membership) -> bool {
    state_key == bot_id && change == Membership::Invited
}

/// A reset that is addressed to the bot leaves the anchor list of its
/// identity empty, whatever it held, and runs no turn.
pub proof fn lemma_reset_clears(
    store: Anchors,
    bot_id: Seq<char>,
    room_id: Seq<char>,
    is_direct: bool,
    event: MessageEventView,
)
    requires
        addressed(bot_id, is_direct, event),
        parse_spec(event.body) == Some(CommandView::Reset),
    ensures
        reaction_of(bot_id, is_direct, event) != ReactionView::Converse,
        anchors_of(
            store_after(store, bot_id, room_id, reaction_of(bot_id, is_direct, event)),
            (bot_id, room_id),
        ) == Seq::<Seq<char>>::empty(),
{
}

/// A message of a group chat that does not mention the bot is ignored and
/// leaves the store as it was. One that mentions the bot is treated as a
/// message of a direct chat is.
pub proof fn lemma_group_chat(
    store: Anchors,
    bot_id: Seq<char>,
    room_id: Seq<char>,
    event: MessageEventView,
)
    ensures
        !event.mentions.contains(bot_id) ==> reaction_of(bot_id, false, event)
            == ReactionView::Ignore && store_after(
            store,
            bot_id,
            room_id,
            reaction_of(bot_id, false, event),
        ) == store,
        event.mentions.contains(bot_id) ==> reaction_of(bot_id, false, event) == reaction_of(
            bot_id,
            true,
            event,
        ),
{
}

/// Whether a message is addressed to the bot.
pub fn is_addressed(bot_id: &str, is_direct: bool, event: &MessageEvent) -> (r: bool)
    ensures
        r == addressed(bot_id@, is_direct, event@),
{
    !same_text(event.sender.as_str(), bot_id) && (is_direct || holds_text(&event.mentions, bot_id))
}

/// Decides what to do with a message that arrived in a room, and clears the
/// anchors of the bot in that room where the message is a reset.
pub fn on_room_message(
    store: &mut ConversationStore,
    bot_id: &str,
    room_id: &str,
    is_direct: bool,
    event: &MessageEvent,
) -> (r: Reaction)
    ensures
        r@ == reaction_of(bot_id@, is_direct, event@),
        final(store)@ == store_after(old(store)@, bot_id@, room_id@, r@),
{
    if !is_addressed(bot_id, is_direct, event) {
        return Reaction::Ignore;
    }
    match Command::parse(event.body.as_str()) {
        Some(command) => {
            match command {
                Command::Reset => store.clear(bot_id, room_id),
                _ => {},
            }
            Reaction::Command(command)
        },
        None => Reaction::Converse,
    }
}

/// Decides whether the bot joins a room on a membership event.
pub fn on_room_member(bot_id: &str, state_key: &str, change: Membership) -> (join: bool)
    ensures
        join == joins(bot_id@, state_key@, change),
{
    if !same_text(state_key, bot_id) {
        return false;
    }
    match change {
        Membership::Invited => true,
        _ => false,
    }
}

} // verus!
