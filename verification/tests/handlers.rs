use matrix_openai_bot::command::Command;
use matrix_openai_bot::handlers::{on_room_member, on_room_message, Reaction};
use matrix_openai_bot::openai::store::ConversationStore;
use matrix_openai_bot::openai::event::{Membership, MessageEvent};
use matrix_openai_bot::text::{copy_texts, holds_text};

const BOT: &str = "@bot:example.org";
const ROOM: &str = "!room:example.org";
const ALICE: &str = "@alice:example.org";

fn message(sender: &str, body: &str, mentions: &[&str]) -> MessageEvent {
    MessageEvent {
        event_id: "$1".to_string(),
        sender: sender.to_string(),
        body: body.to_string(),
        mentions: mentions.iter().map(|id| id.to_string()).collect(),
    }
}

fn stored() -> ConversationStore {
    let mut store = ConversationStore::new();
    store.insert_events(BOT, ROOM, vec!["$p".to_string(), "$r".to_string()]);
    store.insert_events(BOT, "!other:example.org", vec!["$x".to_string()]);
    store
}

#[test]
fn reset_clears_the_anchors_and_runs_no_turn() {
    let mut store = stored();
    let reaction = on_room_message(&mut store, BOT, ROOM, true, &message(ALICE, "!reset", &[]));
    assert_eq!(reaction, Reaction::Command(Command::Reset));
    assert_eq!(store.get_or_create(BOT, ROOM), Vec::<String>::new());
    assert_eq!(store.get_or_create(BOT, "!other:example.org"), vec!["$x".to_string()]);
}

#[test]
fn reset_of_an_unseen_identity_leaves_it_empty() {
    let mut store = ConversationStore::new();
    let reaction = on_room_message(&mut store, BOT, ROOM, true, &message(ALICE, " !reset ", &[]));
    assert_eq!(reaction, Reaction::Command(Command::Reset));
    assert_eq!(store.get_or_create(BOT, ROOM), Vec::<String>::new());
}

#[test]
fn other_commands_leave_the_store_alone() {
    let mut store = stored();
    assert_eq!(
        on_room_message(&mut store, BOT, ROOM, true, &message(ALICE, "!help", &[])),
        Reaction::Command(Command::Help)
    );
    assert_eq!(
        on_room_message(&mut store, BOT, ROOM, true, &message(ALICE, "!version", &[])),
        Reaction::Command(Command::Version)
    );
    assert_eq!(
        on_room_message(&mut store, BOT, ROOM, true, &message(ALICE, "!dance", &[])),
        Reaction::Command(Command::Unknown("dance".to_string()))
    );
    assert_eq!(store.get_or_create(BOT, ROOM), vec!["$p".to_string(), "$r".to_string()]);
}

#[test]
fn plain_message_of_a_direct_chat_runs_a_turn() {
    let mut store = stored();
    assert_eq!(
        on_room_message(&mut store, BOT, ROOM, true, &message(ALICE, "Hello", &[])),
        Reaction::Converse
    );
    assert_eq!(store.get_or_create(BOT, ROOM), vec!["$p".to_string(), "$r".to_string()]);
}

#[test]
fn own_messages_are_ignored() {
    let mut store = stored();
    assert_eq!(on_room_message(&mut store, BOT, ROOM, true, &message(BOT, "Hello", &[])), Reaction::Ignore);
    assert_eq!(on_room_message(&mut store, BOT, ROOM, true, &message(BOT, "!reset", &[])), Reaction::Ignore);
    assert_eq!(on_room_message(&mut store, BOT, ROOM, false, &message(BOT, "!reset", &[BOT])), Reaction::Ignore);
    assert_eq!(store.get_or_create(BOT, ROOM), vec!["$p".to_string(), "$r".to_string()]);
}

#[test]
fn group_chat_message_without_a_mention_is_ignored() {
    let mut store = stored();
    assert_eq!(on_room_message(&mut store, BOT, ROOM, false, &message(ALICE, "Hello", &[])), Reaction::Ignore);
    assert_eq!(
        on_room_message(&mut store, BOT, ROOM, false, &message(ALICE, "Hello", &[ALICE])),
        Reaction::Ignore
    );
    assert_eq!(on_room_message(&mut store, BOT, ROOM, false, &message(ALICE, "!reset", &[])), Reaction::Ignore);
    assert_eq!(store.get_or_create(BOT, ROOM), vec!["$p".to_string(), "$r".to_string()]);
}

#[test]
fn group_chat_message_with_a_mention_proceeds() {
    let mut store = stored();
    assert_eq!(
        on_room_message(&mut store, BOT, ROOM, false, &message(ALICE, "Hello", &[ALICE, BOT])),
        Reaction::Converse
    );
    assert_eq!(
        on_room_message(&mut store, BOT, ROOM, false, &message(ALICE, "!help", &[BOT])),
        Reaction::Command(Command::Help)
    );
    assert_eq!(store.get_or_create(BOT, ROOM), vec!["$p".to_string(), "$r".to_string()]);
    assert_eq!(
        on_room_message(&mut store, BOT, ROOM, false, &message(ALICE, "!reset", &[BOT])),
        Reaction::Command(Command::Reset)
    );
    assert_eq!(store.get_or_create(BOT, ROOM), Vec::<String>::new());
}

#[test]
fn bot_joins_on_its_own_invitation_only() {
    assert!(on_room_member(BOT, BOT, Membership::Invited));
    assert!(!on_room_member(BOT, ALICE, Membership::Invited));
    assert!(!on_room_member(BOT, BOT, Membership::Left));
    assert!(!on_room_member(BOT, BOT, Membership::Other));
    assert!(!on_room_member(BOT, ALICE, Membership::Other));
}

#[test]
fn text_lists_are_copied_and_searched() {
    let list = vec!["a".to_string(), "b".to_string()];
    assert_eq!(copy_texts(&list), list);
    assert!(holds_text(&list, "a"));
    assert!(holds_text(&list, "b"));
    assert!(!holds_text(&list, "c"));
    assert!(!holds_text(&Vec::new(), "a"));
}
