use std::path::PathBuf;
use vim_telegam::app::App;
use vim_telegam::event::{from_terminal, Event, TerminalEvent};
use vim_telegam::input::{KeyCode, KeyEvent};
use vim_telegam::telegram::{Chat, Command, Message, TgEvent, TgHandle};

const SECOND: u64 = 1_000_000_000;

fn chat(id: &str) -> Chat {
    Chat {
        id: id.to_string(),
        name: id.to_uppercase(),
        username: None,
        last_preview: String::new(),
        unread: 0,
    }
}

fn message(id: u64, text: &str) -> Message {
    Message {
        id,
        sender: "Ann".to_string(),
        text: text.to_string(),
        timestamp: 0,
        outgoing: false,
        reply_to_id: None,
        edited: false,
        media_kind: None,
        media_path: None,
    }
}

fn ids(app: &App) -> Vec<u64> {
    app.messages.iter().map(|m| m.id).collect()
}

fn order(app: &App) -> Vec<&str> {
    app.chats.iter().map(|c| c.id.as_str()).collect()
}

fn sample() -> App {
    let mut app = App::new(TgHandle::new(), vec![]);
    app.apply_event(TgEvent::ChatsLoaded(vec![chat("a"), chat("b"), chat("c")]), 0);
    app.apply_event(
        TgEvent::MessagesLoaded {
            chat_id: "a".to_string(),
            messages: vec![message(1, "one"), message(2, "two"), message(3, "three")],
        },
        0,
    );
    app.tg.take();
    app
}

#[test]
fn connection_is_reported() {
    let mut app = sample();
    app.apply_event(TgEvent::Connected, 0);
    assert_eq!(app.status, "Connected. Press ? for help");
    app.apply_event(TgEvent::Disconnected, 0);
    assert_eq!(app.status, "Disconnected");
    app.apply_event(TgEvent::Error("no route".to_string()), 0);
    assert_eq!(app.status, "Error: no route");
    app.apply_event(TgEvent::MessageSent { chat_id: "a".to_string() }, 0);
    assert_eq!(app.status, "Error: no route");
}

#[test]
fn the_first_chats_ask_for_messages() {
    let mut app = App::new(TgHandle::new(), vec![]);
    app.tg.take();
    app.apply_event(TgEvent::ChatsLoaded(vec![]), 0);
    assert!(app.tg.take().is_empty());
    app.apply_event(TgEvent::ChatsLoaded(vec![chat("x"), chat("y")]), 0);
    assert!(matches!(&app.tg.take()[..], [Command::LoadMessages(id)] if id == "x"));
}

#[test]
fn a_reload_keeps_the_open_chat() {
    let mut app = sample();
    app.apply_event(TgEvent::ChatsLoaded(vec![chat("c"), chat("b"), chat("a")]), 0);
    assert_eq!(app.chat_cursor, 2);
    assert!(app.tg.take().is_empty());
    app.apply_event(TgEvent::ChatsLoaded(vec![chat("c"), chat("b")]), 0);
    assert_eq!(app.chat_cursor, 0);
}

#[test]
fn messages_of_other_chats_are_ignored() {
    let mut app = sample();
    app.apply_event(
        TgEvent::MessagesLoaded { chat_id: "b".to_string(), messages: vec![message(9, "x")] },
        0,
    );
    assert_eq!(ids(&app), [1, 2, 3]);
    assert_eq!(app.msg_cursor, 2);
}

#[test]
fn older_messages_keep_the_selection() {
    let mut app = sample();
    app.msg_cursor = 1;
    app.loading_older = true;
    app.apply_event(
        TgEvent::OlderMessagesLoaded {
            chat_id: "a".to_string(),
            messages: vec![message(8, "x"), message(9, "y")],
        },
        0,
    );
    assert_eq!(ids(&app), [8, 9, 1, 2, 3]);
    assert_eq!(app.msg_cursor, 3);
    assert_eq!(app.status, "+2 older");
    assert!(!app.loading_older);
    app.loading_older = true;
    app.apply_event(
        TgEvent::OlderMessagesLoaded { chat_id: "a".to_string(), messages: vec![] },
        0,
    );
    assert_eq!(app.status, "No more history");
    assert!(!app.loading_older);
    app.loading_older = true;
    app.apply_event(
        TgEvent::OlderMessagesLoaded { chat_id: "b".to_string(), messages: vec![message(7, "z")] },
        0,
    );
    assert_eq!(ids(&app), [8, 9, 1, 2, 3]);
    assert!(!app.loading_older);
}

#[test]
fn a_message_of_the_open_chat_is_shown() {
    let mut app = sample();
    app.msg_cursor = 0;
    app.apply_event(
        TgEvent::NewMessage { chat_id: "a".to_string(), message: message(4, "four\r\nmore") },
        0,
    );
    assert_eq!(ids(&app), [1, 2, 3, 4]);
    assert_eq!(app.msg_cursor, 3);
    assert_eq!(app.chats[0].last_preview, "four");
    assert_eq!(app.chats[0].unread, 0);
}

#[test]
fn a_message_of_another_chat_floats_it() {
    let mut app = sample();
    app.apply_event(
        TgEvent::NewMessage { chat_id: "c".to_string(), message: message(4, "hi") },
        0,
    );
    assert_eq!(order(&app), ["c", "a", "b"]);
    assert_eq!(app.chat_cursor, 1);
    assert_eq!((app.chats[0].unread, app.chats[0].last_preview.as_str()), (1, "hi"));
    assert_eq!(ids(&app), [1, 2, 3]);
    let mut own = message(5, "mine");
    own.outgoing = true;
    app.apply_event(TgEvent::NewMessage { chat_id: "b".to_string(), message: own }, 0);
    assert_eq!(order(&app), ["b", "c", "a"]);
    assert_eq!(app.chats[0].unread, 0);
    assert_eq!(app.chat_cursor, 2);
    app.apply_event(
        TgEvent::NewMessage { chat_id: "a".to_string(), message: message(6, "x") },
        0,
    );
    assert_eq!(order(&app), ["a", "b", "c"]);
    assert_eq!(app.chat_cursor, 0);
    app.apply_event(
        TgEvent::NewMessage { chat_id: "b".to_string(), message: message(7, "y") },
        0,
    );
    assert_eq!(app.chat_cursor, 1);
    assert_eq!(app.chats[app.chat_cursor].id, "a");
}

#[test]
fn a_message_of_an_unknown_chat_reloads() {
    let mut app = sample();
    app.apply_event(
        TgEvent::NewMessage { chat_id: "z".to_string(), message: message(4, "hi") },
        0,
    );
    assert!(matches!(app.tg.take()[..], [Command::LoadChats]));
    assert_eq!(order(&app), ["a", "b", "c"]);
}

#[test]
fn an_edit_replaces_the_message() {
    let mut app = sample();
    app.apply_event(
        TgEvent::MessageEdited { chat_id: "a".to_string(), message: message(2, "TWO") },
        0,
    );
    assert_eq!(app.messages[1].text, "TWO");
    assert_eq!(app.chats[0].last_preview, "");
    app.apply_event(
        TgEvent::MessageEdited { chat_id: "a".to_string(), message: message(3, "THREE\nx") },
        0,
    );
    assert_eq!(app.chats[0].last_preview, "THREE");
    app.apply_event(
        TgEvent::MessageEdited { chat_id: "b".to_string(), message: message(1, "no") },
        0,
    );
    assert_eq!(app.messages[0].text, "one");
    app.apply_event(
        TgEvent::MessageEdited { chat_id: "a".to_string(), message: message(99, "no") },
        0,
    );
    assert_eq!(ids(&app), [1, 2, 3]);
}

#[test]
fn deleted_messages_are_gone() {
    let mut app = sample();
    app.apply_event(
        TgEvent::MessageDeleted { chat_id: Some("b".to_string()), ids: vec![1, 2, 3] },
        0,
    );
    assert_eq!(ids(&app), [1, 2, 3]);
    app.apply_event(TgEvent::MessageDeleted { chat_id: None, ids: vec![3, 77] }, 0);
    assert_eq!(ids(&app), [1, 2]);
    assert_eq!(app.msg_cursor, 1);
    assert_eq!(app.chats[0].last_preview, "two");
    app.apply_event(
        TgEvent::MessageDeleted { chat_id: Some("a".to_string()), ids: vec![1, 2] },
        0,
    );
    assert!(app.messages.is_empty());
    assert_eq!(app.msg_cursor, 0);
    assert_eq!(app.chats[0].last_preview, "");
}

#[test]
fn typing_marks_run_out_after_six_seconds() {
    let mut app = sample();
    app.apply_event(TgEvent::Typing { chat_id: "b".to_string(), active: true }, SECOND);
    assert_eq!(app.typing_until.get(&"b".to_string()), Some(&(7 * SECOND)));
    app.on_tick(7 * SECOND - 1);
    assert!(app.typing_until.contains(&"b".to_string()));
    app.on_tick(7 * SECOND);
    assert!(!app.typing_until.contains(&"b".to_string()));
    app.apply_event(TgEvent::Typing { chat_id: "b".to_string(), active: true }, SECOND);
    app.apply_event(TgEvent::Typing { chat_id: "b".to_string(), active: false }, SECOND);
    assert!(!app.typing_until.contains(&"b".to_string()));
}

#[test]
fn events_whose_numbers_do_not_fit_are_told_apart() {
    let mut app = sample();
    app.chats[1].unread = u32::MAX;
    let ev = |chat: &str| TgEvent::NewMessage { chat_id: chat.to_string(), message: message(4, "x") };
    assert!(!app.can_apply(&ev("b"), 0));
    assert!(app.can_apply(&ev("a"), 0));
    assert!(app.can_apply(&ev("c"), 0));
    let typing = TgEvent::Typing { chat_id: "b".to_string(), active: true };
    assert!(app.can_apply(&typing, 0));
    assert!(!app.can_apply(&typing, u64::MAX));
    app.msg_cursor = usize::MAX;
    let older =
        TgEvent::OlderMessagesLoaded { chat_id: "a".to_string(), messages: vec![message(1, "x")] };
    assert!(!app.can_apply(&older, 0));
    assert!(!app.can_step(&Event::Tg(older), 0));
}

#[test]
fn a_fetch_for_another_chat_changes_nothing() {
    let mut app = sample();
    app.pending_view = Some(("b".to_string(), 1));
    app.apply_event(
        TgEvent::MediaFetched { chat_id: "b".to_string(), msg_id: 1, path: PathBuf::from("/p") },
        0,
    );
    assert!(app.pending_view.is_none());
    assert!(app.take_tasks().is_empty());
    assert!(app.messages[0].media_path.is_none());
}

#[test]
fn the_terminal_gives_presses_and_sizes() {
    let key = KeyEvent { code: KeyCode::Char('j'), ctrl: false, alt: false, shift: false };
    assert!(matches!(from_terminal(TerminalEvent::Press(key)), Some(Event::Key(k)) if k == key));
    assert!(from_terminal(TerminalEvent::HoldOrRelease(key)).is_none());
    assert!(matches!(from_terminal(TerminalEvent::Resize(80, 24)), Some(Event::Resize(80, 24))));
    assert!(from_terminal(TerminalEvent::Other).is_none());
}

#[test]
fn steps_reach_the_state() {
    let mut app = sample();
    let key = KeyEvent { code: KeyCode::Char('j'), ctrl: false, alt: false, shift: false };
    app.step(Event::Key(key), 0);
    assert_eq!(app.chat_cursor, 1);
    app.step(Event::Resize(1, 1), 0);
    app.step(Event::Tg(TgEvent::Disconnected), 0);
    assert_eq!(app.status, "Disconnected");
    app.step(Event::Tg(TgEvent::Typing { chat_id: "b".to_string(), active: true }), 0);
    app.step(Event::Tick, 7 * SECOND);
    assert!(!app.typing_until.contains(&"b".to_string()));
}
