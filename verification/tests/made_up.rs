use vim_telegam::app::App;
use vim_telegam::mock::MockState;
use vim_telegam::telegram::{Chat, Command, Message, TgEvent, TgHandle};

const NOW: i64 = 1_700_000_000;

fn chats(events: &[TgEvent]) -> &Vec<Chat> {
    events
        .iter()
        .find_map(|e| match e {
            TgEvent::ChatsLoaded(chats) => Some(chats),
            _ => None,
        })
        .unwrap()
}

fn messages(events: &[TgEvent]) -> &Vec<Message> {
    events
        .iter()
        .find_map(|e| match e {
            TgEvent::MessagesLoaded { messages, .. } => Some(messages),
            _ => None,
        })
        .unwrap()
}

fn load(state: &mut MockState, id: &str) -> Vec<Message> {
    let (events, stop) = state.handle(Command::LoadMessages(id.to_string()), NOW);
    assert!(!stop);
    messages(&events).clone()
}

#[test]
fn ten_chats_are_seeded() {
    let mut state = MockState::seed(NOW);
    let (events, stop) = state.handle(Command::LoadChats, NOW);
    assert!(!stop);
    assert_eq!(events.len(), 1);
    let list = chats(&events);
    assert_eq!(list.len(), 10);
    assert_eq!((list[0].id.as_str(), list[0].name.as_str()), ("1", "Alice"));
    assert_eq!(list[0].username.as_deref(), Some("alice"));
    assert_eq!(list[1].last_preview, "looks good 🚀");
    assert_eq!((list[9].id.as_str(), list[9].username.as_deref()), ("10", None));
}

#[test]
fn every_chat_has_a_history() {
    let mut state = MockState::seed(NOW);
    for i in 1..=10 {
        let list = load(&mut state, &i.to_string());
        assert_eq!(list.len(), 25);
    }
    let list = load(&mut state, "2");
    assert_eq!(list[0].text, "looks good 🚀 — message 0");
    assert_eq!((list[0].sender.as_str(), list[0].outgoing, list[0].edited), ("me", true, true));
    assert_eq!((list[1].sender.as_str(), list[1].outgoing, list[1].edited), ("Bob", false, false));
    assert_eq!(list[10].reply_to_id, Some(9));
    assert_eq!(list[0].reply_to_id, None);
    assert_eq!(list[0].timestamp, NOW - 25 * 60);
    assert_eq!(list[24].timestamp, NOW - 60);
    assert!(load(&mut state, "11").is_empty());
}

#[test]
fn sent_messages_come_back() {
    let mut state = MockState::seed(NOW);
    assert!(state.can_send());
    let send = |text: &str| Command::Send {
        chat_id: "3".to_string(),
        text: text.to_string(),
        reply_to: Some(1),
    };
    let (events, _) = state.handle(send("hello\nyou"), NOW);
    assert_eq!(events.len(), 3);
    let last = messages(&events).last().unwrap().clone();
    assert_eq!((last.id, last.text.as_str(), last.reply_to_id), (1001, "hello\nyou", None));
    assert_eq!((last.sender.as_str(), last.outgoing, last.timestamp), ("me", true, NOW));
    assert_eq!(chats(&events)[2].last_preview, "hello");
    assert!(matches!(&events[2], TgEvent::MessageSent { chat_id } if chat_id == "3"));
    let (events, _) = state.handle(send("again"), NOW);
    assert_eq!(messages(&events).last().unwrap().id, 1002);
    assert_eq!(messages(&events).len(), 27);
}

#[test]
fn a_message_to_an_unknown_chat_opens_a_list() {
    let mut state = MockState::seed(NOW);
    let (events, _) = state.handle(
        Command::Send { chat_id: "new".to_string(), text: "x".to_string(), reply_to: None },
        NOW,
    );
    assert_eq!(messages(&events).len(), 1);
    assert_eq!(chats(&events).len(), 10);
}

#[test]
fn messages_are_deleted_and_edited() {
    let mut state = MockState::seed(NOW);
    let (events, _) =
        state.handle(Command::Delete { chat_id: "1".to_string(), ids: vec![0, 24, 99] }, NOW);
    assert_eq!(events.len(), 2);
    assert_eq!(messages(&events).len(), 23);
    assert_eq!(messages(&events)[0].id, 1);
    let (events, _) = state.handle(
        Command::Edit { chat_id: "1".to_string(), msg_id: 5, text: "new".to_string() },
        NOW,
    );
    assert_eq!(events.len(), 1);
    assert_eq!(messages(&events)[4].text, "new");
    assert_eq!(messages(&events)[3].text, "see you at 5 — message 4");
    let (events, _) = state.handle(
        Command::Edit { chat_id: "1".to_string(), msg_id: 0, text: "gone".to_string() },
        NOW,
    );
    assert!(messages(&events).iter().all(|m| m.text != "gone"));
}

#[test]
fn the_rest_is_answered() {
    let mut state = MockState::seed(NOW);
    let (events, _) =
        state.handle(Command::LoadOlder { chat_id: "1".to_string(), before_id: 0 }, NOW);
    assert!(matches!(&events[..], [TgEvent::OlderMessagesLoaded { chat_id, messages }]
        if chat_id == "1" && messages.is_empty()));
    let (events, _) =
        state.handle(Command::FetchMedia { chat_id: "1".to_string(), msg_id: 0 }, NOW);
    assert!(matches!(&events[..], [TgEvent::Error(text)]
        if text == "mock backend has no media to fetch"));
    let (events, stop) = state.handle(Command::SendTyping { chat_id: "1".to_string() }, NOW);
    assert!(events.is_empty() && !stop);
    let (events, stop) = state.handle(Command::Shutdown, NOW);
    assert!(events.is_empty() && stop);
}

#[test]
fn the_program_runs_on_it() {
    let mut state = MockState::seed(NOW);
    let mut app = App::new(TgHandle::new(), vec![]);
    for _ in 0..4 {
        for command in app.tg.take() {
            let (events, _) = state.handle(command, NOW);
            for ev in events {
                assert!(app.can_apply(&ev, 0));
                app.apply_event(ev, 0);
            }
        }
    }
    assert_eq!(app.chats.len(), 10);
    assert_eq!(app.messages.len(), 25);
    assert_eq!(app.msg_cursor, 24);
}
