use std::path::PathBuf;
use vim_telegam::app::{App, EditTarget, Focus, ImageViewer, MediaTask, Mode};
use vim_telegam::input::{KeyCode, KeyEvent};
use vim_telegam::keymap::{bindings_help, handle_normal};
use vim_telegam::telegram::{Chat, Command, MediaKind, Message, TgEvent, TgHandle};

const SECOND: u64 = 1_000_000_000;

fn chat(id: &str, name: &str) -> Chat {
    Chat {
        id: id.to_string(),
        name: name.to_string(),
        username: None,
        last_preview: format!("preview of {}", name),
        unread: 0,
    }
}

fn message(id: u64, text: &str, outgoing: bool) -> Message {
    Message {
        id,
        sender: if outgoing { "me".to_string() } else { "Ann".to_string() },
        text: text.to_string(),
        timestamp: 0,
        outgoing,
        reply_to_id: None,
        edited: false,
        media_kind: None,
        media_path: None,
    }
}

fn key(code: KeyCode) -> KeyEvent {
    KeyEvent { code, ctrl: false, alt: false, shift: false }
}

fn ch(c: char) -> KeyEvent {
    key(KeyCode::Char(c))
}

fn ctrl(c: char) -> KeyEvent {
    KeyEvent { code: KeyCode::Char(c), ctrl: true, alt: false, shift: false }
}

fn press(app: &mut App, keys: &str) {
    for c in keys.chars() {
        app.on_key(ch(c), 0);
    }
}

/// Three chats, with four messages in the open one and nothing left to send.
fn sample() -> App {
    let mut app = App::new(TgHandle::new(), vec!["mpv".to_string(), "--fs".to_string()]);
    app.apply_event(
        TgEvent::ChatsLoaded(vec![chat("a", "Ann"), chat("b", "Bob"), chat("c", "Cid")]),
        0,
    );
    let mut answer = message(14, "fourth", false);
    answer.reply_to_id = Some(12);
    app.apply_event(
        TgEvent::MessagesLoaded {
            chat_id: "a".to_string(),
            messages: vec![
                message(11, "first", false),
                message(12, "second\nline", true),
                message(13, "third", false),
                answer,
            ],
        },
        0,
    );
    app.tg.take();
    app
}

fn on_messages() -> App {
    let mut app = sample();
    press(&mut app, "l");
    assert_eq!(app.focus, Focus::Messages);
    app
}

fn sent_text(app: &mut App) -> Option<String> {
    app.tg.take().into_iter().find_map(|c| match c {
        Command::Send { text, .. } => Some(text),
        Command::Edit { text, .. } => Some(text),
        _ => None,
    })
}

#[test]
fn starting_asks_for_the_chats() {
    let mut app = App::new(TgHandle::new(), vec![]);
    assert_eq!(app.status, "Connecting…");
    assert_eq!(app.mode, Mode::Normal);
    assert_eq!(app.focus, Focus::ChatList);
    let sent = app.tg.take();
    assert_eq!(sent.len(), 1);
    assert!(matches!(sent[0], Command::LoadChats));
    assert!(app.tg.take().is_empty());
}

#[test]
fn mode_labels() {
    assert_eq!(Mode::Normal.label(), " NORMAL ");
    assert_eq!(Mode::Insert.label(), " INSERT ");
    assert_eq!(Mode::Search.label(), " SEARCH ");
    assert_eq!(Mode::Help.label(), " HELP ");
}

#[test]
fn focus_comes_round_after_three() {
    assert_eq!(Focus::ChatList.cycle(), Focus::Messages);
    assert_eq!(Focus::Messages.cycle(), Focus::Input);
    assert_eq!(Focus::Input.cycle(), Focus::ChatList);
    let mut app = sample();
    app.on_key(key(KeyCode::Tab), 0);
    assert_eq!((app.focus, app.mode), (Focus::Messages, Mode::Normal));
    app.on_key(ctrl('w'), 0);
    assert_eq!((app.focus, app.mode), (Focus::Input, Mode::Insert));
    app.on_key(ctrl('w'), 0);
    assert_eq!((app.focus, app.mode), (Focus::ChatList, Mode::Normal));
}

#[test]
fn q_quits() {
    let mut app = sample();
    press(&mut app, "q");
    assert!(app.should_quit);
    assert!(matches!(app.tg.take()[..], [Command::Shutdown]));
}

#[test]
fn help_opens_and_closes() {
    let mut app = sample();
    press(&mut app, "?");
    assert_eq!(app.mode, Mode::Help);
    press(&mut app, "j");
    assert_eq!((app.mode, app.chat_cursor), (Mode::Help, 0));
    press(&mut app, "q");
    assert_eq!(app.mode, Mode::Normal);
    assert!(!app.should_quit);
}

#[test]
fn moving_through_chats_opens_them() {
    let mut app = sample();
    app.chats[1].unread = 7;
    press(&mut app, "j");
    assert_eq!(app.chat_cursor, 1);
    assert_eq!(app.chats[1].unread, 0);
    assert!(app.messages.is_empty());
    assert!(matches!(&app.tg.take()[..], [Command::LoadMessages(id)] if id == "b"));
    press(&mut app, "G");
    assert_eq!(app.chat_cursor, 2);
    press(&mut app, "j");
    assert_eq!(app.chat_cursor, 2);
    press(&mut app, "gg");
    assert_eq!(app.chat_cursor, 0);
    press(&mut app, "k");
    assert_eq!(app.chat_cursor, 0);
}

#[test]
fn pages_move_by_ten_and_twenty() {
    let mut app = sample();
    let many: Vec<Message> = (0..50).map(|i| message(i, "m", false)).collect();
    app.apply_event(TgEvent::MessagesLoaded { chat_id: "a".to_string(), messages: many }, 0);
    press(&mut app, "l");
    assert_eq!(app.msg_cursor, 49);
    app.on_key(ctrl('u'), 0);
    assert_eq!(app.msg_cursor, 39);
    app.on_key(ctrl('b'), 0);
    assert_eq!(app.msg_cursor, 19);
    app.on_key(ctrl('d'), 0);
    assert_eq!(app.msg_cursor, 29);
    app.on_key(ctrl('f'), 0);
    assert_eq!(app.msg_cursor, 49);
    app.on_key(ctrl('f'), 0);
    assert_eq!(app.msg_cursor, 49);
}

#[test]
fn left_and_right_switch_lists_only() {
    let mut app = sample();
    app.on_key(key(KeyCode::Right), 0);
    assert_eq!(app.focus, Focus::Messages);
    app.on_key(key(KeyCode::Right), 0);
    assert_eq!(app.focus, Focus::Messages);
    app.on_key(key(KeyCode::Left), 0);
    assert_eq!(app.focus, Focus::ChatList);
    press(&mut app, "h");
    assert_eq!(app.focus, Focus::ChatList);
}

#[test]
fn typed_text_is_sent_and_cleared() {
    let mut app = sample();
    press(&mut app, "i");
    assert_eq!((app.mode, app.focus), (Mode::Insert, Focus::Input));
    press(&mut app, "hello");
    app.on_key(KeyEvent { code: KeyCode::Enter, ctrl: true, alt: false, shift: false }, 0);
    press(&mut app, "you");
    app.on_key(key(KeyCode::Backspace), 0);
    app.tg.take();
    app.on_key(key(KeyCode::Enter), 0);
    let sent = app.tg.take();
    assert!(matches!(&sent[..], [Command::Send { chat_id, text, reply_to: None }]
        if chat_id == "a" && text == "hello\nyo"));
    app.on_key(key(KeyCode::Enter), 0);
    assert!(app.tg.take().is_empty());
    app.on_key(key(KeyCode::Esc), 0);
    assert_eq!((app.mode, app.focus), (Mode::Normal, Focus::Messages));
}

#[test]
fn blank_text_is_not_sent() {
    let mut app = sample();
    press(&mut app, "i  \u{a0} ");
    app.tg.take();
    app.on_key(key(KeyCode::Enter), 0);
    assert!(app.tg.take().is_empty());
    press(&mut app, "x");
    app.on_key(key(KeyCode::Enter), 0);
    assert_eq!(sent_text(&mut app).unwrap(), "  \u{a0} x");
}

#[test]
fn nothing_is_sent_without_a_chat() {
    let mut app = App::new(TgHandle::new(), vec![]);
    app.tg.take();
    press(&mut app, "ihello");
    app.on_key(key(KeyCode::Enter), 0);
    assert!(app.tg.take().is_empty());
}

#[test]
fn drafts_come_back_with_the_cursor_at_the_end() {
    let mut app = sample();
    press(&mut app, "ione");
    app.on_key(KeyEvent { code: KeyCode::Enter, ctrl: true, alt: false, shift: false }, 0);
    press(&mut app, "two");
    app.on_key(key(KeyCode::Home), 0);
    app.on_key(key(KeyCode::Esc), 0);
    press(&mut app, "hj");
    assert_eq!(app.chat_cursor, 1);
    app.tg.take();
    press(&mut app, "ibob");
    app.on_key(key(KeyCode::Enter), 0);
    assert_eq!(sent_text(&mut app).unwrap(), "bob");
    app.on_key(key(KeyCode::Esc), 0);
    press(&mut app, "hk");
    assert_eq!(app.chat_cursor, 0);
    press(&mut app, "i!");
    app.on_key(key(KeyCode::Enter), 0);
    assert_eq!(sent_text(&mut app).unwrap(), "one\ntwo!");
    app.on_key(key(KeyCode::Esc), 0);
    press(&mut app, "hjk");
    press(&mut app, "ix");
    app.on_key(key(KeyCode::Enter), 0);
    assert_eq!(sent_text(&mut app).unwrap(), "x");
}

#[test]
fn an_emptied_composer_leaves_no_draft() {
    let mut app = sample();
    press(&mut app, "ix");
    app.on_key(key(KeyCode::Esc), 0);
    press(&mut app, "hjk");
    assert!(app.drafts.contains(&"a".to_string()));
    app.on_key(ch('i'), 0);
    app.on_key(key(KeyCode::Backspace), 0);
    app.on_key(key(KeyCode::Esc), 0);
    press(&mut app, "hj");
    assert!(!app.drafts.contains(&"a".to_string()));
}

#[test]
fn a_reply_names_the_selected_message() {
    let mut app = on_messages();
    press(&mut app, "kk");
    assert_eq!(app.msg_cursor, 1);
    press(&mut app, "r");
    let target = app.replying_to.as_ref().unwrap();
    assert_eq!(
        (target.msg_id, target.sender.as_str(), target.preview.as_str()),
        (12, "me", "second")
    );
    assert_eq!((app.mode, app.focus), (Mode::Insert, Focus::Input));
    press(&mut app, "ok");
    app.on_key(key(KeyCode::Enter), 0);
    let sent = app.tg.take();
    assert!(sent.iter().any(|c| matches!(c, Command::Send { text, reply_to: Some(12), .. } if text == "ok")));
    assert!(app.replying_to.is_none());
}

#[test]
fn previews_of_replies_are_cut_at_sixty() {
    let mut app = on_messages();
    app.messages[3].text = "é".repeat(100);
    press(&mut app, "r");
    assert_eq!(app.replying_to.unwrap().preview, "é".repeat(60));
}

#[test]
fn reply_toggles_off() {
    let mut app = on_messages();
    press(&mut app, "r");
    app.on_key(key(KeyCode::Esc), 0);
    assert!(app.replying_to.is_some());
    press(&mut app, "r");
    assert!(app.replying_to.is_none());
}

#[test]
fn an_edit_is_prefilled_and_sent() {
    let mut app = on_messages();
    press(&mut app, "kk");
    press(&mut app, "e");
    assert_eq!(app.editing, Some(EditTarget { msg_id: 12 }));
    press(&mut app, "!");
    app.tg.take();
    app.on_key(key(KeyCode::Enter), 0);
    let sent = app.tg.take();
    assert!(matches!(&sent[..], [Command::Edit { chat_id, msg_id: 12, text }]
        if chat_id == "a" && text == "second\nline!"));
    assert!(app.editing.is_none());
}

#[test]
fn an_unchanged_edit_keeps_the_text() {
    let mut app = on_messages();
    press(&mut app, "kke");
    app.on_key(key(KeyCode::Enter), 0);
    assert_eq!(sent_text(&mut app).unwrap(), "second\nline");
}

#[test]
fn only_own_messages_can_be_edited() {
    let mut app = on_messages();
    press(&mut app, "e");
    assert!(app.editing.is_none());
    assert_eq!(app.status, "Can only edit your own messages");
}

#[test]
fn reply_and_edit_exclude_each_other() {
    let mut app = on_messages();
    press(&mut app, "kke");
    app.on_key(key(KeyCode::Esc), 0);
    press(&mut app, "r");
    assert!(app.editing.is_none());
    assert!(app.replying_to.is_some());
    press(&mut app, "x");
    app.on_key(key(KeyCode::Enter), 0);
    assert_eq!(sent_text(&mut app).unwrap(), "x");
    app.on_key(key(KeyCode::Esc), 0);
    press(&mut app, "r");
    app.on_key(key(KeyCode::Esc), 0);
    press(&mut app, "e");
    assert!(app.editing.is_some());
    assert!(app.replying_to.is_none());
    app.on_key(key(KeyCode::Esc), 0);
    press(&mut app, "e");
    assert!(app.editing.is_none());
}

#[test]
fn dd_asks_for_deletion() {
    let mut app = on_messages();
    press(&mut app, "d");
    assert!(app.tg.take().is_empty());
    press(&mut app, "d");
    assert!(matches!(&app.tg.take()[..], [Command::Delete { chat_id, ids }]
        if chat_id == "a" && ids[..] == [14]));
    assert_eq!(app.status, "Deleted");
    let left: Vec<u64> = app.messages.iter().map(|m| m.id).collect();
    assert_eq!(left, [11, 12, 13]);
    assert_eq!(app.msg_cursor, 2);
    app.apply_event(TgEvent::MessageDeleted { chat_id: None, ids: vec![14] }, 0);
    assert_eq!(app.messages.len(), 3);
    press(&mut app, "kdd");
    let left: Vec<u64> = app.messages.iter().map(|m| m.id).collect();
    assert_eq!(left, [11, 13]);
    assert_eq!(app.msg_cursor, 1);
}

#[test]
fn the_last_message_can_be_deleted() {
    let mut app = on_messages();
    press(&mut app, "dddddddd");
    assert!(app.messages.is_empty());
    assert_eq!(app.msg_cursor, 0);
    app.tg.take();
    press(&mut app, "dd");
    assert!(app.tg.take().is_empty());
}

#[test]
fn d_does_nothing_on_the_chats() {
    let mut app = sample();
    press(&mut app, "dd");
    assert!(app.tg.take().is_empty());
    assert_eq!(app.pending_key, None);
}

#[test]
fn gd_goes_to_the_reply_target() {
    let mut app = on_messages();
    press(&mut app, "gd");
    assert_eq!(app.msg_cursor, 1);
    assert_eq!(app.status, "→ reply target");
    press(&mut app, "gd");
    assert_eq!(app.status, "Not a reply");
    app.messages[1].reply_to_id = Some(3);
    press(&mut app, "gd");
    assert_eq!(app.status, "Reply target is older than loaded history");
    assert_eq!(app.msg_cursor, 1);
}

#[test]
fn a_broken_sequence_counts_by_itself() {
    let mut app = on_messages();
    press(&mut app, "gk");
    assert_eq!(app.msg_cursor, 2);
    assert_eq!(app.pending_key, None);
    press(&mut app, "dk");
    assert_eq!(app.msg_cursor, 1);
    press(&mut app, "dg");
    assert_eq!(app.pending_key, Some('g'));
}

#[test]
fn the_top_asks_for_older_messages_once() {
    let mut app = on_messages();
    press(&mut app, "gg");
    assert_eq!(app.msg_cursor, 0);
    assert!(app.tg.take().is_empty());
    press(&mut app, "k");
    assert!(matches!(&app.tg.take()[..], [Command::LoadOlder { chat_id, before_id: 11 }]
        if chat_id == "a"));
    assert_eq!(app.status, "Loading older messages…");
    press(&mut app, "kgg");
    assert!(app.tg.take().is_empty());
}

#[test]
fn media_is_fetched_and_opened() {
    let mut app = on_messages();
    app.messages[3].media_kind = Some(MediaKind::Photo);
    press(&mut app, "v");
    assert_eq!(app.status, "Downloading…");
    assert!(matches!(&app.tg.take()[..], [Command::FetchMedia { chat_id, msg_id: 14 }]
        if chat_id == "a"));
    let path = PathBuf::from("/cache/a_14");
    app.apply_event(
        TgEvent::MediaFetched { chat_id: "a".to_string(), msg_id: 14, path: path.clone() },
        0,
    );
    let tasks = app.take_tasks();
    assert!(matches!(&tasks[..], [MediaTask::OpenImage(p)] if *p == path));
    assert!(app.take_tasks().is_empty());
    assert_eq!(app.messages[3].media_path, Some(path.clone()));
    app.image_opened(path.clone());
    assert_eq!(app.status, "");
    press(&mut app, "jx");
    assert!(app.image_viewer.is_some());
    press(&mut app, "v");
    assert!(app.image_viewer.is_none());
    press(&mut app, "v");
    assert!(app.tg.take().is_empty());
    assert!(matches!(&app.take_tasks()[..], [MediaTask::OpenImage(p)] if *p == path));
}

#[test]
fn videos_go_to_the_player() {
    let mut app = on_messages();
    app.messages[3].media_kind = Some(MediaKind::Video);
    press(&mut app, "v");
    assert_eq!(app.status, "Downloading video…");
    let path = PathBuf::from("/cache/a_14");
    app.apply_event(
        TgEvent::MediaFetched { chat_id: "a".to_string(), msg_id: 14, path: path.clone() },
        0,
    );
    assert!(matches!(&app.take_tasks()[..], [MediaTask::PlayVideo { argv, path: p }]
        if argv[..] == ["mpv", "--fs"] && *p == path));
    app.video_launched("mpv");
    assert_eq!(app.status, "launched mpv");
    app.video_failed("mpv", "not found");
    assert_eq!(app.status, "mpv: not found (set VT_PLAYER or [media] player)");
    app.image_failed("bad magic");
    assert_eq!(app.status, "decode failed: bad magic");
    app.player_argv = vec![];
    press(&mut app, "v");
    assert_eq!(app.status, "player not configured");
    assert!(app.take_tasks().is_empty());
}

#[test]
fn media_that_cannot_be_viewed() {
    let mut app = on_messages();
    press(&mut app, "v");
    assert_eq!(app.status, "No media on this message");
    app.messages[3].media_kind = Some(MediaKind::Document);
    press(&mut app, "v");
    assert_eq!(app.status, "Media type not viewable");
    app.messages[3].media_kind = Some(MediaKind::Other);
    app.status = String::new();
    press(&mut app, "v");
    assert_eq!(app.status, "Media type not viewable");
    assert!(app.tg.take().is_empty());
}

#[test]
fn media_that_nobody_waits_for_is_only_remembered() {
    let mut app = on_messages();
    app.messages[0].media_kind = Some(MediaKind::Sticker);
    app.apply_event(
        TgEvent::MediaFetched {
            chat_id: "a".to_string(),
            msg_id: 11,
            path: PathBuf::from("/x"),
        },
        0,
    );
    assert!(app.take_tasks().is_empty());
    assert_eq!(app.messages[0].media_path, Some(PathBuf::from("/x")));
}

#[test]
fn the_viewer_takes_all_keys() {
    let mut app = sample();
    app.image_viewer = Some(ImageViewer { path: PathBuf::from("/x") });
    press(&mut app, "jli?");
    assert_eq!((app.chat_cursor, app.focus, app.mode), (0, Focus::ChatList, Mode::Normal));
    press(&mut app, "q");
    assert!(app.image_viewer.is_none());
    assert!(!app.should_quit);
}

#[test]
fn typing_is_told_every_three_seconds() {
    let mut app = sample();
    app.on_key(ch('i'), 0);
    let mut told = vec![];
    for (at, c) in [(0, 'a'), (1, 'b'), (2, 'c'), (3, 'd'), (4, 'e'), (6, 'f')] {
        app.on_key(ch(c), 10 * SECOND + at * SECOND);
        let sent = app.tg.take();
        if let [Command::SendTyping { chat_id }] = &sent[..] {
            assert_eq!(chat_id, "a");
            told.push(at);
        } else {
            assert!(sent.is_empty());
        }
    }
    assert_eq!(told, vec![0, 3, 6]);
    app.maybe_send_typing(9 * SECOND);
    assert!(app.tg.take().is_empty());
}

#[test]
fn typing_just_short_of_the_interval_is_not_told() {
    let mut app = sample();
    app.maybe_send_typing(0);
    app.tg.take();
    app.maybe_send_typing(3 * SECOND - 1);
    assert!(app.tg.take().is_empty());
    app.maybe_send_typing(3 * SECOND);
    assert_eq!(app.tg.take().len(), 1);
}

#[test]
fn the_help_lists_the_keys() {
    let list = bindings_help();
    assert_eq!(list.len(), 17);
    assert_eq!(list[0], ("q", "Quit"));
    assert_eq!(list[16], ("Enter (insert)", "Send message"));
}

#[test]
fn slash_searches_the_pane() {
    let mut app = sample();
    press(&mut app, "/");
    assert_eq!(app.mode, Mode::Search);
    press(&mut app, "bob");
    app.on_key(key(KeyCode::Enter), 0);
    assert_eq!((app.mode, app.focus, app.chat_cursor), (Mode::Normal, Focus::Messages, 1));
    assert!(app.fuzzy.is_none());
    let mut app = on_messages();
    press(&mut app, "/third");
    app.on_key(key(KeyCode::Enter), 0);
    assert_eq!(app.msg_cursor, 2);
}

#[test]
fn the_switcher_moves_and_closes() {
    let mut app = sample();
    app.on_key(ctrl('p'), 0);
    app.on_key(key(KeyCode::Down), 0);
    app.on_key(ctrl('n'), 0);
    app.on_key(ctrl('k'), 0);
    app.on_key(key(KeyCode::Enter), 0);
    assert_eq!(app.chat_cursor, 1);
    app.on_key(ctrl('p'), 0);
    app.on_key(key(KeyCode::Up), 0);
    app.on_key(key(KeyCode::Enter), 0);
    assert_eq!(app.chat_cursor, 2);
    app.on_key(ctrl('p'), 0);
    press(&mut app, "zzzzzz");
    app.on_key(key(KeyCode::Enter), 0);
    assert_eq!((app.chat_cursor, app.mode), (2, Mode::Normal));
    app.on_key(ctrl('p'), 0);
    app.on_key(key(KeyCode::Esc), 0);
    assert!(app.fuzzy.is_none());
    assert_eq!(app.mode, Mode::Normal);
}

#[test]
fn search_mode_without_a_picker_ends() {
    let mut app = sample();
    app.mode = Mode::Search;
    press(&mut app, "x");
    assert_eq!(app.mode, Mode::Normal);
}

#[test]
fn opening_a_chat_ends_reply_and_edit() {
    let mut app = on_messages();
    press(&mut app, "r");
    app.on_key(key(KeyCode::Esc), 0);
    press(&mut app, "hj");
    assert!(app.replying_to.is_none());
    let mut app = on_messages();
    press(&mut app, "kke");
    app.on_key(key(KeyCode::Esc), 0);
    app.loading_older = true;
    press(&mut app, "hj");
    assert!(app.editing.is_none());
    assert!(!app.loading_older);
    press(&mut app, "k");
    assert_eq!(app.drafts.get(&"a".to_string()).unwrap()[..], ["second", "line"]);
}

#[test]
fn only_insert_mode_types() {
    let mut app = sample();
    press(&mut app, "zzz?zz?");
    press(&mut app, "/zz");
    app.on_key(key(KeyCode::Esc), 0);
    press(&mut app, "ix");
    app.on_key(key(KeyCode::Enter), 0);
    assert_eq!(sent_text(&mut app).unwrap(), "x");
}

#[test]
fn modes_and_panes_agree_all_the_way() {
    let mut app = sample();
    let codes = [
        KeyCode::Char('l'), KeyCode::Char('r'), KeyCode::Char('a'), KeyCode::Esc,
        KeyCode::Char('/'), KeyCode::Char('t'), KeyCode::Enter, KeyCode::Tab, KeyCode::Char('q'),
        KeyCode::Esc, KeyCode::Char('?'), KeyCode::Char('i'), KeyCode::Esc, KeyCode::Char('g'),
        KeyCode::Char('e'), KeyCode::Char('h'), KeyCode::Char('/'), KeyCode::Backspace,
        KeyCode::Down, KeyCode::Enter, KeyCode::Char('i'), KeyCode::Enter, KeyCode::Other,
    ];
    for _ in 0..3 {
        for code in codes {
            app.on_key(key(code), 0);
            assert_eq!(app.mode == Mode::Insert, app.focus == Focus::Input);
            assert_eq!(app.mode == Mode::Search, app.fuzzy.is_some());
            assert!(!(app.replying_to.is_some() && app.editing.is_some()));
        }
    }
}

#[test]
fn a_stale_picker_can_leave_the_list() {
    let mut app = sample();
    app.on_key(ctrl('p'), 0);
    app.on_key(key(KeyCode::Up), 0);
    app.apply_event(TgEvent::ChatsLoaded(vec![chat("a", "Ann")]), 0);
    app.on_key(key(KeyCode::Enter), 0);
    assert_eq!(app.chat_cursor, 2);
    app.apply_event(TgEvent::ChatsLoaded(vec![chat("a", "Ann")]), 0);
    assert_eq!(app.chat_cursor, 0);
}

#[test]
fn dd_sends_one_deletion() {
    let mut app = sample();
    app.focus = Focus::Messages;
    app.msg_cursor = 1;
    handle_normal(&mut app, ch('d'));
    assert!(app.tg.take().is_empty());
    assert_eq!(app.pending_key, Some('d'));
    handle_normal(&mut app, ch('d'));
    let sent = app.tg.take();
    assert_eq!(sent.len(), 1);
    assert!(matches!(&sent[0], Command::Delete { chat_id, ids } if chat_id == "a" && ids[..] == [12]));
    assert_eq!(app.pending_key, None);
    assert_eq!((app.mode, app.focus, app.chat_cursor), (Mode::Normal, Focus::Messages, 0));
}

#[test]
fn leaving_a_chat_and_coming_back_restores_its_text() {
    let mut app = sample();
    app.on_key(ch('i'), 0);
    press(&mut app, "one");
    app.on_key(KeyEvent { code: KeyCode::Enter, ctrl: true, alt: false, shift: false }, 0);
    press(&mut app, "two");
    app.set_chat_cursor(2);
    assert_eq!(app.chat_cursor, 2);
    app.set_chat_cursor(0);
    assert_eq!(app.chat_cursor, 0);
    app.tg.take();
    app.on_key(key(KeyCode::Enter), 0);
    let sent = app.tg.take();
    assert!(matches!(&sent[0], Command::Send { text, .. } if text == "one\ntwo"));
}

#[test]
fn events_leave_what_can_be_undone() {
    let mut app = sample();
    app.on_key(ch('i'), 0);
    press(&mut app, "ab");
    let mut other = message(30, "hello", false);
    other.timestamp = 5;
    app.apply_event(TgEvent::NewMessage { chat_id: "b".to_string(), message: other }, 0);
    app.on_tick(1);
    app.on_key(key(KeyCode::Esc), 0);
    app.on_key(ch('?'), 0);
    app.on_key(ch('?'), 0);
    app.on_key(ch('i'), 0);
    app.on_key(ctrl('u'), 0);
    app.tg.take();
    app.on_key(key(KeyCode::Enter), 0);
    let sent = app.tg.take();
    assert!(matches!(&sent[0], Command::Send { text, .. } if text == "a"));
}

#[test]
fn drafts_with_line_feeds_can_be_edited() {
    let mut app = sample();
    app.drafts.insert("b".to_string(), vec!["a\nb".to_string(), "c".to_string()]);
    app.set_chat_cursor(1);
    app.on_key(ch('i'), 0);
    app.on_key(ctrl('j'), 0);
    app.on_key(ctrl('y'), 0);
    app.on_key(ctrl('y'), 0);
    app.tg.take();
    app.on_key(key(KeyCode::Enter), 0);
    let sent = app.tg.take();
    assert!(matches!(&sent[0], Command::Send { text, .. } if text == "a\nb\ncc"));
}

#[test]
fn deleted_text_can_be_pasted_after_other_keys() {
    let mut app = sample();
    app.on_key(ch('i'), 0);
    press(&mut app, "hello");
    app.on_key(ctrl('j'), 0);
    press(&mut app, "x");
    app.on_key(ctrl('y'), 0);
    app.tg.take();
    app.on_key(key(KeyCode::Enter), 0);
    let sent = app.tg.take();
    assert!(matches!(&sent[0], Command::Send { text, .. } if text == "xhello"));
}
