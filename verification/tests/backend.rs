use grammers_client::session::{PackedChat, PackedType};
use vim_telegam::backend::{
    after_sign_in, convert_message, failure, media_file_name, media_kind_of, password_failure, Actor,
    LoginStep, Peer, PeerKind, Plan, RawDialog, RawMedia, RawMessage, RawUpdate, SignIn, Stage, TypingPeer,
};
use vim_telegam::telegram::{Command, MediaKind, TgEvent};

fn peer(kind: PeerKind, id: i64, access_hash: Option<i64>) -> Peer {
    Peer { kind, id, access_hash }
}

fn dialog(peer: Peer, name: &str, last: Option<&str>) -> RawDialog {
    RawDialog {
        peer,
        name: name.to_string(),
        username: Some(name.to_lowercase()),
        last_text: last.map(|s| s.to_string()),
    }
}

fn raw(id: i32, text: &str) -> RawMessage<&'static str> {
    RawMessage {
        id,
        sender: Some("Ann".to_string()),
        text: text.to_string(),
        date: 1000 + id as i64,
        outgoing: false,
        reply_to: None,
        edited: false,
        media: None,
    }
}

const ANN: &str = "422a000000000000000700000000000000";

fn ann() -> Peer {
    peer(PeerKind::User, 42, Some(7))
}

fn loaded() -> Actor<&'static str> {
    let mut actor = Actor::new();
    actor.load_chats(vec![
        dialog(ann(), "Ann", Some("hi\nthere")),
        dialog(peer(PeerKind::Megagroup, -5, None), "Group", None),
    ]);
    actor
}

#[test]
fn chats_are_listed_by_hex_ids() {
    let mut actor: Actor<()> = Actor::new();
    let ev = actor.load_chats(vec![
        dialog(ann(), "Ann", Some("hi\nthere")),
        dialog(peer(PeerKind::Megagroup, -5, None), "Group", None),
    ]);
    let TgEvent::ChatsLoaded(chats) = ev else { panic!("not a list") };
    assert_eq!(chats[0].id, ANN);
    assert_eq!(chats[0].name, "Ann");
    assert_eq!(chats[0].username.as_deref(), Some("ann"));
    assert_eq!(chats[0].last_preview, "hi\nthere");
    assert_eq!(chats[1].id, "28fbffffffffffffff0000000000000000");
    assert_eq!(chats[1].last_preview, "");
}

#[test]
fn chat_ids_are_those_of_packed_chats() {
    let kinds = [
        (PeerKind::User, PackedType::User),
        (PeerKind::Bot, PackedType::Bot),
        (PeerKind::Chat, PackedType::Chat),
        (PeerKind::Megagroup, PackedType::Megagroup),
        (PeerKind::Broadcast, PackedType::Broadcast),
        (PeerKind::Gigagroup, PackedType::Gigagroup),
    ];
    for (kind, ty) in kinds {
        for access_hash in [None, Some(0), Some(-1), Some(0x0123_4567_89ab_cdef)] {
            let mut actor: Actor<()> = Actor::new();
            let ev = actor.load_chats(vec![dialog(peer(kind, 123456789, access_hash), "x", None)]);
            let TgEvent::ChatsLoaded(chats) = ev else { panic!("not a list") };
            let back = PackedChat::from_hex(&chats[0].id).unwrap();
            assert_eq!(back, PackedChat { ty, id: 123456789, access_hash });
        }
    }
}

#[test]
fn commands_are_planned() {
    let actor = loaded();
    assert!(matches!(actor.handle_command(Command::LoadChats), Plan::LoadDialogs));
    assert!(matches!(actor.handle_command(Command::Shutdown), Plan::Stop));
    assert!(matches!(
        actor.handle_command(Command::LoadMessages(ANN.to_string())),
        Plan::LoadHistory { chat_id, peer, before: None } if chat_id == ANN && peer == ann()
    ));
    assert!(matches!(
        actor.handle_command(Command::LoadOlder { chat_id: ANN.to_string(), before_id: 9 }),
        Plan::LoadHistory { before: Some(9), .. }
    ));
    assert!(matches!(
        actor.handle_command(Command::Send {
            chat_id: ANN.to_string(),
            text: "yo".to_string(),
            reply_to: Some(3),
        }),
        Plan::Send { chat_id, peer, text, reply_to: Some(3) }
            if chat_id == ANN && peer == ann() && text == "yo"
    ));
    assert!(matches!(
        actor.handle_command(Command::Edit {
            chat_id: ANN.to_string(),
            msg_id: 4,
            text: "new".to_string(),
        }),
        Plan::Edit { peer, msg_id: 4, text } if peer == ann() && text == "new"
    ));
    assert!(matches!(
        actor.handle_command(Command::Delete { chat_id: ANN.to_string(), ids: vec![1, 2] }),
        Plan::Delete { peer, ids } if peer == ann() && ids == [1, 2]
    ));
    assert!(matches!(
        actor.handle_command(Command::SendTyping { chat_id: ANN.to_string() }),
        Plan::SendTyping { peer } if peer == ann()
    ));
}

#[test]
fn unknown_chats_are_reported() {
    let actor: Actor<()> = Actor::new();
    let told = |c: Command| match actor.handle_command(c) {
        Plan::Tell(TgEvent::Error(text)) => text,
        other => panic!("{:?}", other),
    };
    let id = || "ff".to_string();
    assert_eq!(told(Command::LoadMessages(id())), "unknown chat id ff");
    assert_eq!(told(Command::LoadOlder { chat_id: id(), before_id: 1 }), "unknown chat id ff");
    assert_eq!(
        told(Command::Send { chat_id: id(), text: "x".to_string(), reply_to: None }),
        "unknown chat id ff"
    );
    assert_eq!(
        told(Command::Edit { chat_id: id(), msg_id: 1, text: "x".to_string() }),
        "unknown chat id ff"
    );
    assert_eq!(told(Command::Delete { chat_id: id(), ids: vec![] }), "unknown chat id ff");
    assert_eq!(
        told(Command::FetchMedia { chat_id: id(), msg_id: 12 }),
        "no media cached for message 12 in chat ff"
    );
    assert!(matches!(
        actor.handle_command(Command::SendTyping { chat_id: id() }),
        Plan::Nothing
    ));
}

#[test]
fn a_reload_forgets_the_chats_before() {
    let mut actor = loaded();
    actor.load_chats(vec![]);
    assert!(matches!(
        actor.handle_command(Command::LoadMessages(ANN.to_string())),
        Plan::Tell(_)
    ));
}

#[test]
fn messages_are_converted() {
    let mut m = raw(-3, "text");
    m.reply_to = Some(8);
    m.edited = true;
    let got = convert_message(&m);
    assert_eq!(got.id, (-3i32) as u64);
    assert_eq!(got.id as i32, -3);
    assert_eq!((got.sender.as_str(), got.text.as_str(), got.timestamp), ("Ann", "text", 997));
    assert_eq!(got.reply_to_id, Some(8));
    assert!(got.edited && !got.outgoing);
    assert_eq!(got.media_kind, None);
    m.sender = None;
    assert_eq!(convert_message(&m).sender, "?");
    m.outgoing = true;
    assert_eq!(convert_message(&m).sender, "me");
    m.media = Some((RawMedia::Sticker, "x"));
    assert_eq!(convert_message(&m).media_kind, Some(MediaKind::Sticker));
}

#[test]
fn documents_are_sorted_by_type() {
    let doc = |t: Option<&str>| {
        media_kind_of(&RawMedia::Document { mime_type: t.map(|s| s.to_string()) })
    };
    assert_eq!(doc(Some("video/mp4")), MediaKind::Video);
    assert_eq!(doc(Some("video/")), MediaKind::Video);
    assert_eq!(doc(Some("video")), MediaKind::Document);
    assert_eq!(doc(Some("image/png")), MediaKind::Document);
    assert_eq!(doc(None), MediaKind::Document);
    assert_eq!(media_kind_of(&RawMedia::Photo), MediaKind::Photo);
    assert_eq!(media_kind_of(&RawMedia::Other), MediaKind::Other);
}

#[test]
fn history_is_put_in_order_and_its_media_kept() {
    let mut actor = loaded();
    let mut with_media = raw(2, "two");
    with_media.media = Some((RawMedia::Photo, "handle"));
    let ev = actor.load_messages(ANN.to_string(), vec![raw(3, "three"), with_media, raw(1, "one")]);
    let TgEvent::MessagesLoaded { chat_id, messages } = ev else { panic!("not messages") };
    assert_eq!(chat_id, ANN);
    let ids: Vec<u64> = messages.iter().map(|m| m.id).collect();
    assert_eq!(ids, [1, 2, 3]);
    assert_eq!(actor.media(ANN, 2), Some(&"handle"));
    assert_eq!(actor.media(ANN, 1), None);
    assert!(matches!(
        actor.handle_command(Command::FetchMedia { chat_id: ANN.to_string(), msg_id: 2 }),
        Plan::Download { chat_id, msg_id: 2 } if chat_id == ANN
    ));
    let ev = actor.load_older(ANN.to_string(), vec![raw(0, "zero"), raw(-1, "minus")]);
    let TgEvent::OlderMessagesLoaded { messages, .. } = ev else { panic!("not messages") };
    assert_eq!(messages[0].text, "minus");
    assert_eq!(messages[1].text, "zero");
}

#[test]
fn updates_become_events() {
    let mut actor: Actor<&'static str> = Actor::new();
    let mut m = raw(5, "hey");
    m.media = Some((RawMedia::Photo, "pic"));
    let ev = actor.handle_update(RawUpdate::NewMessage { peer: ann(), message: m });
    assert!(matches!(ev, Some(TgEvent::NewMessage { chat_id, message })
        if chat_id == ANN && message.text == "hey"));
    assert_eq!(actor.media(ANN, 5), Some(&"pic"));
    assert!(matches!(
        actor.handle_command(Command::LoadMessages(ANN.to_string())),
        Plan::LoadHistory { .. }
    ));
    let ev = actor.handle_update(RawUpdate::MessageEdited { peer: ann(), message: raw(5, "HEY") });
    assert!(matches!(ev, Some(TgEvent::MessageEdited { message, .. }) if message.text == "HEY"));
    assert!(actor.handle_update(RawUpdate::Other).is_none());
}

#[test]
fn deletions_name_known_channels() {
    let mut actor = loaded();
    let group = "28fbffffffffffffff0000000000000000";
    let ev = actor.handle_update(RawUpdate::MessageDeleted { channel_id: Some(-5), ids: vec![1, -1] });
    assert!(matches!(ev, Some(TgEvent::MessageDeleted { chat_id: Some(id), ids })
        if id == group && ids == [1, u64::MAX]));
    let ev = actor.handle_update(RawUpdate::MessageDeleted { channel_id: Some(42), ids: vec![1] });
    assert!(matches!(ev, Some(TgEvent::MessageDeleted { chat_id: None, .. })));
    let ev = actor.handle_update(RawUpdate::MessageDeleted { channel_id: None, ids: vec![] });
    assert!(matches!(ev, Some(TgEvent::MessageDeleted { chat_id: None, .. })));
    assert_eq!(actor.resolve_channel(-5).as_deref(), Some(group));
}

#[test]
fn typing_notes_find_their_chat() {
    let mut actor = loaded();
    let mut note = |peer, id, cancelled| {
        actor.handle_update(RawUpdate::Typing { peer, id, cancelled })
    };
    assert!(matches!(note(TypingPeer::User, 42, false),
        Some(TgEvent::Typing { chat_id, active: true }) if chat_id == ANN));
    assert!(matches!(note(TypingPeer::User, 42, true),
        Some(TgEvent::Typing { active: false, .. })));
    assert!(note(TypingPeer::Channel, 42, false).is_none());
    assert!(note(TypingPeer::BasicGroup, 42, false).is_none());
    assert!(note(TypingPeer::User, 43, false).is_none());
    assert!(matches!(note(TypingPeer::Channel, -5, false), Some(TgEvent::Typing { .. })));
    let mut actor: Actor<()> = Actor::new();
    actor.load_chats(vec![
        dialog(peer(PeerKind::Bot, 1, None), "Bot", None),
        dialog(peer(PeerKind::Chat, 2, None), "Small", None),
    ]);
    assert!(actor.resolve_typing_chat(1, TypingPeer::User).is_some());
    assert!(actor.resolve_typing_chat(2, TypingPeer::BasicGroup).is_some());
    assert!(actor.resolve_typing_chat(2, TypingPeer::Channel).is_none());
}

#[test]
fn failures_name_their_stage() {
    let stages = [
        (Stage::LoadChats, "load chats: no"),
        (Stage::LoadMessages, "load messages: no"),
        (Stage::LoadOlder, "load older: no"),
        (Stage::Send, "send failed: no"),
        (Stage::Delete, "delete failed: no"),
        (Stage::Edit, "edit failed: no"),
        (Stage::Download, "download failed: no"),
        (Stage::UpdateStream, "update stream: no"),
    ];
    for (stage, want) in stages {
        assert!(matches!(failure(stage, "no"), TgEvent::Error(text) if text == want));
    }
}

#[test]
fn media_files_are_named_apart() {
    assert_eq!(media_file_name("ab", 12), "ab_12");
    assert_eq!(media_file_name("ab_1", 2), "ab_1_2");
    assert_ne!(media_file_name("a", 11), media_file_name("a1", 1));
    assert_eq!(media_file_name("", 0), "_0");
}

#[test]
fn signing_in_goes_on_or_gives_up() {
    let words = |s: SignIn| match after_sign_in(s) {
        LoginStep::Done => "done".to_string(),
        LoginStep::AskPassword(w) => w,
        LoginStep::GiveUp(w) => w,
    };
    assert_eq!(words(SignIn::Done), "done");
    assert_eq!(words(SignIn::PasswordRequired { hint: None }), "2FA password: ");
    assert_eq!(words(SignIn::PasswordRequired { hint: Some(String::new()) }), "2FA password: ");
    assert_eq!(
        words(SignIn::PasswordRequired { hint: Some("dog".to_string()) }),
        "2FA password (hint: dog): "
    );
    assert_eq!(words(SignIn::InvalidCode), "invalid login code");
    assert_eq!(
        words(SignIn::SignUpRequired),
        "this phone number has no Telegram account (sign-up not supported)"
    );
    assert_eq!(words(SignIn::Failed("x".to_string())), "sign-in failed: x");
    assert_eq!(password_failure("wrong"), "2FA failed: wrong");
}
