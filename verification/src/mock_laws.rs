//! What the made-up actor does with each command, and what it answers.

use crate::event_laws::{
    first_message, first_with_id, lemma_chat_found, lemma_message_found, lemma_message_missing,
    no_message,
};
use crate::mock::{every_sample_is_seeded, sample_messages, samples, MockView};
use crate::telegram::{
    chat_is, message_is, message_not_in, ChatView, CommandView, MessageView, TgEventView,
};
use crate::text::{decimal, first_index, first_line, lemma_first_index};
use vstd::prelude::*;

verus! {

/// The messages that are kept for a chat; none for an unknown one.
pub open spec fn kept(m: MockView, chat_id: Seq<char>) -> Seq<MessageView> {
    if m.msgs.contains_key(chat_id) {
        m.msgs[chat_id]
    } else {
        Seq::empty()
    }
}

/// Whether every chat but one has the messages that it had.
pub open spec fn others_are_kept(m: MockView, n: MockView, chat_id: Seq<char>) -> bool {
    &&& forall|k: Seq<char>|
        k != chat_id ==> (#[trigger] n.msgs.contains_key(k) <==> m.msgs.contains_key(k))
    &&& forall|k: Seq<char>|
        k != chat_id && #[trigger] m.msgs.contains_key(k) ==> n.msgs[k] == m.msgs[k]
}

/// The chats and the messages are given out as they are kept, there are never
/// older ones, media is not to be had, and none of this changes anything.
pub proof fn reading_changes_nothing(
    m: MockView,
    chat_id: Seq<char>,
    id: u64,
    now: i64,
)
    ensures
        m.after(CommandView::LoadChats, now) == m,
        m.answers(CommandView::LoadChats, now) == seq![TgEventView::ChatsLoaded(m.chats)],
        m.after(CommandView::LoadMessages(chat_id), now) == m,
        m.answers(CommandView::LoadMessages(chat_id), now) == seq![
            TgEventView::MessagesLoaded { chat_id, messages: kept(m, chat_id) },
        ],
        m.after(CommandView::LoadOlder { chat_id, before_id: id }, now) == m,
        m.answers(CommandView::LoadOlder { chat_id, before_id: id }, now) == seq![
            TgEventView::OlderMessagesLoaded { chat_id, messages: Seq::empty() },
        ],
        m.after(CommandView::FetchMedia { chat_id, msg_id: id }, now) == m,
        m.answers(CommandView::FetchMedia { chat_id, msg_id: id }, now) == seq![
            TgEventView::Error("mock backend has no media to fetch"@),
        ],
        m.after(CommandView::SendTyping { chat_id }, now) == m,
        m.answers(CommandView::SendTyping { chat_id }, now).len() == 0,
        m.after(CommandView::Shutdown, now) == m,
        m.answers(CommandView::Shutdown, now).len() == 0,
{
}

/// A message that is sent is appended to its chat, with the next id, as the
/// user's own of this time, and gives the preview of its chat. No other chat
/// changes. The answer shows the chat, then all chats, then that it was sent.
pub proof fn sending_appends(
    m: MockView,
    chat_id: Seq<char>,
    text: Seq<char>,
    reply_to: Option<u64>,
    now: i64,
    i: int,
)
    requires
        m.next_id < u64::MAX,
    ensures
        ({
            let c = CommandView::Send { chat_id, text, reply_to };
            let n = m.after(c, now);
            let list = kept(n, chat_id);
            &&& n.next_id == m.next_id + 1
            &&& n.msgs.contains_key(chat_id)
            &&& list.len() == kept(m, chat_id).len() + 1
            &&& list.drop_last() == kept(m, chat_id)
            &&& list.last() == MessageView {
                id: n.next_id,
                sender: "me"@,
                text,
                timestamp: now,
                outgoing: true,
                reply_to_id: None,
                edited: false,
                media_kind: None,
                media_path: None,
            }
            &&& others_are_kept(m, n, chat_id)
            &&& n.chats.len() == m.chats.len()
            &&& first_with_id(m.chats, chat_id, i) ==> n.chats[i] == ChatView {
                last_preview: first_line(text),
                ..m.chats[i]
            }
            &&& 0 <= i < m.chats.len() && !first_with_id(m.chats, chat_id, i) ==> n.chats[i]
                == m.chats[i]
            &&& m.answers(c, now) == seq![
                TgEventView::MessagesLoaded { chat_id, messages: list },
                TgEventView::ChatsLoaded(n.chats),
                TgEventView::MessageSent { chat_id },
            ]
        }),
{
    let n = m.after(CommandView::Send { chat_id, text, reply_to }, now);
    assert(kept(n, chat_id).drop_last() =~= kept(m, chat_id));
    lemma_first_index(m.chats, chat_is(chat_id));
    if first_with_id(m.chats, chat_id, i) {
        lemma_chat_found(m.chats, chat_id, i);
    }
    let k = first_index(m.chats, chat_is(chat_id));
    if k < m.chats.len() {
        assert(first_with_id(m.chats, chat_id, k));
    }
}

/// A deletion takes the messages with these ids out of their chat, and no
/// others. The answer shows the chat and then all chats.
pub proof fn deleting_takes_out(m: MockView, chat_id: Seq<char>, ids: Seq<u64>, now: i64)
    ensures
        ({
            let c = CommandView::Delete { chat_id, ids };
            let n = m.after(c, now);
            &&& n.chats == m.chats && n.next_id == m.next_id
            &&& n.msgs.contains_key(chat_id) <==> m.msgs.contains_key(chat_id)
            &&& m.msgs.contains_key(chat_id) ==> n.msgs[chat_id] == m.msgs[chat_id].filter(
                |x: MessageView| !ids.contains(x.id),
            )
            &&& others_are_kept(m, n, chat_id)
            &&& m.answers(c, now) == seq![
                TgEventView::MessagesLoaded { chat_id, messages: kept(n, chat_id) },
                TgEventView::ChatsLoaded(m.chats),
            ]
        }),
{
    assert(message_not_in(ids) =~= |x: MessageView| !ids.contains(x.id));
}

/// An edit gives the first message with that id another text, and changes
/// nothing else of it and no other message. The answer shows the chat.
pub proof fn editing_changes_the_text(
    m: MockView,
    chat_id: Seq<char>,
    msg_id: u64,
    text: Seq<char>,
    now: i64,
    at: int,
    i: int,
)
    ensures
        ({
            let c = CommandView::Edit { chat_id, msg_id, text };
            let n = m.after(c, now);
            let (a, b) = (kept(m, chat_id), kept(n, chat_id));
            &&& n.chats == m.chats && n.next_id == m.next_id
            &&& n.msgs.contains_key(chat_id) <==> m.msgs.contains_key(chat_id)
            &&& b.len() == a.len()
            &&& first_message(a, msg_id, at) ==> b[at] == MessageView { text, ..a[at] }
            &&& 0 <= i < a.len() && !first_message(a, msg_id, i) ==> b[i] == a[i]
            &&& others_are_kept(m, n, chat_id)
            &&& m.answers(c, now) == seq![TgEventView::MessagesLoaded { chat_id, messages: b }]
        }),
{
    let a = kept(m, chat_id);
    lemma_first_index(a, message_is(msg_id));
    if first_message(a, msg_id, at) {
        lemma_message_found(a, msg_id, at);
    }
    let k = first_index(a, message_is(msg_id));
    if k < a.len() {
        assert(first_message(a, msg_id, k));
    }
}

/// The made-up chats are numbered from one, have nothing unread, and each has a
/// history of its own.
pub proof fn made_up_chats_are_numbered(now: i64, i: int)
    requires
        0 <= i < 10,
    ensures
        ({
            let m = MockView::seeded(now, 10);
            &&& samples().len() == 10
            &&& m.chats.len() == 10
            &&& m.chats[i].id == decimal((i + 1) as nat)
            &&& m.chats[i].unread == 0
            &&& m.chats[i].name == samples()[i].1 && m.chats[i].username == samples()[i].2
            &&& m.chats[i].last_preview == samples()[i].3
            &&& kept(m, m.chats[i].id) == sample_messages(
                m.chats[i].name,
                m.chats[i].last_preview,
                now,
            )
        }),
{
    every_sample_is_seeded(now, i);
    reveal_strlit("1");
    reveal_strlit("2");
    reveal_strlit("3");
    reveal_strlit("4");
    reveal_strlit("5");
    reveal_strlit("6");
    reveal_strlit("7");
    reveal_strlit("8");
    reveal_strlit("9");
    reveal_strlit("10");
    reveal_with_fuel(decimal, 3);
    assert(samples()[i].0 =~= decimal((i + 1) as nat));
}

/// A made-up history has twenty-five messages, a minute apart and the last one a
/// minute ago. Every third is the user's own, every fifth answers the one before
/// it, and every seventh was edited.
pub proof fn made_up_histories(name: Seq<char>, preview: Seq<char>, now: i64, i: int)
    requires
        0 <= i < 25,
        now >= i64::MIN + 1500,
    ensures
        sample_messages(name, preview, now).len() == 25,
        ({
            let x = sample_messages(name, preview, now)[i];
            &&& x.id == i
            &&& x.text == preview + " — message "@ + decimal(i as nat)
            &&& x.timestamp == now - 60 * (25 - i)
            &&& x.outgoing <==> i % 3 == 0
            &&& x.outgoing ==> x.sender == "me"@
            &&& !x.outgoing ==> x.sender == name
            &&& x.reply_to_id is Some <==> i > 0 && i % 5 == 0
            &&& x.reply_to_id is Some ==> x.reply_to_id->0 == i - 1
            &&& x.edited <==> i % 7 == 0
            &&& x.media_kind is None && x.media_path is None
        }),
{
}

} // verus!
