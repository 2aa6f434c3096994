//! What the events of the actor do to the chats, the messages and the rest of
//! the state, field by field.

use crate::input::ComposerView;
use crate::event::EventView;
use crate::model::AppModel;
use crate::model::TaskView;
use crate::telegram::{
    chat_is, message_is, message_not_in, ChatView, CommandView, MediaKind, MessageView, TgEventView,
};
use crate::text::{decimal, first_index, first_line, lemma_first_index, lemma_first_index_is};
use std::path::PathBuf;
use vstd::prelude::*;

verus! {

/// Whether the chat at `at` is the first one with this id.
pub open spec fn first_with_id(chats: Seq<ChatView>, id: Seq<char>, at: int) -> bool {
    &&& 0 <= at < chats.len()
    &&& chats[at].id == id
    &&& forall|j: int| 0 <= j < at ==> (#[trigger] chats[j]).id != id
}

/// Whether no chat has this id.
pub open spec fn none_with_id(chats: Seq<ChatView>, id: Seq<char>) -> bool {
    forall|j: int| 0 <= j < chats.len() ==> (#[trigger] chats[j]).id != id
}

/// Whether the message at `at` is the first one with this id.
pub open spec fn first_message(messages: Seq<MessageView>, id: u64, at: int) -> bool {
    &&& 0 <= at < messages.len()
    &&& messages[at].id == id
    &&& forall|j: int| 0 <= j < at ==> (#[trigger] messages[j]).id != id
}

/// Whether no message has this id.
pub open spec fn no_message(messages: Seq<MessageView>, id: u64) -> bool {
    forall|j: int| 0 <= j < messages.len() ==> (#[trigger] messages[j]).id != id
}

pub(crate) proof fn lemma_chat_found(chats: Seq<ChatView>, id: Seq<char>, at: int)
    requires
        first_with_id(chats, id, at),
    ensures
        first_index(chats, chat_is(id)) == at,
{
    lemma_first_index_is(chats, chat_is(id), at);
}

pub(crate) proof fn lemma_chat_missing(chats: Seq<ChatView>, id: Seq<char>)
    requires
        none_with_id(chats, id),
    ensures
        first_index(chats, chat_is(id)) == chats.len(),
{
    lemma_first_index_is(chats, chat_is(id), chats.len() as int);
}

pub(crate) proof fn lemma_message_found(messages: Seq<MessageView>, id: u64, at: int)
    requires
        first_message(messages, id, at),
    ensures
        first_index(messages, message_is(id)) == at,
{
    lemma_first_index_is(messages, message_is(id), at);
}

pub(crate) proof fn lemma_message_missing(messages: Seq<MessageView>, id: u64)
    requires
        no_message(messages, id),
    ensures
        first_index(messages, message_is(id)) == messages.len(),
{
    lemma_first_index_is(messages, message_is(id), messages.len() as int);
}

/// The open chat is the one at the cursor, and the selected message the one at
/// the other cursor.
pub proof fn cursors_tell_what_is_open(m: AppModel)
    ensures
        0 <= m.chat_cursor < m.chats.len() ==> m.current_chat() == Some(
            m.chats[m.chat_cursor].id,
        ),
        m.chat_cursor >= m.chats.len() ==> m.current_chat() is None,
        0 <= m.msg_cursor < m.messages.len() ==> m.selected() == Some(m.messages[m.msg_cursor]),
        m.msg_cursor >= m.messages.len() ==> m.selected() is None,
{
}

/// The program starts on the empty list of chats, and asks for them.
pub proof fn start_asks_for_the_chats(sent: Seq<CommandView>, player_argv: Seq<Seq<char>>)
    ensures
        ({
            let m = AppModel::started(sent, player_argv);
            &&& m.sent == sent.push(CommandView::LoadChats)
            &&& m.player_argv == player_argv
            &&& m.chats.len() == 0 && m.messages.len() == 0 && m.tasks.len() == 0
            &&& m.chat_cursor == 0 && m.msg_cursor == 0
            &&& m.mode is Normal && m.focus is ChatList && !m.should_quit
            &&& m.input.lines == seq![Seq::<char>::empty()] && m.input.cursor == (0int, 0int)
            &&& m.fuzzy is None && m.image_viewer is None && m.pending_view is None
            &&& m.replying_to is None && m.editing is None && m.pending_key is None
            &&& m.drafts.dom() =~= Set::empty() && m.typing_until.dom() =~= Set::empty()
            &&& m.last_typing_sent is None && !m.loading_older
            &&& m.status == "Connecting…"@
        }),
{
}

/// An event can be taken in as long as no counter overflows: the cursor, the
/// unread count, and the clock of a typing mark.
pub proof fn events_can_be_taken(m: AppModel, ev: TgEventView, now: u64)
    requires
        ev matches TgEventView::OlderMessagesLoaded { chat_id, messages } ==> m.msg_cursor
            + messages.len() <= usize::MAX,
        forall|i: int| 0 <= i < m.chats.len() ==> (#[trigger] m.chats[i]).unread < u32::MAX,
        now + 6_000_000_000 <= u64::MAX,
    ensures
        m.can_take(ev, now),
{
    if let TgEventView::NewMessage { chat_id, message } = ev {
        lemma_first_index(m.chats, chat_is(chat_id));
    }
}

/// News of the connection and errors change the status line and nothing else;
/// that a message was sent changes nothing.
pub proof fn connection_is_reported(m: AppModel, text: Seq<char>, chat_id: Seq<char>, now: u64)
    ensures
        m.told(TgEventView::Connected, now) == (AppModel {
            status: "Connected. Press ? for help"@,
            ..m
        }),
        m.told(TgEventView::Disconnected, now) == (AppModel { status: "Disconnected"@, ..m }),
        m.told(TgEventView::Error(text), now) == (AppModel { status: "Error: "@ + text, ..m }),
        m.told(TgEventView::MessageSent { chat_id }, now) == m,
{
}

/// A new list of chats takes the place of the old one. The chat that was open
/// stays open where it is now; if it is gone, or none was open, the first one
/// is opened. Messages are asked for exactly if none are on show, those of the
/// chat that is open now.
pub proof fn new_chat_list_is_taken(m: AppModel, chats: Seq<ChatView>, now: u64, at: int)
    ensures
        ({
            let n = m.told(TgEventView::ChatsLoaded(chats), now);
            &&& n == AppModel { chats, chat_cursor: n.chat_cursor, sent: n.sent, ..m }
            &&& m.current_chat() is Some && first_with_id(chats, m.current_chat()->0, at)
                ==> n.chat_cursor == at
            &&& m.current_chat() is Some && none_with_id(chats, m.current_chat()->0)
                ==> n.chat_cursor == 0
            &&& m.current_chat() is None && chats.len() > 0 ==> n.chat_cursor == 0
            &&& m.current_chat() is None && chats.len() == 0 ==> n.chat_cursor == m.chat_cursor
            &&& m.messages.len() > 0 ==> n.sent == m.sent
            &&& m.messages.len() == 0 && 0 <= n.chat_cursor < chats.len() ==> n.sent == m.sent.push(
                CommandView::LoadMessages(chats[n.chat_cursor].id),
            )
            &&& m.messages.len() == 0 && n.chat_cursor >= chats.len() ==> n.sent == m.sent
        }),
{
    if let Some(id) = m.current_chat() {
        if first_with_id(chats, id, at) {
            lemma_chat_found(chats, id, at);
        }
        if none_with_id(chats, id) {
            lemma_chat_missing(chats, id);
        }
        lemma_first_index(chats, chat_is(id));
    }
}

/// Messages of the open chat take the place of those on show, with the last one
/// selected. Those of any other chat change nothing.
pub proof fn loaded_messages_are_shown(
    m: AppModel,
    chat_id: Seq<char>,
    messages: Seq<MessageView>,
    now: u64,
)
    ensures
        ({
            let n = m.told(TgEventView::MessagesLoaded { chat_id, messages }, now);
            &&& m.current_chat() == Some(chat_id) ==> {
                &&& n == AppModel { messages, msg_cursor: n.msg_cursor, ..m }
                &&& messages.len() > 0 ==> n.selected() == Some(messages.last()) && n.msg_cursor
                    == messages.len() - 1
                &&& messages.len() == 0 ==> n.msg_cursor == 0
            }
            &&& m.current_chat() != Some(chat_id) ==> n == m
        }),
{
}

/// Older messages of the open chat go before those on show, and the cursor goes
/// along with the message it is on. In any case the next ones may be asked for.
pub proof fn older_messages_go_before(
    m: AppModel,
    chat_id: Seq<char>,
    older: Seq<MessageView>,
    now: u64,
)
    ensures
        ({
            let n = m.told(TgEventView::OlderMessagesLoaded { chat_id, messages: older }, now);
            let open = m.current_chat() == Some(chat_id);
            &&& !n.loading_older
            &&& !open ==> n == AppModel { loading_older: false, ..m }
            &&& open && older.len() == 0 ==> n == AppModel {
                loading_older: false,
                status: "No more history"@,
                ..m
            }
            &&& open && older.len() > 0 ==> {
                &&& n == AppModel {
                    loading_older: false,
                    messages: n.messages,
                    msg_cursor: m.msg_cursor + older.len(),
                    status: "+"@ + decimal(older.len()) + " older"@,
                    ..m
                }
                &&& n.messages.len() == older.len() + m.messages.len()
                &&& forall|i: int| 0 <= i < older.len() ==> #[trigger] n.messages[i] == older[i]
                &&& forall|i: int|
                    0 <= i < m.messages.len() ==> n.messages[older.len() + i]
                        == #[trigger] m.messages[i]
            }
        }),
{
}

/// A new message of the open chat is appended and selected, wherever the chat
/// stands in the list. One of any other chat leaves the messages on show alone.
pub proof fn new_message_is_shown_if_its_chat_is_open(
    m: AppModel,
    chat_id: Seq<char>,
    message: MessageView,
    now: u64,
)
    ensures
        ({
            let n = m.told(TgEventView::NewMessage { chat_id, message }, now);
            &&& m.current_chat() == Some(chat_id) ==> {
                &&& n.messages == m.messages.push(message)
                &&& n.msg_cursor == m.messages.len()
                &&& n.selected() == Some(message)
            }
            &&& m.current_chat() != Some(chat_id) ==> n.messages == m.messages && n.msg_cursor
                == m.msg_cursor
            &&& n == AppModel {
                messages: n.messages,
                msg_cursor: n.msg_cursor,
                chats: n.chats,
                chat_cursor: n.chat_cursor,
                sent: n.sent,
                ..m
            }
        }),
{
}

/// A new message takes its chat to the top, with the first line of the text as
/// preview, and with one more unread message exactly if the chat is not open
/// and the message is not the user's own. The other chats follow in order, and
/// the cursor stays on the chat it was on. Nothing is asked for.
pub proof fn new_message_renews_its_chat(
    m: AppModel,
    chat_id: Seq<char>,
    message: MessageView,
    now: u64,
    at: int,
    k: int,
)
    requires
        first_with_id(m.chats, chat_id, at),
        m.chats[at].unread < u32::MAX,
    ensures
        ({
            let n = m.told(TgEventView::NewMessage { chat_id, message }, now);
            let unread = !(m.current_chat() == Some(chat_id)) && !message.outgoing;
            &&& n.sent == m.sent
            &&& n.chats.len() == m.chats.len()
            &&& n.chats[0].id == chat_id && n.chats[0].name == m.chats[at].name
            &&& n.chats[0].username == m.chats[at].username
            &&& n.chats[0].last_preview == first_line(message.text)
            &&& n.chats[0].unread == m.chats[at].unread + (if unread {
                1int
            } else {
                0
            })
            &&& 0 <= k < at ==> n.chats[k + 1] == m.chats[k]
            &&& at < k < m.chats.len() ==> n.chats[k] == m.chats[k]
            &&& m.chat_cursor == at ==> n.chat_cursor == 0
            &&& 0 <= m.chat_cursor < at ==> n.chat_cursor == m.chat_cursor + 1
            &&& m.chat_cursor > at ==> n.chat_cursor == m.chat_cursor
        }),
{
    lemma_chat_found(m.chats, chat_id, at);
}

/// A new message of a chat that is not in the list has the chats asked for, and
/// leaves the list alone.
pub proof fn new_message_of_unknown_chat_reloads(
    m: AppModel,
    chat_id: Seq<char>,
    message: MessageView,
    now: u64,
)
    requires
        none_with_id(m.chats, chat_id),
    ensures
        m.told(TgEventView::NewMessage { chat_id, message }, now) == (AppModel {
            sent: m.sent.push(CommandView::LoadChats),
            ..m
        }),
{
    lemma_chat_missing(m.chats, chat_id);
}

/// An edited message of the open chat takes the place of the first one with its
/// id, and no other message changes. It gives the preview of the chat exactly
/// if the last message on show has its id.
pub proof fn edited_message_is_replaced(
    m: AppModel,
    chat_id: Seq<char>,
    message: MessageView,
    now: u64,
    at: int,
    i: int,
)
    requires
        m.current_chat() == Some(chat_id),
    ensures
        ({
            let n = m.told(TgEventView::MessageEdited { chat_id, message }, now);
            let last = m.messages.len() > 0 && m.messages.last().id == message.id;
            &&& n == AppModel { messages: n.messages, chats: n.chats, ..m }
            &&& n.messages.len() == m.messages.len()
            &&& first_message(m.messages, message.id, at) ==> n.messages[at] == message
            &&& first_message(m.messages, message.id, at) && 0 <= i < m.messages.len() && i != at
                ==> n.messages[i] == m.messages[i]
            &&& no_message(m.messages, message.id) ==> n.messages == m.messages
            &&& !last ==> n.chats == m.chats
            &&& n.chats.len() == m.chats.len()
            &&& last && first_with_id(m.chats, chat_id, i) ==> n.chats[i] == ChatView {
                last_preview: first_line(message.text),
                ..m.chats[i]
            }
            &&& 0 <= i < m.chats.len() && !first_with_id(m.chats, chat_id, i) ==> n.chats[i]
                == m.chats[i]
        }),
{
    if first_message(m.messages, message.id, at) {
        lemma_message_found(m.messages, message.id, at);
    }
    if no_message(m.messages, message.id) {
        lemma_message_missing(m.messages, message.id);
    }
    lemma_first_index(m.messages, message_is(message.id));
    lemma_first_index(m.chats, chat_is(chat_id));
    if first_with_id(m.chats, chat_id, i) {
        lemma_chat_found(m.chats, chat_id, i);
    }
    let k = first_index(m.chats, chat_is(chat_id));
    if k < m.chats.len() {
        assert(first_with_id(m.chats, chat_id, k));
    }
    let j = first_index(m.messages, message_is(message.id));
    if j < m.messages.len() {
        assert(first_message(m.messages, message.id, j));
    } else {
        assert(no_message(m.messages, message.id));
    }
    let n = m.told(TgEventView::MessageEdited { chat_id, message }, now);
    assert(n.messages.len() > 0 ==> (n.messages.last().id == message.id <==> m.messages.last().id
        == message.id));
}

/// An edited message of another chat changes nothing.
pub proof fn edits_of_other_chats_change_nothing(
    m: AppModel,
    chat_id: Seq<char>,
    message: MessageView,
    now: u64,
)
    requires
        m.current_chat() != Some(chat_id),
    ensures
        m.told(TgEventView::MessageEdited { chat_id, message }, now) == m,
{
}

/// Messages that were deleted in another chat change nothing.
pub proof fn deletions_of_other_chats_change_nothing(
    m: AppModel,
    chat_id: Seq<char>,
    ids: Seq<u64>,
    now: u64,
)
    requires
        m.current_chat() != Some(chat_id),
    ensures
        m.told(TgEventView::MessageDeleted { chat_id: Some(chat_id), ids }, now) == m,
{
}

/// What is left after a deletion are the messages with other ids, each as it
/// was and in the same order.
proof fn lemma_left_over(messages: Seq<MessageView>, ids: Seq<u64>)
    ensures
        forall|i: int|
            0 <= i < messages.filter(message_not_in(ids)).len() ==> !ids.contains(
                (#[trigger] messages.filter(message_not_in(ids))[i]).id,
            ),
        forall|i: int|
            0 <= i < messages.len() && !ids.contains((#[trigger] messages[i]).id)
                ==> messages.filter(message_not_in(ids)).contains(messages[i]),
        messages.filter(message_not_in(ids)).len() <= messages.len(),
{
    let p = message_not_in(ids);
    broadcast use vstd::seq_lib::group_filter_ensures;

    assert forall|i: int|
        0 <= i < messages.len() && !ids.contains((#[trigger] messages[i]).id) implies messages.filter(
        p,
    ).contains(messages[i]) by {
        messages.lemma_filter_contains(p, i);
    }
}

/// Deleted messages of the open chat, or of no chat in particular, go: all with
/// one of the ids and no others. The cursor stays if there is still a message
/// at it, and else goes to the last. The last message that is left gives the
/// preview of the open chat.
pub proof fn deleted_messages_go(
    m: AppModel,
    chat_id: Option<Seq<char>>,
    ids: Seq<u64>,
    now: u64,
    i: int,
)
    requires
        chat_id is None || m.current_chat() == chat_id,
        m.msg_cursor >= 0,
    ensures
        ({
            let n = m.told(TgEventView::MessageDeleted { chat_id, ids }, now);
            &&& n == AppModel {
                messages: n.messages,
                msg_cursor: n.msg_cursor,
                chats: n.chats,
                ..m
            }
            &&& n.messages == m.messages.filter(|x: MessageView| !ids.contains(x.id))
            &&& 0 <= i < n.messages.len() ==> !ids.contains(n.messages[i].id)
            &&& 0 <= i < m.messages.len() && !ids.contains(m.messages[i].id)
                ==> n.messages.contains(m.messages[i])
            &&& m.msg_cursor < n.messages.len() ==> n.msg_cursor == m.msg_cursor
            &&& m.msg_cursor >= n.messages.len() && n.messages.len() > 0 ==> n.selected() == Some(
                n.messages.last(),
            )
            &&& n.messages.len() == 0 ==> n.msg_cursor == 0
            &&& n.chats.len() == m.chats.len()
            &&& m.current_chat() is None ==> n.chats == m.chats
            &&& m.current_chat() is Some && first_with_id(m.chats, m.current_chat()->0, i)
                ==> n.chats[i] == ChatView { last_preview: n.chats[i].last_preview, ..m.chats[i] }
                && n.chats[i].last_preview == (if n.messages.len() > 0 {
                first_line(n.messages.last().text)
            } else {
                Seq::empty()
            })
            &&& m.current_chat() is Some && 0 <= i < m.chats.len() && !first_with_id(
                m.chats,
                m.current_chat()->0,
                i,
            ) ==> n.chats[i] == m.chats[i]
        }),
{
    lemma_left_over(m.messages, ids);
    assert(message_not_in(ids) =~= |x: MessageView| !ids.contains(x.id));
    if let Some(id) = m.current_chat() {
        lemma_first_index(m.chats, chat_is(id));
        if first_with_id(m.chats, id, i) {
            lemma_chat_found(m.chats, id, i);
        }
        let k = first_index(m.chats, chat_is(id));
        if k < m.chats.len() {
            assert(first_with_id(m.chats, id, k));
        }
    }
}

/// A file that was fetched for a message of the open chat is remembered by that
/// message and by no other, and by none if the chat is not open.
pub proof fn fetched_file_is_remembered(
    m: AppModel,
    chat_id: Seq<char>,
    msg_id: u64,
    path: PathBuf,
    now: u64,
    at: int,
    i: int,
)
    ensures
        ({
            let n = m.told(TgEventView::MediaFetched { chat_id, msg_id, path }, now);
            let open = m.current_chat() == Some(chat_id);
            &&& n == AppModel {
                messages: n.messages,
                tasks: n.tasks,
                status: n.status,
                pending_view: n.pending_view,
                ..m
            }
            &&& n.messages.len() == m.messages.len()
            &&& open && first_message(m.messages, msg_id, at) ==> n.messages[at] == MessageView {
                media_path: Some(path),
                ..m.messages[at]
            }
            &&& 0 <= i < m.messages.len() && !(open && first_message(m.messages, msg_id, i))
                ==> n.messages[i] == m.messages[i]
        }),
{
    lemma_first_index(m.messages, message_is(msg_id));
    if first_message(m.messages, msg_id, at) {
        lemma_message_found(m.messages, msg_id, at);
    }
    let k = first_index(m.messages, message_is(msg_id));
    if k < m.messages.len() {
        assert(first_message(m.messages, msg_id, k));
    }
}

/// A file that the user waits for is opened once, as its kind of media asks: an
/// image or a sticker is decoded, a video is played with the player that is set
/// up, and the user is told if none is. One that nobody waits for is not.
pub proof fn awaited_file_is_opened(
    m: AppModel,
    chat_id: Seq<char>,
    msg_id: u64,
    path: PathBuf,
    now: u64,
    at: int,
)
    requires
        m.current_chat() == Some(chat_id),
        first_message(m.messages, msg_id, at),
    ensures
        ({
            let n = m.told(TgEventView::MediaFetched { chat_id, msg_id, path }, now);
            let kind = m.messages[at].media_kind;
            let image = kind == Some(MediaKind::Photo) || kind == Some(MediaKind::Sticker);
            let video = kind == Some(MediaKind::Video);
            let waits = m.pending_view == Some((chat_id, msg_id));
            &&& waits ==> n.pending_view is None
            &&& !waits ==> n.pending_view == m.pending_view && n.tasks == m.tasks && n.status
                == m.status
            &&& waits && image ==> n.tasks == m.tasks.push(TaskView::OpenImage(path)) && n.status
                == m.status
            &&& waits && video && m.player_argv.len() > 0 ==> n.status == m.status && n.tasks
                == m.tasks.push(TaskView::PlayVideo { argv: m.player_argv, path })
            &&& waits && video && m.player_argv.len() == 0 ==> n.tasks == m.tasks && n.status
                == "player not configured"@
            &&& waits && !image && !video ==> n.tasks == m.tasks && n.status == m.status
        }),
{
    lemma_message_found(m.messages, msg_id, at);
}

/// A file for a chat that is not open, or for a message that has gone, is not
/// opened, and is no longer waited for.
pub proof fn file_without_message_is_not_opened(
    m: AppModel,
    chat_id: Seq<char>,
    msg_id: u64,
    path: PathBuf,
    now: u64,
)
    requires
        m.current_chat() != Some(chat_id) || no_message(m.messages, msg_id),
    ensures
        m.told(TgEventView::MediaFetched { chat_id, msg_id, path }, now) == (AppModel {
            pending_view: if m.pending_view == Some((chat_id, msg_id)) {
                None
            } else {
                m.pending_view
            },
            ..m
        }),
{
    if no_message(m.messages, msg_id) {
        lemma_message_missing(m.messages, msg_id);
    }
}

/// A typing note marks its chat for six seconds, its end takes the mark away,
/// and no other chat is touched.
pub proof fn typing_notes_mark_their_chat(
    m: AppModel,
    chat_id: Seq<char>,
    now: u64,
    other: Seq<char>,
)
    requires
        now + 6_000_000_000 <= u64::MAX,
    ensures
        ({
            let on = m.told(TgEventView::Typing { chat_id, active: true }, now);
            let off = m.told(TgEventView::Typing { chat_id, active: false }, now);
            &&& on == AppModel { typing_until: on.typing_until, ..m }
            &&& off == AppModel { typing_until: off.typing_until, ..m }
            &&& on.typing_until.contains_key(chat_id) && on.typing_until[chat_id] == now
                + 6_000_000_000
            &&& !off.typing_until.contains_key(chat_id)
            &&& other != chat_id ==> {
                &&& on.typing_until.contains_key(other) <==> m.typing_until.contains_key(other)
                &&& off.typing_until.contains_key(other) <==> m.typing_until.contains_key(other)
                &&& m.typing_until.contains_key(other) ==> on.typing_until[other]
                    == m.typing_until[other] && off.typing_until[other] == m.typing_until[other]
            }
        }),
{
}

/// The clock takes away the marks that have run out, keeps the others as they
/// are, and changes nothing else.
pub proof fn ticks_take_old_marks_away(m: AppModel, now: u64, k: Seq<char>)
    ensures
        m.ticked(now) == (AppModel { typing_until: m.ticked(now).typing_until, ..m }),
        m.ticked(now).typing_until.contains_key(k) <==> m.typing_until.contains_key(k)
            && m.typing_until[k] > now,
        m.ticked(now).typing_until.contains_key(k) ==> m.ticked(now).typing_until[k]
            == m.typing_until[k],
{
}

/// Ticks, events and keys go to what takes them, and a change of the size
/// changes nothing.
pub proof fn steps_go_where_they_belong(
    m: AppModel,
    ev: EventView,
    now: u64,
    typed: ComposerView,
    k: Seq<char>,
)
    ensures
        ev matches EventView::Resize(_, _) ==> m.stepped(ev, now, typed) == m,
        ev is Tick ==> m.stepped(ev, now, typed) == m.ticked(now),
        ev matches EventView::Key(key) ==> m.stepped(ev, now, typed) == m.key_pressed(
            key,
            now,
            typed,
        ),
        ev matches EventView::Tg(tg) ==> m.stepped(ev, now, typed) == m.told(tg, now),
{
}

/// A note to the others goes out to the open chat if none has for three
/// seconds, and the time is kept. Else nothing happens.
pub proof fn typing_is_told_to_the_open_chat(m: AppModel, now: u64)
    ensures
        ({
            let n = m.typing_told(now);
            let due = m.last_typing_sent is None || now - m.last_typing_sent->0 >= 3_000_000_000;
            &&& due && 0 <= m.chat_cursor < m.chats.len() ==> n == AppModel {
                last_typing_sent: Some(now),
                sent: m.sent.push(
                    CommandView::SendTyping { chat_id: m.chats[m.chat_cursor].id },
                ),
                ..m
            }
            &&& !due || m.chat_cursor >= m.chats.len() ==> n == m
        }),
{
}

} // verus!
