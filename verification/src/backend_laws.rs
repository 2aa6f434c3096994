//! What holds between Telegram's side and the interface's: which request a
//! command makes, and what of a reply or an update is shown.

use crate::backend::{
    chat_ids_are_unique, chat_id, chat_of, history_of, kind_of_media, media_name,
    media_names_are_unique, message_of, password_prompt, peers_of, resolves, stage_label, told_of,
    unknown_chat, wire_id, ActorView, Peer, PeerKind, PlanView, RawDialog, RawMedia, RawMessage,
    RawUpdate, Stage, TypingPeer,
};
use crate::model::AppModel;
use crate::telegram::{ChatView, CommandView, MediaKind, MessageView, TgEvent, TgEventView};
use crate::text::{decimal, opt_text};
use vstd::prelude::*;

verus! {

// ---- Messages and chats ----

/// A message is shown with its own id, text, date, mark of an edit and target
/// of an answer, as the user's own exactly if it is. The user's own are by
/// `me`, others' by their sender, or by `?` where there is none. No file is
/// known for it yet.
pub proof fn messages_are_shown_as_they_are<M>(raw: RawMessage<M>)
    ensures
        message_of(raw).text == raw.text@,
        message_of(raw).timestamp == raw.date,
        message_of(raw).outgoing == raw.outgoing,
        message_of(raw).edited == raw.edited,
        message_of(raw).media_path is None,
        wire_id(message_of(raw).id) == raw.id,
        raw.id >= 0 ==> message_of(raw).id == raw.id,
        message_of(raw).reply_to_id is Some <==> raw.reply_to is Some,
        raw.reply_to matches Some(r) ==> wire_id(message_of(raw).reply_to_id->0) == r,
        raw.reply_to matches Some(r) && r >= 0 ==> message_of(raw).reply_to_id->0
            == raw.reply_to->0,
        raw.outgoing ==> message_of(raw).sender == "me"@,
        !raw.outgoing && raw.sender is Some ==> message_of(raw).sender == raw.sender->0@,
        !raw.outgoing && raw.sender is None ==> message_of(raw).sender == "?"@,
        message_of(raw).media_kind is Some <==> raw.media is Some,
        raw.media matches Some(x) ==> message_of(raw).media_kind == Some(kind_of_media(x.0)),
{
    crate::backend::message_ids_go_back_unchanged(raw.id);
    if let Some(r) = raw.reply_to {
        crate::backend::message_ids_go_back_unchanged(r);
    }
}

/// Media keeps its kind. A document is a video exactly if its type begins with
/// `video/`.
pub proof fn media_keeps_its_kind(m: RawMedia)
    ensures
        m is Photo ==> kind_of_media(m) is Photo,
        m is Sticker ==> kind_of_media(m) is Sticker,
        m is Other ==> kind_of_media(m) is Other,
        m matches RawMedia::Document { mime_type: Some(t) } ==> (if "video/"@.is_prefix_of(t@) {
            kind_of_media(m) is Video
        } else {
            kind_of_media(m) is Document
        }),
        m matches RawMedia::Document { mime_type: None } ==> kind_of_media(m) is Document,
{
}

/// A conversation is listed under its id, by its name, with the text of its last
/// message and nothing unread.
pub proof fn chats_are_listed_as_they_are(d: RawDialog)
    ensures
        chat_of(d).id == chat_id(d.peer),
        chat_of(d).name == d.name@,
        chat_of(d).username == opt_text(d.username),
        chat_of(d).unread == 0,
        d.last_text matches Some(t) ==> chat_of(d).last_preview == t@,
        d.last_text is None ==> chat_of(d).last_preview.len() == 0,
{
}

/// A history that came newest first is shown oldest first, every message once.
pub proof fn history_is_turned_round<M>(raws: Seq<RawMessage<M>>, i: int)
    requires
        0 <= i < raws.len(),
    ensures
        history_of(raws).len() == raws.len(),
        history_of(raws)[raws.len() - 1 - i] == message_of(raws[i]),
{
}

/// Once a history is on show, a message of the user's own that is selected can
/// be edited, and one of another's cannot.
pub proof fn own_messages_can_be_edited<M>(
    m: AppModel,
    chat_id: Seq<char>,
    raws: Seq<RawMessage<M>>,
    now: u64,
    i: int,
)
    requires
        m.current_chat() == Some(chat_id),
        m.editing is None,
        0 <= i < raws.len(),
    ensures
        ({
            let shown = m.told(
                TgEventView::MessagesLoaded { chat_id, messages: history_of(raws) },
                now,
            );
            let n = AppModel { msg_cursor: raws.len() - 1 - i, ..shown }.edit_toggled();
            &&& n.editing is Some <==> raws[i].outgoing
            &&& raws[i].outgoing ==> wire_id(n.editing->0.msg_id) == raws[i].id
        }),
{
    crate::backend::message_ids_go_back_unchanged(raws[i].id);
}

// ---- Requests ----

/// What asks about a known chat is asked of the peer behind its id, and nothing
/// of it is lost: the text, the ids, and the message that is answered.
pub proof fn requests_go_to_the_right_peer<M>(
    a: ActorView<M>,
    chat_id: Seq<char>,
    text: Seq<char>,
    id: i32,
    ids: Seq<u64>,
    k: int,
)
    requires
        a.packed.contains_key(chat_id),
    ensures
        a.plan(CommandView::LoadMessages(chat_id)) == (PlanView::LoadHistory {
            chat_id,
            peer: a.packed[chat_id],
            before: None,
        }),
        a.plan(CommandView::LoadOlder { chat_id, before_id: id as u64 }) == (
        PlanView::LoadHistory { chat_id, peer: a.packed[chat_id], before: Some(id) }),
        a.plan(CommandView::Send { chat_id, text, reply_to: None }) == (PlanView::Send {
            chat_id,
            peer: a.packed[chat_id],
            text,
            reply_to: None,
        }),
        a.plan(CommandView::Send { chat_id, text, reply_to: Some(id as u64) }) == (
        PlanView::Send { chat_id, peer: a.packed[chat_id], text, reply_to: Some(id) }),
        a.plan(CommandView::Edit { chat_id, msg_id: id as u64, text }) == (PlanView::Edit {
            peer: a.packed[chat_id],
            msg_id: id,
            text,
        }),
        a.plan(CommandView::SendTyping { chat_id }) == (PlanView::SendTyping {
            peer: a.packed[chat_id],
        }),
        ({
            let p = a.plan(CommandView::Delete { chat_id, ids });
            &&& p is Delete
            &&& p->Delete_peer == a.packed[chat_id]
            &&& p->Delete_ids.len() == ids.len()
            &&& 0 <= k < ids.len() && ids[k] == id as u64 ==> p->Delete_ids[k] == id
        }),
{
    crate::backend::message_ids_go_back_unchanged(id);
}

/// What asks about a chat that is not known is answered with an error that names
/// it; a typing note is dropped.
pub proof fn unknown_chats_are_told<M>(
    a: ActorView<M>,
    chat_id: Seq<char>,
    text: Seq<char>,
    id: u64,
    reply_to: Option<u64>,
    ids: Seq<u64>,
)
    requires
        !a.packed.contains_key(chat_id),
    ensures
        ({
            let told = PlanView::Tell(TgEventView::Error("unknown chat id "@ + chat_id));
            &&& a.plan(CommandView::LoadMessages(chat_id)) == told
            &&& a.plan(CommandView::LoadOlder { chat_id, before_id: id }) == told
            &&& a.plan(CommandView::Send { chat_id, text, reply_to }) == told
            &&& a.plan(CommandView::Edit { chat_id, msg_id: id, text }) == told
            &&& a.plan(CommandView::Delete { chat_id, ids }) == told
        }),
        a.plan(CommandView::SendTyping { chat_id }) is Nothing,
{
}

/// The chats are listed and the end is taken at any time. Media is downloaded
/// exactly if it has been seen, and else an error names the message.
pub proof fn other_requests<M>(a: ActorView<M>, chat_id: Seq<char>, msg_id: u64)
    ensures
        a.plan(CommandView::LoadChats) is LoadDialogs,
        a.plan(CommandView::Shutdown) is Stop,
        a.cache.contains_key(media_name(chat_id, msg_id)) ==> a.plan(
            CommandView::FetchMedia { chat_id, msg_id },
        ) == (PlanView::Download { chat_id, msg_id }),
        !a.cache.contains_key(media_name(chat_id, msg_id)) ==> a.plan(
            CommandView::FetchMedia { chat_id, msg_id },
        ) == PlanView::Tell(
            TgEventView::Error(
                "no media cached for message "@ + decimal(msg_id as nat) + " in chat "@ + chat_id,
            ),
        ),
        media_name(chat_id, msg_id) == chat_id + "_"@ + decimal(msg_id as nat),
{
    reveal_strlit("_");
    assert(chat_id.push('_') =~= chat_id + "_"@);
}

// ---- What is remembered ----

/// The media of a message is remembered under its chat and id, in place of what
/// was there, and that of no other message is touched. A message without media
/// leaves all as it is.
pub proof fn media_is_remembered<M>(
    a: ActorView<M>,
    chat_id: Seq<char>,
    raw: RawMessage<M>,
    other: Seq<char>,
    id: u64,
)
    ensures
        a.caching(chat_id, raw).packed == a.packed,
        raw.media is None ==> a.caching(chat_id, raw) == a,
        raw.media matches Some(x) ==> ({
            let c = a.caching(chat_id, raw).cache;
            let name = media_name(chat_id, message_of(raw).id);
            &&& c.contains_key(name) && c[name] == x.1
            &&& (other != chat_id || id != message_of(raw).id) ==> {
                &&& c.contains_key(media_name(other, id)) <==> a.cache.contains_key(
                    media_name(other, id),
                )
                &&& a.cache.contains_key(media_name(other, id)) ==> c[media_name(other, id)]
                    == a.cache[media_name(other, id)]
            }
        }),
{
    if media_name(other, id) == media_name(chat_id, message_of(raw).id) {
        media_names_are_unique(other, id, chat_id, message_of(raw).id);
    }
}

/// The media of every message of a list is remembered, that of the last one
/// where several have the same id; the peers are not touched.
pub proof fn media_of_a_history_is_remembered<M>(
    a: ActorView<M>,
    chat_id: Seq<char>,
    raws: Seq<RawMessage<M>>,
    i: int,
)
    requires
        0 <= i < raws.len(),
        raws[i].media is Some,
        forall|j: int|
            i < j < raws.len() && (#[trigger] raws[j]).media is Some ==> message_of(raws[j]).id
                != message_of(raws[i]).id,
    ensures
        a.caching_all(chat_id, raws).packed == a.packed,
        a.caching_all(chat_id, raws).cache.contains_key(
            media_name(chat_id, message_of(raws[i]).id),
        ),
        a.caching_all(chat_id, raws).cache[media_name(chat_id, message_of(raws[i]).id)]
            == (raws[i].media->0).1,
    decreases raws.len(),
{
    lemma_peers_untouched(a, chat_id, raws);
    let rest = raws.drop_last();
    let b = a.caching_all(chat_id, rest);
    if i < raws.len() - 1 {
        assert forall|j: int|
            i < j < rest.len() && (#[trigger] rest[j]).media is Some implies message_of(rest[j]).id
            != message_of(rest[i]).id by {
            assert(rest[j] == raws[j]);
        }
        media_of_a_history_is_remembered(a, chat_id, rest, i);
        assert(raws.last() == raws[raws.len() - 1]);
        media_is_remembered(b, chat_id, raws.last(), chat_id, message_of(raws[i]).id);
    } else {
        media_is_remembered(b, chat_id, raws.last(), chat_id, message_of(raws[i]).id);
    }
}

proof fn lemma_peers_untouched<M>(a: ActorView<M>, chat_id: Seq<char>, raws: Seq<RawMessage<M>>)
    ensures
        a.caching_all(chat_id, raws).packed == a.packed,
    decreases raws.len(),
{
    if raws.len() > 0 {
        lemma_peers_untouched(a, chat_id, raws.drop_last());
    }
}

/// A list of messages of one chat leaves the media of all other chats, and of
/// messages that are not in it, as it was.
pub proof fn other_media_is_kept<M>(
    a: ActorView<M>,
    chat_id: Seq<char>,
    raws: Seq<RawMessage<M>>,
    other: Seq<char>,
    id: u64,
)
    requires
        other != chat_id || forall|j: int|
            0 <= j < raws.len() ==> message_of(#[trigger] raws[j]).id != id,
    ensures
        ({
            let c = a.caching_all(chat_id, raws).cache;
            let name = media_name(other, id);
            &&& c.contains_key(name) <==> a.cache.contains_key(name)
            &&& a.cache.contains_key(name) ==> c[name] == a.cache[name]
        }),
    decreases raws.len(),
{
    if raws.len() > 0 {
        let rest = raws.drop_last();
        assert forall|j: int| 0 <= j < rest.len() && other == chat_id implies message_of(
            #[trigger] rest[j],
        ).id != id by {
            assert(rest[j] == raws[j]);
        }
        other_media_is_kept(a, chat_id, rest, other, id);
        assert(raws.last() == raws[raws.len() - 1]);
        media_is_remembered(a.caching_all(chat_id, rest), chat_id, raws.last(), other, id);
    }
}

/// A list of conversations makes exactly its own peers known.
pub proof fn only_listed_chats_are_known(dialogs: Seq<RawDialog>, k: Seq<char>)
    ensures
        peers_of(dialogs).contains_key(k) ==> exists|i: int|
            0 <= i < dialogs.len() && chat_id((#[trigger] dialogs[i]).peer) == k && peers_of(
                dialogs,
            )[k] == dialogs[i].peer,
    decreases dialogs.len(),
{
    if dialogs.len() > 0 && peers_of(dialogs).contains_key(k) {
        let rest = dialogs.drop_last();
        let last = dialogs.last().peer;
        if chat_id(last) == k {
            assert(dialogs[dialogs.len() - 1].peer == last);
        } else {
            only_listed_chats_are_known(rest, k);
            let i = choose|i: int|
                0 <= i < rest.len() && chat_id((#[trigger] rest[i]).peer) == k && peers_of(rest)[k]
                    == rest[i].peer;
            assert(dialogs[i] == rest[i]);
        }
    }
}

/// A peer that is met is known from then on; one that is known already keeps its
/// entry, and no other is touched. Media is not touched.
pub proof fn met_peers_are_known<M>(a: ActorView<M>, p: Peer, k: Seq<char>)
    ensures
        ({
            let b = a.meeting(p);
            &&& b.cache == a.cache
            &&& b.packed.contains_key(chat_id(p))
            &&& !a.packed.contains_key(chat_id(p)) ==> b.packed[chat_id(p)] == p
            &&& a.packed.contains_key(k) ==> b.packed.contains_key(k) && b.packed[k] == a.packed[k]
            &&& k != chat_id(p) ==> (b.packed.contains_key(k) <==> a.packed.contains_key(k))
        }),
{
}

/// A message, new or edited, makes its peer known and its media fetchable; other
/// updates leave nothing behind.
pub proof fn updates_are_remembered<M>(
    a: ActorView<M>,
    peer: Peer,
    message: RawMessage<M>,
    u: RawUpdate<M>,
)
    ensures
        ({
            let b = a.updated(RawUpdate::NewMessage { peer, message });
            &&& b == a.updated(RawUpdate::MessageEdited { peer, message })
            &&& b.packed.contains_key(chat_id(peer))
            &&& b.packed == a.meeting(peer).packed
            &&& message.media is Some ==> b.cache.contains_key(
                media_name(chat_id(peer), message_of(message).id),
            ) && b.cache[media_name(chat_id(peer), message_of(message).id)] == (message.media->0).1
            &&& message.media is None ==> b.cache == a.cache
        }),
        !(u is NewMessage) && !(u is MessageEdited) ==> a.updated(u) == a,
{
}

// ---- Updates ----

/// A new or edited message is told as such, with the id of its chat and as it is
/// shown.
pub proof fn messages_are_told<M>(
    packed: Map<Seq<char>, Peer>,
    peer: Peer,
    message: RawMessage<M>,
    ev: Option<TgEvent>,
)
    ensures
        told_of(packed, RawUpdate::NewMessage { peer, message }, ev) ==> ev is Some && ev->0@ == (
        TgEventView::NewMessage { chat_id: chat_id(peer), message: message_of(message) }),
        told_of(packed, RawUpdate::MessageEdited { peer, message }, ev) ==> ev is Some && ev->0@
            == (TgEventView::MessageEdited {
            chat_id: chat_id(peer),
            message: message_of(message),
        }),
        told_of(packed, RawUpdate::<M>::Other, ev) ==> ev is None,
{
}

/// Whether a known chat is the one with this id of Telegram's, among those of a
/// kind: people and bots, small groups, or channels of any sort.
pub open spec fn stands_for(
    packed: Map<Seq<char>, Peer>,
    key: Seq<char>,
    peer: TypingPeer,
    id: i64,
) -> bool {
    &&& packed.contains_key(key)
    &&& packed[key].id == id
    &&& match packed[key].kind {
        PeerKind::User | PeerKind::Bot => peer is User,
        PeerKind::Chat => peer is BasicGroup,
        PeerKind::Megagroup | PeerKind::Broadcast | PeerKind::Gigagroup => peer is Channel,
    }
}

/// A deletion is told with all of its ids. In a channel it names the chat if
/// that is known; elsewhere it names none.
pub proof fn deletions_are_told<M>(
    packed: Map<Seq<char>, Peer>,
    channel_id: Option<i64>,
    ids: Vec<i32>,
    ev: Option<TgEvent>,
    key: Seq<char>,
    i: int,
)
    requires
        told_of(packed, RawUpdate::<M>::MessageDeleted { channel_id, ids }, ev),
    ensures
        ev is Some,
        ev->0@ is MessageDeleted,
        ({
            let chat = ev->0@->MessageDeleted_chat_id;
            let gone = ev->0@->MessageDeleted_ids;
            &&& gone.len() == ids@.len()
            &&& 0 <= i < ids@.len() ==> gone[i] == ids@[i] as u64
            &&& channel_id is None ==> chat is None
            &&& channel_id is Some && chat is Some ==> stands_for(
                packed,
                chat->0,
                TypingPeer::Channel,
                channel_id->0,
            )
            &&& channel_id is Some && stands_for(packed, key, TypingPeer::Channel, channel_id->0)
                ==> chat is Some
        }),
{
    if channel_id is Some && stands_for(packed, key, TypingPeer::Channel, channel_id->0) {
        assert(resolves(packed, key, TypingPeer::Channel, channel_id->0));
    }
}

/// A typing note is told of a known chat that it is about, as begun or ended,
/// and of none if there is no such chat.
pub proof fn typing_notes_are_told<M>(
    packed: Map<Seq<char>, Peer>,
    peer: TypingPeer,
    id: i64,
    cancelled: bool,
    ev: Option<TgEvent>,
    key: Seq<char>,
)
    requires
        told_of(packed, RawUpdate::<M>::Typing { peer, id, cancelled }, ev),
    ensures
        stands_for(packed, key, peer, id) ==> ev is Some,
        ev matches Some(e) ==> e@ is Typing && e@->Typing_active != cancelled && stands_for(
            packed,
            e@->Typing_chat_id,
            peer,
            id,
        ),
{
    chats_are_found_by_kind_and_id(packed, key, peer, id);
    if ev is None {
        let u = RawUpdate::<M>::Typing { peer, id, cancelled };
        assert(u->Typing_peer == peer && u->Typing_id == id);
        assert(forall|k: Seq<char>| !#[trigger] resolves(packed, k, u->Typing_peer, u->Typing_id));
        assert(!resolves(packed, key, peer, id));
    }
}

/// A typing note or a deletion finds exactly the chats that it is about.
pub proof fn chats_are_found_by_kind_and_id(
    packed: Map<Seq<char>, Peer>,
    key: Seq<char>,
    peer: TypingPeer,
    id: i64,
)
    ensures
        resolves(packed, key, peer, id) <==> stands_for(packed, key, peer, id),
{
}

/// What failed is told in words of its own.
pub proof fn failures_are_told_apart(chat_id: Seq<char>, hint: Seq<char>)
    ensures
        stage_label(Stage::LoadChats) == "load chats: "@,
        stage_label(Stage::LoadMessages) == "load messages: "@,
        stage_label(Stage::LoadOlder) == "load older: "@,
        stage_label(Stage::Send) == "send failed: "@,
        stage_label(Stage::Delete) == "delete failed: "@,
        stage_label(Stage::Edit) == "edit failed: "@,
        stage_label(Stage::Download) == "download failed: "@,
        stage_label(Stage::UpdateStream) == "update stream: "@,
        unknown_chat(chat_id) == TgEventView::Error("unknown chat id "@ + chat_id),
        password_prompt(None) == "2FA password: "@,
        hint.len() == 0 ==> password_prompt(Some(hint)) == "2FA password: "@,
        hint.len() > 0 ==> password_prompt(Some(hint)) == "2FA password (hint: "@ + hint + "): "@,
{
}

} // verus!
