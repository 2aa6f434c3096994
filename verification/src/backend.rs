//! The actor that talks to Telegram, without the talking.
//!
//! [`Actor`] decides what to ask Telegram for a command, and turns what comes
//! back into events. It knows the peers behind the chat ids, and the media of
//! the messages that it has seen. Whoever has the connection carries the
//! plans out and hands over the replies and updates as plain values.

use crate::telegram::{
    chat_views, message_views, Chat, ChatView, Command, CommandView, MediaKind, Message,
    MessageView, TgEvent, TgEventView,
};
use crate::text::{chars_of, decimal, decimal_of, lemma_decimal, opt_text};
use crate::textmap::{distinct_keys, lemma_map_of_entry, lemma_map_of_key, TextMap};
use grammers_client::session::{PackedChat, PackedType};
use vstd::bytes::{lemma_auto_spec_u64_to_from_le_bytes, spec_u64_to_le_bytes};
use vstd::prelude::*;

verus! {

/// How many chats are loaded at most.
pub const DIALOG_LIMIT: usize = 200;

/// How many messages are loaded at a time at most.
pub const HISTORY_LIMIT: usize = 50;

/// What kind of conversation a peer is.
#[derive(Debug, Clone, Copy, PartialEq, Eq, Structural)]
pub enum PeerKind {
    User,
    Bot,
    Chat,
    Megagroup,
    Broadcast,
    Gigagroup,
}

/// What Telegram needs to know of a conversation to find it.
#[derive(Debug, Clone, Copy, PartialEq, Eq, Structural)]
pub struct Peer {
    pub kind: PeerKind,
    pub id: i64,
    pub access_hash: Option<i64>,
}

/// The byte for a kind of peer.
pub open spec fn kind_tag(kind: PeerKind) -> u8 {
    match kind {
        PeerKind::User => 0x02,
        PeerKind::Bot => 0x03,
        PeerKind::Chat => 0x04,
        PeerKind::Megagroup => 0x28,
        PeerKind::Broadcast => 0x30,
        PeerKind::Gigagroup => 0x38,
    }
}

/// A peer in 17 bytes: the kind, with the bit 0x40 set if there is an access
/// hash, then the id and the hash, each in eight bytes with the lowest first.
pub open spec fn peer_bytes(p: Peer) -> Seq<u8> {
    match p.access_hash {
        Some(hash) => seq![(kind_tag(p.kind) + 0x40) as u8] + spec_u64_to_le_bytes(p.id as u64)
            + spec_u64_to_le_bytes(hash as u64),
        None => seq![kind_tag(p.kind)] + spec_u64_to_le_bytes(p.id as u64) + spec_u64_to_le_bytes(
            0,
        ),
    }
}

/// A digit of base sixteen, in small letters.
pub open spec fn hex_digit(d: u8) -> char {
    if d < 10 {
        (d + '0' as u8) as char
    } else {
        (d - 10 + 'a' as u8) as char
    }
}

/// Bytes in base sixteen, two digits each.
pub open spec fn hex_text(bytes: Seq<u8>) -> Seq<char> {
    Seq::new(
        2 * bytes.len(),
        |i: int|
            if i % 2 == 0 {
                hex_digit(bytes[i / 2] / 16)
            } else {
                hex_digit(bytes[i / 2] % 16)
            },
    )
}

/// The id by which the interface knows a peer.
pub open spec fn chat_id(p: Peer) -> Seq<char> {
    hex_text(peer_bytes(p))
}

/// `PackedChat::to_hex`: the bytes of the peer in base sixteen.
#[verifier::external_body]
fn to_hex(p: &Peer) -> (id: String)
    ensures
        id@ == chat_id(*p),
{
    let ty = match p.kind {
        PeerKind::User => PackedType::User,
        PeerKind::Bot => PackedType::Bot,
        PeerKind::Chat => PackedType::Chat,
        PeerKind::Megagroup => PackedType::Megagroup,
        PeerKind::Broadcast => PackedType::Broadcast,
        PeerKind::Gigagroup => PackedType::Gigagroup,
    };
    PackedChat { ty, id: p.id, access_hash: p.access_hash }.to_hex()
}

/// The name under which the media of a message is known and stored.
pub open spec fn media_name(chat_id: Seq<char>, msg_id: u64) -> Seq<char> {
    chat_id.push('_') + decimal(msg_id as nat)
}

/// The name under which the media of a message is stored.
pub fn media_file_name(chat_id: &str, msg_id: u64) -> (name: String)
    ensures
        name@ == media_name(chat_id@, msg_id),
{
    let mut name = chat_id.to_string();
    name.push('_');
    name.append(decimal_of(msg_id).as_str());
    name
}

/// What is attached to a message, as Telegram sorts it.
#[derive(Debug)]
pub enum RawMedia {
    Photo,
    Sticker,
    Document { mime_type: Option<String> },
    Other,
}

/// A message as Telegram gives it; `M` is what its media is downloaded with.
pub struct RawMessage<M> {
    pub id: i32,
    pub sender: Option<String>,
    pub text: String,
    /// In seconds since the Unix epoch.
    pub date: i64,
    pub outgoing: bool,
    pub reply_to: Option<i32>,
    pub edited: bool,
    pub media: Option<(RawMedia, M)>,
}

/// A conversation as Telegram lists it.
#[derive(Debug)]
pub struct RawDialog {
    pub peer: Peer,
    pub name: String,
    pub username: Option<String>,
    /// The text of its last message.
    pub last_text: Option<String>,
}

/// The kind of peer that a typing note is about.
#[derive(Debug, Clone, Copy, PartialEq, Eq, Structural)]
pub enum TypingPeer {
    User,
    BasicGroup,
    Channel,
}

/// Something that Telegram reports by itself.
#[allow(inconsistent_fields)]
pub enum RawUpdate<M> {
    NewMessage { peer: Peer, message: RawMessage<M> },
    MessageEdited { peer: Peer, message: RawMessage<M> },
    MessageDeleted { channel_id: Option<i64>, ids: Vec<i32> },
    Typing { peer: TypingPeer, id: i64, cancelled: bool },
    Other,
}

/// How the interface sorts media: a document is a video if its type says so.
pub open spec fn kind_of_media(m: RawMedia) -> MediaKind {
    match m {
        RawMedia::Photo => MediaKind::Photo,
        RawMedia::Sticker => MediaKind::Sticker,
        RawMedia::Document { mime_type } => if mime_type matches Some(t) && "video/"@.is_prefix_of(
            t@,
        ) {
            MediaKind::Video
        } else {
            MediaKind::Document
        },
        RawMedia::Other => MediaKind::Other,
    }
}

/// Whether `s` begins with `prefix`.
fn begins_with(s: &str, prefix: &str) -> (b: bool)
    ensures
        b == prefix@.is_prefix_of(s@),
{
    let v = chars_of(s);
    let p = chars_of(prefix);
    if v.len() < p.len() {
        return false;
    }
    let mut i: usize = 0;
    while i < p.len()
        invariant
            i <= p@.len() <= v@.len(),
            v@ == s@,
            p@ == prefix@,
            forall|j: int| 0 <= j < i ==> p@[j] == v@[j],
        decreases p.len() - i,
    {
        if p[i] != v[i] {
            assert(s@.subrange(0, prefix@.len() as int)[i as int] != prefix@[i as int]);
            return false;
        }
        i = i + 1;
    }
    assert(prefix@ =~= s@.subrange(0, prefix@.len() as int));
    true
}

/// How the interface sorts media.
pub fn media_kind_of(m: &RawMedia) -> (kind: MediaKind)
    ensures
        kind == kind_of_media(*m),
{
    match m {
        RawMedia::Photo => MediaKind::Photo,
        RawMedia::Sticker => MediaKind::Sticker,
        RawMedia::Document { mime_type } => match mime_type {
            Some(t) => if begins_with(t.as_str(), "video/") {
                MediaKind::Video
            } else {
                MediaKind::Document
            },
            None => MediaKind::Document,
        },
        RawMedia::Other => MediaKind::Other,
    }
}

/// A message as the interface shows it: the user's own are by `me`, and those
/// without a sender by `?`.
pub open spec fn message_of<M>(raw: RawMessage<M>) -> MessageView {
    MessageView {
        id: raw.id as u64,
        sender: if raw.outgoing {
            "me"@
        } else {
            match raw.sender {
                Some(s) => s@,
                None => "?"@,
            }
        },
        text: raw.text@,
        timestamp: raw.date,
        outgoing: raw.outgoing,
        reply_to_id: match raw.reply_to {
            Some(i) => Some(i as u64),
            None => None,
        },
        edited: raw.edited,
        media_kind: match raw.media {
            Some(m) => Some(kind_of_media(m.0)),
            None => None,
        },
        media_path: None,
    }
}

/// A message as the interface shows it.
pub fn convert_message<M>(raw: &RawMessage<M>) -> (m: Message)
    ensures
        m@ == message_of(*raw),
{
    Message {
        id: raw.id as u64,
        sender: if raw.outgoing {
            "me".to_string()
        } else {
            match &raw.sender {
                Some(s) => s.clone(),
                None => "?".to_string(),
            }
        },
        text: raw.text.clone(),
        timestamp: raw.date,
        outgoing: raw.outgoing,
        reply_to_id: match raw.reply_to {
            Some(i) => Some(i as u64),
            None => None,
        },
        edited: raw.edited,
        media_kind: match &raw.media {
            Some(m) => Some(media_kind_of(&m.0)),
            None => None,
        },
        media_path: None,
    }
}


// ---- Commands ----

/// What is to be asked of Telegram.
#[derive(Debug)]
#[allow(inconsistent_fields)]
pub enum Plan {
    /// List the conversations.
    LoadDialogs,
    /// List messages, newest first, from before `before` if that is given.
    LoadHistory { chat_id: String, peer: Peer, before: Option<i32> },
    Send { chat_id: String, peer: Peer, text: String, reply_to: Option<i32> },
    Edit { peer: Peer, msg_id: i32, text: String },
    Delete { peer: Peer, ids: Vec<i32> },
    SendTyping { peer: Peer },
    /// Download the media that [`Actor::media`] has for the message.
    Download { chat_id: String, msg_id: u64 },
    /// Ask nothing; tell the interface.
    Tell(TgEvent),
    /// Ask nothing.
    Nothing,
    /// End.
    Stop,
}

/// The contents of a [`Plan`].
#[verifier::ext_equal]
#[allow(inconsistent_fields)]
pub enum PlanView {
    LoadDialogs,
    LoadHistory { chat_id: Seq<char>, peer: Peer, before: Option<i32> },
    Send { chat_id: Seq<char>, peer: Peer, text: Seq<char>, reply_to: Option<i32> },
    Edit { peer: Peer, msg_id: i32, text: Seq<char> },
    Delete { peer: Peer, ids: Seq<i32> },
    SendTyping { peer: Peer },
    Download { chat_id: Seq<char>, msg_id: u64 },
    Tell(TgEventView),
    Nothing,
    Stop,
}

impl View for Plan {
    type V = PlanView;

    open spec fn view(&self) -> PlanView {
        match *self {
            Plan::LoadDialogs => PlanView::LoadDialogs,
            Plan::LoadHistory { chat_id, peer, before } => PlanView::LoadHistory {
                chat_id: chat_id@,
                peer,
                before,
            },
            Plan::Send { chat_id, peer, text, reply_to } => PlanView::Send {
                chat_id: chat_id@,
                peer,
                text: text@,
                reply_to,
            },
            Plan::Edit { peer, msg_id, text } => PlanView::Edit { peer, msg_id, text: text@ },
            Plan::Delete { peer, ids } => PlanView::Delete { peer, ids: ids@ },
            Plan::SendTyping { peer } => PlanView::SendTyping { peer },
            Plan::Download { chat_id, msg_id } => PlanView::Download { chat_id: chat_id@, msg_id },
            Plan::Tell(ev) => PlanView::Tell(ev@),
            Plan::Nothing => PlanView::Nothing,
            Plan::Stop => PlanView::Stop,
        }
    }
}

/// What the actor knows: the peer behind every chat id, and what the media of
/// the messages that it has seen is downloaded with.
pub struct Actor<M> {
    packed: TextMap<Peer>,
    cache: TextMap<M>,
}

/// The contents of an [`Actor`].
#[verifier::ext_equal]
pub struct ActorView<M> {
    pub packed: Map<Seq<char>, Peer>,
    /// By [`media_name`].
    pub cache: Map<Seq<char>, M>,
}

impl<M> View for Actor<M> {
    type V = ActorView<M>;

    closed spec fn view(&self) -> ActorView<M> {
        ActorView { packed: self.packed@, cache: self.cache@ }
    }
}

/// All that there is to an actor.
proof fn lemma_actor_is_told<M>(a: Actor<M>)
    ensures
        a@.packed == a.packed@,
        a@.cache == a.cache@,
{
}

/// A message id as Telegram takes it.
pub open spec fn wire_id(id: u64) -> i32 {
    id as i32
}

/// What is told about a chat that is not known.
pub open spec fn unknown_chat(chat_id: Seq<char>) -> TgEventView {
    TgEventView::Error("unknown chat id "@ + chat_id)
}

impl<M> ActorView<M> {
    /// What a command asks of Telegram.
    pub open spec fn plan(self, c: CommandView) -> PlanView {
        match c {
            CommandView::LoadChats => PlanView::LoadDialogs,
            CommandView::LoadMessages(chat_id) => if self.packed.contains_key(chat_id) {
                PlanView::LoadHistory { chat_id, peer: self.packed[chat_id], before: None }
            } else {
                PlanView::Tell(unknown_chat(chat_id))
            },
            CommandView::LoadOlder { chat_id, before_id } => if self.packed.contains_key(chat_id) {
                PlanView::LoadHistory {
                    chat_id,
                    peer: self.packed[chat_id],
                    before: Some(wire_id(before_id)),
                }
            } else {
                PlanView::Tell(unknown_chat(chat_id))
            },
            CommandView::Send { chat_id, text, reply_to } => if self.packed.contains_key(chat_id) {
                PlanView::Send {
                    chat_id,
                    peer: self.packed[chat_id],
                    text,
                    reply_to: match reply_to {
                        Some(id) => Some(wire_id(id)),
                        None => None,
                    },
                }
            } else {
                PlanView::Tell(unknown_chat(chat_id))
            },
            CommandView::Edit { chat_id, msg_id, text } => if self.packed.contains_key(chat_id) {
                PlanView::Edit { peer: self.packed[chat_id], msg_id: wire_id(msg_id), text }
            } else {
                PlanView::Tell(unknown_chat(chat_id))
            },
            CommandView::Delete { chat_id, ids } => if self.packed.contains_key(chat_id) {
                PlanView::Delete {
                    peer: self.packed[chat_id],
                    ids: ids.map_values(|id: u64| wire_id(id)),
                }
            } else {
                PlanView::Tell(unknown_chat(chat_id))
            },
            CommandView::SendTyping { chat_id } => if self.packed.contains_key(chat_id) {
                PlanView::SendTyping { peer: self.packed[chat_id] }
            } else {
                PlanView::Nothing
            },
            CommandView::FetchMedia { chat_id, msg_id } => if self.cache.contains_key(
                media_name(chat_id, msg_id),
            ) {
                PlanView::Download { chat_id, msg_id }
            } else {
                PlanView::Tell(
                    TgEventView::Error(
                        "no media cached for message "@ + decimal(msg_id as nat) + " in chat "@
                            + chat_id,
                    ),
                )
            },
            CommandView::Shutdown => PlanView::Stop,
        }
    }

    /// With the media of a message remembered.
    pub open spec fn caching(self, chat_id: Seq<char>, raw: RawMessage<M>) -> ActorView<M> {
        match raw.media {
            Some(m) => ActorView {
                cache: self.cache.insert(media_name(chat_id, raw.id as u64), m.1),
                ..self
            },
            None => self,
        }
    }

    /// With the media of a list of messages remembered.
    pub open spec fn caching_all(
        self,
        chat_id: Seq<char>,
        raws: Seq<RawMessage<M>>,
    ) -> ActorView<M>
        decreases raws.len(),
    {
        if raws.len() == 0 {
            self
        } else {
            self.caching_all(chat_id, raws.drop_last()).caching(chat_id, raws.last())
        }
    }

    /// With a peer remembered under its id, unless the id is known already.
    pub open spec fn meeting(self, p: Peer) -> ActorView<M> {
        if self.packed.contains_key(chat_id(p)) {
            self
        } else {
            ActorView { packed: self.packed.insert(chat_id(p), p), ..self }
        }
    }

    /// What an update leaves behind.
    pub open spec fn updated(self, u: RawUpdate<M>) -> ActorView<M> {
        match u {
            RawUpdate::NewMessage { peer, message } => self.meeting(peer).caching(
                chat_id(peer),
                message,
            ),
            RawUpdate::MessageEdited { peer, message } => self.meeting(peer).caching(
                chat_id(peer),
                message,
            ),
            _ => self,
        }
    }
}

/// The peers of a list of conversations, by their ids.
pub open spec fn peers_of(dialogs: Seq<RawDialog>) -> Map<Seq<char>, Peer>
    decreases dialogs.len(),
{
    if dialogs.len() == 0 {
        Map::empty()
    } else {
        peers_of(dialogs.drop_last()).insert(chat_id(dialogs.last().peer), dialogs.last().peer)
    }
}

/// A conversation as the interface lists it.
pub open spec fn chat_of(d: RawDialog) -> ChatView {
    ChatView {
        id: chat_id(d.peer),
        name: d.name@,
        username: opt_text(d.username),
        last_preview: match d.last_text {
            Some(t) => t@,
            None => Seq::empty(),
        },
        unread: 0,
    }
}

/// Messages that came newest first, as the interface shows them.
pub open spec fn history_of<M>(raws: Seq<RawMessage<M>>) -> Seq<MessageView> {
    Seq::new(raws.len(), |i: int| message_of(raws[raws.len() - 1 - i]))
}

/// Whether a peer is what a typing note is about.
pub open spec fn is_typing_peer(p: Peer, peer: TypingPeer, id: i64) -> bool {
    p.id == id && (match peer {
        TypingPeer::User => p.kind is User || p.kind is Bot,
        TypingPeer::BasicGroup => p.kind is Chat,
        TypingPeer::Channel => p.kind is Megagroup || p.kind is Broadcast || p.kind is Gigagroup,
    })
}

/// Whether a chat id is that of a known peer that a typing note can be about.
pub open spec fn resolves(
    packed: Map<Seq<char>, Peer>,
    key: Seq<char>,
    peer: TypingPeer,
    id: i64,
) -> bool {
    packed.contains_key(key) && is_typing_peer(packed[key], peer, id)
}

/// What a failed request is told as; a typing note that could not be sent is
/// told to no one.
#[derive(Debug, Clone, Copy, PartialEq, Eq, Structural)]
pub enum Stage {
    LoadChats,
    LoadMessages,
    LoadOlder,
    Send,
    Delete,
    Edit,
    Download,
    UpdateStream,
}

/// The words before the error of a stage.
pub open spec fn stage_label(stage: Stage) -> Seq<char> {
    match stage {
        Stage::LoadChats => "load chats: "@,
        Stage::LoadMessages => "load messages: "@,
        Stage::LoadOlder => "load older: "@,
        Stage::Send => "send failed: "@,
        Stage::Delete => "delete failed: "@,
        Stage::Edit => "edit failed: "@,
        Stage::Download => "download failed: "@,
        Stage::UpdateStream => "update stream: "@,
    }
}

/// The event for a request that failed.
pub fn failure(stage: Stage, error: &str) -> (ev: TgEvent)
    ensures
        ev@ == TgEventView::Error(stage_label(stage) + error@),
{
    let mut text = match stage {
        Stage::LoadChats => "load chats: ",
        Stage::LoadMessages => "load messages: ",
        Stage::LoadOlder => "load older: ",
        Stage::Send => "send failed: ",
        Stage::Delete => "delete failed: ",
        Stage::Edit => "edit failed: ",
        Stage::Download => "download failed: ",
        Stage::UpdateStream => "update stream: ",
    }.to_string();
    text.append(error);
    TgEvent::Error(text)
}

/// The event about a chat that is not known.
fn tell_unknown(chat_id: &String) -> (p: Plan)
    ensures
        p@ == PlanView::Tell(unknown_chat(chat_id@)),
{
    let mut text = "unknown chat id ".to_string();
    text.append(chat_id.as_str());
    Plan::Tell(TgEvent::Error(text))
}

fn wire_ids(ids: &Vec<u64>) -> (r: Vec<i32>)
    ensures
        r@ == ids@.map_values(|id: u64| wire_id(id)),
{
    let mut r: Vec<i32> = Vec::new();
    let mut i: usize = 0;
    while i < ids.len()
        invariant
            i <= ids@.len(),
            r@.len() == i,
            forall|j: int| 0 <= j < i ==> r@[j] == wire_id(ids@[j]),
        decreases ids.len() - i,
    {
        let id: u64 = ids[i];
        r.push(#[verifier::truncate] (id as i32));
        i = i + 1;
    }
    assert(r@ =~= ids@.map_values(|id: u64| wire_id(id)));
    r
}

fn unwired_ids(ids: &Vec<i32>) -> (r: Vec<u64>)
    ensures
        r@ == ids@.map_values(|id: i32| id as u64),
{
    let mut r: Vec<u64> = Vec::new();
    let mut i: usize = 0;
    while i < ids.len()
        invariant
            i <= ids@.len(),
            r@.len() == i,
            forall|j: int| 0 <= j < i ==> r@[j] == ids@[j] as u64,
        decreases ids.len() - i,
    {
        let id: i32 = ids[i];
        r.push(#[verifier::truncate] (id as u64));
        i = i + 1;
    }
    assert(r@ =~= ids@.map_values(|id: i32| id as u64));
    r
}

impl<M> Actor<M> {
    /// An actor that knows nothing.
    pub fn new() -> (a: Self)
        ensures
            a@.packed == Map::<Seq<char>, Peer>::empty(),
            a@.cache == Map::<Seq<char>, M>::empty(),
    {
        Actor { packed: TextMap::new(), cache: TextMap::new() }
    }

    /// Decides what to ask of Telegram for a command.
    pub fn handle_command(&self, c: Command) -> (p: Plan)
        ensures
            p@ == self@.plan(c@),
    {
        match c {
            Command::LoadChats => Plan::LoadDialogs,
            Command::LoadMessages(chat_id) => match self.packed.get(&chat_id) {
                Some(peer) => Plan::LoadHistory { peer: *peer, chat_id, before: None },
                None => tell_unknown(&chat_id),
            },
            Command::LoadOlder { chat_id, before_id } => match self.packed.get(&chat_id) {
                Some(peer) => Plan::LoadHistory {
                    peer: *peer,
                    chat_id,
                    before: Some(#[verifier::truncate] (before_id as i32)),
                },
                None => tell_unknown(&chat_id),
            },
            Command::Send { chat_id, text, reply_to } => match self.packed.get(&chat_id) {
                Some(peer) => Plan::Send {
                    peer: *peer,
                    chat_id,
                    text,
                    reply_to: match reply_to {
                        Some(id) => Some(#[verifier::truncate] (id as i32)),
                        None => None,
                    },
                },
                None => tell_unknown(&chat_id),
            },
            Command::Edit { chat_id, msg_id, text } => match self.packed.get(&chat_id) {
                Some(peer) => Plan::Edit {
                    peer: *peer,
                    msg_id: #[verifier::truncate] (msg_id as i32),
                    text,
                },
                None => tell_unknown(&chat_id),
            },
            Command::Delete { chat_id, ids } => match self.packed.get(&chat_id) {
                Some(peer) => Plan::Delete { peer: *peer, ids: wire_ids(&ids) },
                None => tell_unknown(&chat_id),
            },
            Command::SendTyping { chat_id } => match self.packed.get(&chat_id) {
                Some(peer) => Plan::SendTyping { peer: *peer },
                None => Plan::Nothing,
            },
            Command::FetchMedia { chat_id, msg_id } => {
                let name = media_file_name(chat_id.as_str(), msg_id);
                if self.cache.contains(&name) {
                    Plan::Download { chat_id, msg_id }
                } else {
                    let mut text = "no media cached for message ".to_string();
                    text.append(decimal_of(msg_id).as_str());
                    text.append(" in chat ");
                    text.append(chat_id.as_str());
                    Plan::Tell(TgEvent::Error(text))
                }
            },
            Command::Shutdown => Plan::Stop,
        }
    }

    /// What the media of a message is downloaded with.
    pub fn media(&self, chat_id: &str, msg_id: u64) -> (m: Option<&M>)
        ensures
            m is Some <==> self@.cache.contains_key(media_name(chat_id@, msg_id)),
            m matches Some(x) ==> *x == self@.cache[media_name(chat_id@, msg_id)],
    {
        self.cache.get(&media_file_name(chat_id, msg_id))
    }

    /// Takes a list of conversations in, in place of the one before.
    pub fn load_chats(&mut self, dialogs: Vec<RawDialog>) -> (ev: TgEvent)
        ensures
            final(self)@ == (ActorView { packed: peers_of(dialogs@), ..old(self)@ }),
            ev@ == TgEventView::ChatsLoaded(dialogs@.map_values(|d: RawDialog| chat_of(d))),
    {
        let mut chats: Vec<Chat> = Vec::new();
        let mut packed: TextMap<Peer> = TextMap::new();
        let mut i: usize = 0;
        assert(dialogs@.take(0) =~= Seq::<RawDialog>::empty());
        while i < dialogs.len()
            invariant
                i <= dialogs@.len(),
                chats@.len() == i,
                forall|j: int| 0 <= j < i ==> (#[trigger] chats@[j])@ == chat_of(dialogs@[j]),
                packed@ == peers_of(dialogs@.take(i as int)),
            decreases dialogs.len() - i,
        {
            let d = &dialogs[i];
            let id = to_hex(&d.peer);
            chats.push(
                Chat {
                    id: id.clone(),
                    name: d.name.clone(),
                    username: d.username.clone(),
                    last_preview: match &d.last_text {
                        Some(t) => t.clone(),
                        None => String::new(),
                    },
                    unread: 0,
                },
            );
            packed.insert(id, d.peer);
            assert(dialogs@.take(i + 1).drop_last() =~= dialogs@.take(i as int));
            i = i + 1;
        }
        assert(dialogs@.take(dialogs@.len() as int) =~= dialogs@);
        assert(chat_views(chats@) =~= dialogs@.map_values(|d: RawDialog| chat_of(d)));
        self.packed = packed;
        TgEvent::ChatsLoaded(chats)
    }

    /// Remembers the media of a message, and shows the message.
    fn take_message(&mut self, chat_id: &str, raw: RawMessage<M>) -> (m: Message)
        ensures
            final(self)@ == old(self)@.caching(chat_id@, raw),
            m@ == message_of(raw),
    {
        let m = convert_message(&raw);
        if let Some((_, media)) = raw.media {
            self.cache.insert(media_file_name(chat_id, m.id), media);
        }
        m
    }

    /// Takes messages in that came newest first, and puts them in the order of
    /// time.
    fn take_history(&mut self, chat_id: &str, raws: Vec<RawMessage<M>>) -> (list: Vec<Message>)
        ensures
            final(self)@ == old(self)@.caching_all(chat_id@, raws@),
            message_views(list@) == history_of(raws@),
    {
        let ghost all = raws@;
        let ghost start = self@;
        let mut left = raws;
        let mut list: Vec<Message> = Vec::new();
        let ghost mut n: int = 0;
        assert(all.take(0) =~= Seq::<RawMessage<M>>::empty());
        assert(all.skip(0) =~= all);
        while left.len() > 0
            invariant
                0 <= n <= all.len(),
                left@ == all.skip(n),
                self@ == start.caching_all(chat_id@, all.take(n)),
                list@.len() == n,
                forall|j: int| 0 <= j < n ==> (#[trigger] list@[j])@ == message_of(all[n - 1 - j]),
            decreases left.len(),
        {
            proof {
                assert(left@[0] == all[n]);
                assert(all.take(n + 1).drop_last() =~= all.take(n));
                assert(all.take(n + 1).last() == all[n]);
                assert(all.skip(n).remove(0) =~= all.skip(n + 1));
            }
            let raw = left.remove(0);
            let m = self.take_message(chat_id, raw);
            let ghost before = list@;
            list.insert(0, m);
            proof {
                n = n + 1;
                assert forall|j: int| 0 <= j < n implies (#[trigger] list@[j])@ == message_of(
                    all[n - 1 - j],
                ) by {
                    if j > 0 {
                        assert(list@[j] == before[j - 1]);
                    }
                }
            }
        }
        proof {
            assert(all.take(n) =~= all);
            assert(message_views(list@) =~= history_of(all));
        }
        list
    }

    /// Takes the messages of a chat in, which came newest first.
    pub fn load_messages(&mut self, chat_id: String, raws: Vec<RawMessage<M>>) -> (ev: TgEvent)
        ensures
            final(self)@ == old(self)@.caching_all(chat_id@, raws@),
            ev@ == (TgEventView::MessagesLoaded {
                chat_id: chat_id@,
                messages: history_of(raws@),
            }),
    {
        let messages = self.take_history(chat_id.as_str(), raws);
        TgEvent::MessagesLoaded { chat_id, messages }
    }

    /// Takes older messages of a chat in, which came newest first.
    pub fn load_older(&mut self, chat_id: String, raws: Vec<RawMessage<M>>) -> (ev: TgEvent)
        ensures
            final(self)@ == old(self)@.caching_all(chat_id@, raws@),
            ev@ == (TgEventView::OlderMessagesLoaded {
                chat_id: chat_id@,
                messages: history_of(raws@),
            }),
    {
        let messages = self.take_history(chat_id.as_str(), raws);
        TgEvent::OlderMessagesLoaded { chat_id, messages }
    }

    /// Remembers a peer and gives its id.
    fn meet(&mut self, p: Peer) -> (id: String)
        ensures
            final(self)@ == old(self)@.meeting(p),
            id@ == chat_id(p),
    {
        let id = to_hex(&p);
        if !self.packed.contains(&id) {
            self.packed.insert(id.clone(), p);
        }
        id
    }

    /// The id of a known peer that a typing note can be about. Where several
    /// are, any of them may be given.
    pub fn resolve_typing_chat(&self, id: i64, peer: TypingPeer) -> (r: Option<String>)
        ensures
            r matches Some(key) ==> resolves(self@.packed, key@, peer, id),
            r is None ==> forall|key: Seq<char>| !#[trigger] resolves(self@.packed, key, peer, id),
    {
        let n = self.packed.len();
        let ghost pairs = self.packed.pairs();
        let mut i: usize = 0;
        while i < n
            invariant
                i <= n == pairs.len(),
                pairs == self.packed.pairs(),
                distinct_keys(pairs),
                forall|j: int| 0 <= j < i ==> !is_typing_peer((#[trigger] pairs[j]).1, peer, id),
            decreases n - i,
        {
            let p: Peer = *self.packed.value_at(i);
            let fits = match peer {
                TypingPeer::User => p.kind == PeerKind::User || p.kind == PeerKind::Bot,
                TypingPeer::BasicGroup => p.kind == PeerKind::Chat,
                TypingPeer::Channel => p.kind == PeerKind::Megagroup || p.kind
                    == PeerKind::Broadcast || p.kind == PeerKind::Gigagroup,
            };
            if fits && p.id == id {
                let key = self.packed.key_at(i).to_string();
                proof {
                    lemma_map_of_entry(pairs, i as int);
                }
                return Some(key);
            }
            i = i + 1;
        }
        proof {
            assert forall|key: Seq<char>| !#[trigger] resolves(self@.packed, key, peer, id) by {
                if self.packed@.contains_key(key) {
                    let j = lemma_map_of_key(pairs, key);
                }
            }
        }
        None
    }

    /// The id of a known channel with this id of Telegram's.
    pub fn resolve_channel(&self, channel_id: i64) -> (r: Option<String>)
        ensures
            r matches Some(key) ==> resolves(self@.packed, key@, TypingPeer::Channel, channel_id),
            r is None ==> forall|key: Seq<char>|
                !#[trigger] resolves(self@.packed, key, TypingPeer::Channel, channel_id),
    {
        self.resolve_typing_chat(channel_id, TypingPeer::Channel)
    }

    /// Takes an update in, and tells the interface about it if it is to know.
    pub fn handle_update(&mut self, u: RawUpdate<M>) -> (ev: Option<TgEvent>)
        ensures
            final(self)@ == old(self)@.updated(u),
            told_of(old(self)@.packed, u, ev),
    {
        match u {
            RawUpdate::NewMessage { peer, message } => {
                let chat_id = self.meet(peer);
                let message = self.take_message(chat_id.as_str(), message);
                Some(TgEvent::NewMessage { chat_id, message })
            },
            RawUpdate::MessageEdited { peer, message } => {
                let chat_id = self.meet(peer);
                let message = self.take_message(chat_id.as_str(), message);
                Some(TgEvent::MessageEdited { chat_id, message })
            },
            RawUpdate::MessageDeleted { channel_id, ids } => {
                let chat_id = match channel_id {
                    Some(id) => self.resolve_channel(id),
                    None => None,
                };
                Some(TgEvent::MessageDeleted { chat_id, ids: unwired_ids(&ids) })
            },
            RawUpdate::Typing { peer, id, cancelled } => match self.resolve_typing_chat(id, peer) {
                Some(chat_id) => Some(TgEvent::Typing { chat_id, active: !cancelled }),
                None => None,
            },
            RawUpdate::Other => None,
        }
    }
}

/// What is told of an update. A deletion in a channel names the chat if it is
/// known; a typing note about no known chat is told to no one.
pub open spec fn told_of<M>(
    packed: Map<Seq<char>, Peer>,
    u: RawUpdate<M>,
    ev: Option<TgEvent>,
) -> bool {
    match u {
        RawUpdate::NewMessage { peer, message } => {
            &&& ev is Some
            &&& ev->0@ == (TgEventView::NewMessage {
                chat_id: chat_id(peer),
                message: message_of(message),
            })
        },
        RawUpdate::MessageEdited { peer, message } => {
            &&& ev is Some
            &&& ev->0@ == (TgEventView::MessageEdited {
                chat_id: chat_id(peer),
                message: message_of(message),
            })
        },
        RawUpdate::MessageDeleted { channel_id, ids } => {
            &&& ev is Some
            &&& ev->0@ matches TgEventView::MessageDeleted { chat_id, ids: gone }
            &&& gone == ids@.map_values(|id: i32| id as u64)
            &&& match (channel_id, chat_id) {
                (None, told) => told is None,
                (Some(id), Some(key)) => resolves(packed, key, TypingPeer::Channel, id),
                (Some(id), None) => forall|key: Seq<char>|
                    !#[trigger] resolves(packed, key, TypingPeer::Channel, id),
            }
        },
        RawUpdate::Typing { peer, id, cancelled } => match ev {
            Some(e) => {
                &&& e@ matches TgEventView::Typing { chat_id, active }
                &&& active == !cancelled
                &&& resolves(packed, chat_id, peer, id)
            },
            None => forall|key: Seq<char>| !#[trigger] resolves(packed, key, peer, id),
        },
        RawUpdate::Other => ev is None,
    }
}

// ---- Logging in ----

/// How an attempt to sign in with a code ended.
#[derive(Debug)]
pub enum SignIn {
    Done,
    /// A password is asked for; there may be a hint at it.
    PasswordRequired { hint: Option<String> },
    InvalidCode,
    SignUpRequired,
    Failed(String),
}

/// What is to be done then.
#[derive(Debug)]
pub enum LoginStep {
    Done,
    /// Ask for the password with these words.
    AskPassword(String),
    /// Give up for this reason.
    GiveUp(String),
}

/// The words with which the password is asked for.
pub open spec fn password_prompt(hint: Option<Seq<char>>) -> Seq<char> {
    if hint matches Some(h) && h.len() > 0 {
        "2FA password (hint: "@ + hint->0 + "): "@
    } else {
        "2FA password: "@
    }
}

/// Decides how to go on after an attempt to sign in.
pub fn after_sign_in(outcome: SignIn) -> (step: LoginStep)
    ensures
        match outcome {
            SignIn::Done => step is Done,
            SignIn::PasswordRequired { hint } => step matches LoginStep::AskPassword(words)
                && words@ == password_prompt(opt_text(hint)),
            SignIn::InvalidCode => step matches LoginStep::GiveUp(words) && words@
                == "invalid login code"@,
            SignIn::SignUpRequired => step matches LoginStep::GiveUp(words) && words@
                == "this phone number has no Telegram account (sign-up not supported)"@,
            SignIn::Failed(error) => step matches LoginStep::GiveUp(words) && words@
                == "sign-in failed: "@ + error@,
        },
{
    match outcome {
        SignIn::Done => LoginStep::Done,
        SignIn::PasswordRequired { hint } => {
            if let Some(h) = hint {
                if !h.as_str().is_empty() {
                    let mut words = "2FA password (hint: ".to_string();
                    words.append(h.as_str());
                    words.append("): ");
                    return LoginStep::AskPassword(words);
                }
            }
            LoginStep::AskPassword("2FA password: ".to_string())
        },
        SignIn::InvalidCode => LoginStep::GiveUp("invalid login code".to_string()),
        SignIn::SignUpRequired => LoginStep::GiveUp(
            "this phone number has no Telegram account (sign-up not supported)".to_string(),
        ),
        SignIn::Failed(error) => {
            let mut words = "sign-in failed: ".to_string();
            words.append(error.as_str());
            LoginStep::GiveUp(words)
        },
    }
}

/// The reason for giving up after a password was not taken.
pub fn password_failure(error: &str) -> (words: String)
    ensures
        words@ == "2FA failed: "@ + error@,
{
    let mut words = "2FA failed: ".to_string();
    words.append(error);
    words
}

// ---- What holds of it all ----

proof fn lemma_hex_digit(a: u8, b: u8)
    requires
        a < 16,
        b < 16,
        hex_digit(a) == hex_digit(b),
    ensures
        a == b,
{
}

/// Different bytes are written differently.
pub proof fn hex_text_is_unique(a: Seq<u8>, b: Seq<u8>)
    requires
        hex_text(a) == hex_text(b),
    ensures
        a == b,
{
    assert(hex_text(a).len() == 2 * a.len());
    assert(hex_text(b).len() == 2 * b.len());
    assert forall|i: int| 0 <= i < a.len() implies a[i] == b[i] by {
        assert(hex_text(a)[2 * i] == hex_digit(a[i] / 16));
        assert(hex_text(b)[2 * i] == hex_digit(b[i] / 16));
        assert(hex_text(a)[2 * i + 1] == hex_digit(a[i] % 16));
        assert(hex_text(b)[2 * i + 1] == hex_digit(b[i] % 16));
        lemma_hex_digit(a[i] / 16, b[i] / 16);
        lemma_hex_digit(a[i] % 16, b[i] % 16);
    }
    assert(a =~= b);
}

proof fn lemma_le_bytes(a: i64, b: i64)
    requires
        spec_u64_to_le_bytes(a as u64) == spec_u64_to_le_bytes(b as u64),
    ensures
        a == b,
{
    lemma_auto_spec_u64_to_from_le_bytes();
    let x = a as u64;
    let y = b as u64;
    assert(x == y);
    assert(a == b) by (bit_vector)
        requires
            a as u64 == b as u64,
    ;
}

/// No two peers have the same chat id.
pub proof fn chat_ids_are_unique(a: Peer, b: Peer)
    requires
        chat_id(a) == chat_id(b),
    ensures
        a == b,
{
    hex_text_is_unique(peer_bytes(a), peer_bytes(b));
    lemma_auto_spec_u64_to_from_le_bytes();
    let x = peer_bytes(a);
    let y = peer_bytes(b);
    assert(x[0] == y[0]);
    let ia = spec_u64_to_le_bytes(a.id as u64);
    let ib = spec_u64_to_le_bytes(b.id as u64);
    assert(x.subrange(1, 9) =~= ia);
    assert(y.subrange(1, 9) =~= ib);
    lemma_le_bytes(a.id, b.id);
    if let (Some(ha), Some(hb)) = (a.access_hash, b.access_hash) {
        assert(x.subrange(9, 17) =~= spec_u64_to_le_bytes(ha as u64));
        assert(y.subrange(9, 17) =~= spec_u64_to_le_bytes(hb as u64));
        lemma_le_bytes(ha, hb);
    }
}

/// No two messages store their media under the same name.
pub proof fn media_names_are_unique(a: Seq<char>, m: u64, b: Seq<char>, n: u64)
    requires
        media_name(a, m) == media_name(b, n),
    ensures
        a == b,
        m == n,
{
    let x = media_name(a, m);
    let y = media_name(b, n);
    let dm = decimal(m as nat);
    let dn = decimal(n as nat);
    lemma_decimal(m as nat);
    lemma_decimal(n as nat);
    assert(x.len() == a.len() + 1 + dm.len());
    assert(y.len() == b.len() + 1 + dn.len());
    if a.len() < b.len() {
        assert(y[b.len() as int] == '_');
        assert(x[b.len() as int] == dm[b.len() - a.len() - 1]);
    }
    if b.len() < a.len() {
        assert(x[a.len() as int] == '_');
        assert(y[a.len() as int] == dn[a.len() - b.len() - 1]);
    }
    assert(x.take(a.len() as int) =~= a);
    assert(y.take(b.len() as int) =~= b);
    assert(x.skip(a.len() as int + 1) =~= dm);
    assert(y.skip(b.len() as int + 1) =~= dn);
}

/// A message id that came from Telegram goes back unchanged.
pub proof fn message_ids_go_back_unchanged(id: i32)
    ensures
        wire_id(id as u64) == id,
{
    assert((id as u64) as i32 == id) by (bit_vector);
}

/// Every chat of the list can be asked about by the id that it is listed
/// under, and stands for the conversation that was listed.
pub proof fn listed_chats_are_known(dialogs: Seq<RawDialog>, i: int)
    requires
        0 <= i < dialogs.len(),
    ensures
        peers_of(dialogs).contains_key(chat_of(dialogs[i]).id),
        peers_of(dialogs)[chat_of(dialogs[i]).id] == dialogs[i].peer,
    decreases dialogs.len(),
{
    let last = dialogs.last().peer;
    if i < dialogs.len() - 1 {
        listed_chats_are_known(dialogs.drop_last(), i);
        if chat_id(last) == chat_id(dialogs[i].peer) {
            chat_ids_are_unique(last, dialogs[i].peer);
        }
    }
}

/// The media of every message that was taken in can be fetched.
pub proof fn seen_media_can_be_fetched<M>(
    a: ActorView<M>,
    chat_id: Seq<char>,
    raws: Seq<RawMessage<M>>,
    i: int,
)
    requires
        0 <= i < raws.len(),
        raws[i].media is Some,
    ensures
        a.caching_all(chat_id, raws).plan(
            CommandView::FetchMedia { chat_id, msg_id: message_of(raws[i]).id },
        ) == (PlanView::Download { chat_id, msg_id: message_of(raws[i]).id }),
    decreases raws.len(),
{
    if i < raws.len() - 1 {
        seen_media_can_be_fetched(a, chat_id, raws.drop_last(), i);
    }
}

/// A chat from which a message came can be asked about.
pub proof fn chats_of_messages_are_known<M>(a: ActorView<M>, p: Peer, message: RawMessage<M>)
    requires
        forall|k: Seq<char>| #[trigger] a.packed.contains_key(k) ==> chat_id(a.packed[k]) == k,
    ensures
        a.updated(RawUpdate::NewMessage { peer: p, message }).packed.contains_key(chat_id(p)),
        a.updated(RawUpdate::NewMessage { peer: p, message }).packed[chat_id(p)] == p,
        forall|k: Seq<char>|
            #[trigger] a.updated(RawUpdate::NewMessage { peer: p, message }).packed.contains_key(k)
                ==> chat_id(a.updated(RawUpdate::NewMessage { peer: p, message }).packed[k]) == k,
{
    if a.packed.contains_key(chat_id(p)) {
        chat_ids_are_unique(a.packed[chat_id(p)], p);
    }
}

/// Messages that came newest first are shown in the order of time.
pub proof fn history_is_in_order<M>(raws: Seq<RawMessage<M>>, i: int, j: int)
    requires
        forall|a: int, b: int|
            0 <= a <= b < raws.len() ==> (#[trigger] raws[a]).date >= (#[trigger] raws[b]).date,
        0 <= i <= j < raws.len(),
    ensures
        history_of(raws)[i].timestamp <= history_of(raws)[j].timestamp,
        history_of(raws).len() == raws.len(),
{
    let n = raws.len();
    assert(raws[n - 1 - j].date >= raws[n - 1 - i].date);
}

} // verus!
