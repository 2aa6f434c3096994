//! What the interface and the Telegram actor say to each other.
//!
//! The interface never calls Telegram. It puts [`Command`]s on a [`TgHandle`]
//! and is told what happened by [`TgEvent`]s.

use crate::text::{first_index, lemma_first_index_is, opt_text};
use std::path::PathBuf;
use vstd::prelude::*;

verus! {

/// A file system path, carried but never looked into.
#[verifier::external_type_specification]
#[verifier::external_body]
pub struct ExPathBuf(PathBuf);

/// `PathBuf::clone` gives back an equal path.
pub assume_specification[ <PathBuf as Clone>::clone ](p: &PathBuf) -> (r: PathBuf)
    ensures
        r == *p,
;

/// A conversation in the list on the left.
#[derive(Debug)]
pub struct Chat {
    pub id: String,
    pub name: String,
    pub username: Option<String>,
    pub last_preview: String,
    pub unread: u32,
}

/// The contents of a [`Chat`].
#[verifier::ext_equal]
pub struct ChatView {
    pub id: Seq<char>,
    pub name: Seq<char>,
    pub username: Option<Seq<char>>,
    pub last_preview: Seq<char>,
    pub unread: u32,
}

impl View for Chat {
    type V = ChatView;

    open spec fn view(&self) -> ChatView {
        ChatView {
            id: self.id@,
            name: self.name@,
            username: opt_text(self.username),
            last_preview: self.last_preview@,
            unread: self.unread,
        }
    }
}

impl Clone for Chat {
    fn clone(&self) -> (c: Self)
        ensures
            c@ == self@,
    {
        Chat {
            id: self.id.clone(),
            name: self.name.clone(),
            username: self.username.clone(),
            last_preview: self.last_preview.clone(),
            unread: self.unread,
        }
    }
}

/// What kind of media a message carries.
#[derive(Debug, Clone, Copy, PartialEq, Eq, Structural)]
pub enum MediaKind {
    Photo,
    Video,
    Document,
    Sticker,
    Other,
}

/// A message of a conversation.
#[derive(Debug)]
pub struct Message {
    pub id: u64,
    pub sender: String,
    pub text: String,
    /// When it was sent, in seconds since the Unix epoch.
    pub timestamp: i64,
    pub outgoing: bool,
    /// The message that this one answers, if any.
    pub reply_to_id: Option<u64>,
    /// Whether it has been edited.
    pub edited: bool,
    /// What is attached, if anything.
    pub media_kind: Option<MediaKind>,
    /// Where the attachment was stored, once it has been fetched.
    pub media_path: Option<PathBuf>,
}

/// The contents of a [`Message`].
#[verifier::ext_equal]
pub struct MessageView {
    pub id: u64,
    pub sender: Seq<char>,
    pub text: Seq<char>,
    pub timestamp: i64,
    pub outgoing: bool,
    pub reply_to_id: Option<u64>,
    pub edited: bool,
    pub media_kind: Option<MediaKind>,
    pub media_path: Option<PathBuf>,
}

impl View for Message {
    type V = MessageView;

    open spec fn view(&self) -> MessageView {
        MessageView {
            id: self.id,
            sender: self.sender@,
            text: self.text@,
            timestamp: self.timestamp,
            outgoing: self.outgoing,
            reply_to_id: self.reply_to_id,
            edited: self.edited,
            media_kind: self.media_kind,
            media_path: self.media_path,
        }
    }
}

impl Clone for Message {
    fn clone(&self) -> (m: Self)
        ensures
            m@ == self@,
    {
        Message {
            id: self.id,
            sender: self.sender.clone(),
            text: self.text.clone(),
            timestamp: self.timestamp,
            outgoing: self.outgoing,
            reply_to_id: self.reply_to_id,
            edited: self.edited,
            media_kind: self.media_kind,
            media_path: self.media_path.clone(),
        }
    }
}

/// The contents of a list of chats.
pub open spec fn chat_views(v: Seq<Chat>) -> Seq<ChatView> {
    v.map_values(|c: Chat| c@)
}

/// The contents of a list of messages.
pub open spec fn message_views(v: Seq<Message>) -> Seq<MessageView> {
    v.map_values(|m: Message| m@)
}

/// A copy of a list of chats.
pub fn clone_chats(v: &Vec<Chat>) -> (r: Vec<Chat>)
    ensures
        chat_views(r@) == chat_views(v@),
{
    let mut r: Vec<Chat> = Vec::new();
    let mut i: usize = 0;
    while i < v.len()
        invariant
            i <= v@.len(),
            r@.len() == i,
            forall|j: int| 0 <= j < i ==> (#[trigger] r@[j])@ == v@[j]@,
        decreases v.len() - i,
    {
        r.push(v[i].clone());
        i = i + 1;
    }
    assert(chat_views(r@) =~= chat_views(v@));
    r
}

/// A copy of a list of messages.
pub fn clone_messages(v: &Vec<Message>) -> (r: Vec<Message>)
    ensures
        message_views(r@) == message_views(v@),
{
    let mut r: Vec<Message> = Vec::new();
    let mut i: usize = 0;
    while i < v.len()
        invariant
            i <= v@.len(),
            r@.len() == i,
            forall|j: int| 0 <= j < i ==> (#[trigger] r@[j])@ == v@[j]@,
        decreases v.len() - i,
    {
        r.push(v[i].clone());
        i = i + 1;
    }
    assert(message_views(r@) =~= message_views(v@));
    r
}

/// Picks the chats with this id.
pub open spec fn chat_is(id: Seq<char>) -> spec_fn(ChatView) -> bool {
    |c: ChatView| c.id == id
}

/// Picks the messages with this id.
pub open spec fn message_is(id: u64) -> spec_fn(MessageView) -> bool {
    |m: MessageView| m.id == id
}

/// Picks the messages with none of these ids.
pub open spec fn message_not_in(ids: Seq<u64>) -> spec_fn(MessageView) -> bool {
    |m: MessageView| !ids.contains(m.id)
}

/// The index of the first chat with this id, or the length.
pub fn find_chat(chats: &Vec<Chat>, id: &String) -> (i: usize)
    ensures
        i == first_index(chat_views(chats@), chat_is(id@)),
        i <= chats@.len(),
{
    let ghost v = chat_views(chats@);
    let mut i: usize = 0;
    while i < chats.len() && chats[i].id != *id
        invariant
            v == chat_views(chats@),
            i <= chats@.len(),
            forall|j: int| 0 <= j < i ==> (#[trigger] v[j]).id != id@,
        decreases chats.len() - i,
    {
        assert(v[i as int].id == chats@[i as int].id@);
        i = i + 1;
    }
    proof {
        lemma_first_index_is(v, chat_is(id@), i as int);
    }
    i
}

/// The index of the first message with this id, or the length.
pub fn find_message(messages: &Vec<Message>, id: u64) -> (i: usize)
    ensures
        i == first_index(message_views(messages@), message_is(id)),
        i <= messages@.len(),
{
    let ghost v = message_views(messages@);
    let mut i: usize = 0;
    while i < messages.len() && messages[i].id != id
        invariant
            v == message_views(messages@),
            i <= messages@.len(),
            forall|j: int| 0 <= j < i ==> (#[trigger] v[j]).id != id,
        decreases messages.len() - i,
    {
        i = i + 1;
    }
    proof {
        lemma_first_index_is(v, message_is(id), i as int);
    }
    i
}

/// Whether `id` is among `ids`.
fn has_id(ids: &Vec<u64>, id: u64) -> (b: bool)
    ensures
        b == ids@.contains(id),
{
    let mut i: usize = 0;
    while i < ids.len()
        invariant
            i <= ids@.len(),
            forall|j: int| 0 <= j < i ==> ids@[j] != id,
        decreases ids.len() - i,
    {
        if ids[i] == id {
            return true;
        }
        i = i + 1;
    }
    false
}

/// Drops the messages with one of these ids.
pub fn drop_messages(messages: &mut Vec<Message>, ids: &Vec<u64>)
    ensures
        message_views(final(messages)@) == message_views(old(messages)@).filter(
            message_not_in(ids@),
        ),
{
    let ghost all = message_views(messages@);
    let ghost keep = message_not_in(ids@);
    let ghost mut n: int = 0;
    let mut i: usize = 0;
    proof {
        reveal(Seq::filter);
        assert(all.take(0).filter(keep) =~= Seq::<MessageView>::empty());
        assert(message_views(messages@) =~= all.take(0).filter(keep) + all.skip(0));
    }
    while i < messages.len()
        invariant
            keep == message_not_in(ids@),
            0 <= n <= all.len(),
            i == all.take(n).filter(keep).len(),
            message_views(messages@) == all.take(n).filter(keep) + all.skip(n),
        decreases messages.len() - i,
    {
        assert(n < all.len());
        assert(message_views(messages@)[i as int] == all[n]);
        proof {
            reveal(Seq::filter);
            assert(all.take(n + 1).drop_last() =~= all.take(n));
            assert(all.take(n + 1).last() == all[n]);
            assert(all.skip(n) =~= seq![all[n]] + all.skip(n + 1));
        }
        let ghost before = message_views(messages@);
        if has_id(ids, messages[i].id) {
            let gone = messages.remove(i);
            assert(message_views(messages@) =~= before.remove(i as int));
            assert(message_views(messages@) =~= all.take(n + 1).filter(keep) + all.skip(n + 1));
        } else {
            i = i + 1;
            assert(message_views(messages@) =~= all.take(n + 1).filter(keep) + all.skip(n + 1));
        }
        proof {
            n = n + 1;
        }
    }
    proof {
        assert(n == all.len());
        assert(all.take(n) =~= all);
        assert(message_views(messages@) =~= all.filter(keep));
    }
}

/// What the interface asks of the actor.
#[derive(Debug)]
pub enum Command {
    LoadChats,
    LoadMessages(String),
    /// Fetch messages older than `before_id`.
    LoadOlder { chat_id: String, before_id: u64 },
    /// Send `text`, as an answer to `reply_to` if that is given.
    Send { chat_id: String, text: String, reply_to: Option<u64> },
    Edit { chat_id: String, msg_id: u64, text: String },
    /// Download what is attached to the message and answer with
    /// [`TgEvent::MediaFetched`].
    FetchMedia { chat_id: String, msg_id: u64 },
    Delete { chat_id: String, ids: Vec<u64> },
    /// Show the others that the user is typing.
    SendTyping { chat_id: String },
    Shutdown,
}

/// The contents of a [`Command`].
#[verifier::ext_equal]
pub enum CommandView {
    LoadChats,
    LoadMessages(Seq<char>),
    LoadOlder { chat_id: Seq<char>, before_id: u64 },
    Send { chat_id: Seq<char>, text: Seq<char>, reply_to: Option<u64> },
    Edit { chat_id: Seq<char>, msg_id: u64, text: Seq<char> },
    FetchMedia { chat_id: Seq<char>, msg_id: u64 },
    Delete { chat_id: Seq<char>, ids: Seq<u64> },
    SendTyping { chat_id: Seq<char> },
    Shutdown,
}

impl View for Command {
    type V = CommandView;

    open spec fn view(&self) -> CommandView {
        match *self {
            Command::LoadChats => CommandView::LoadChats,
            Command::LoadMessages(id) => CommandView::LoadMessages(id@),
            Command::LoadOlder { chat_id, before_id } => CommandView::LoadOlder {
                chat_id: chat_id@,
                before_id,
            },
            Command::Send { chat_id, text, reply_to } => CommandView::Send {
                chat_id: chat_id@,
                text: text@,
                reply_to,
            },
            Command::Edit { chat_id, msg_id, text } => CommandView::Edit {
                chat_id: chat_id@,
                msg_id,
                text: text@,
            },
            Command::FetchMedia { chat_id, msg_id } => CommandView::FetchMedia {
                chat_id: chat_id@,
                msg_id,
            },
            Command::Delete { chat_id, ids } => CommandView::Delete {
                chat_id: chat_id@,
                ids: ids@,
            },
            Command::SendTyping { chat_id } => CommandView::SendTyping { chat_id: chat_id@ },
            Command::Shutdown => CommandView::Shutdown,
        }
    }
}

/// A copy of a list of message ids.
pub fn clone_ids(v: &Vec<u64>) -> (r: Vec<u64>)
    ensures
        r@ == v@,
{
    let mut r: Vec<u64> = Vec::new();
    let mut i: usize = 0;
    while i < v.len()
        invariant
            i <= v@.len(),
            r@ == v@.take(i as int),
        decreases v.len() - i,
    {
        r.push(v[i]);
        assert(v@.take(i + 1) =~= v@.take(i as int).push(v@[i as int]));
        i = i + 1;
    }
    assert(v@.take(v@.len() as int) =~= v@);
    r
}

impl Clone for Command {
    fn clone(&self) -> (c: Self)
        ensures
            c@ == self@,
    {
        match self {
            Command::LoadChats => Command::LoadChats,
            Command::LoadMessages(id) => Command::LoadMessages(id.clone()),
            Command::LoadOlder { chat_id, before_id } => Command::LoadOlder {
                chat_id: chat_id.clone(),
                before_id: *before_id,
            },
            Command::Send { chat_id, text, reply_to } => Command::Send {
                chat_id: chat_id.clone(),
                text: text.clone(),
                reply_to: *reply_to,
            },
            Command::Edit { chat_id, msg_id, text } => Command::Edit {
                chat_id: chat_id.clone(),
                msg_id: *msg_id,
                text: text.clone(),
            },
            Command::FetchMedia { chat_id, msg_id } => Command::FetchMedia {
                chat_id: chat_id.clone(),
                msg_id: *msg_id,
            },
            Command::Delete { chat_id, ids } => Command::Delete {
                chat_id: chat_id.clone(),
                ids: clone_ids(ids),
            },
            Command::SendTyping { chat_id } => Command::SendTyping { chat_id: chat_id.clone() },
            Command::Shutdown => Command::Shutdown,
        }
    }
}

/// What the actor tells the interface.
#[derive(Debug)]
#[allow(inconsistent_fields)]
pub enum TgEvent {
    Connected,
    Disconnected,
    Error(String),
    ChatsLoaded(Vec<Chat>),
    MessagesLoaded { chat_id: String, messages: Vec<Message> },
    /// Messages older than those on screen, oldest first; none means that the
    /// start of the history has been reached.
    OlderMessagesLoaded { chat_id: String, messages: Vec<Message> },
    MessageSent { chat_id: String },
    NewMessage { chat_id: String, message: Message },
    MessageEdited { chat_id: String, message: Message },
    /// `chat_id` is known for channels only; without it the open chat is meant.
    MessageDeleted { chat_id: Option<String>, ids: Vec<u64> },
    MediaFetched { chat_id: String, msg_id: u64, path: PathBuf },
    /// Someone is typing, or has stopped.
    Typing { chat_id: String, active: bool },
}

/// The contents of a [`TgEvent`].
#[verifier::ext_equal]
#[allow(inconsistent_fields)]
pub enum TgEventView {
    Connected,
    Disconnected,
    Error(Seq<char>),
    ChatsLoaded(Seq<ChatView>),
    MessagesLoaded { chat_id: Seq<char>, messages: Seq<MessageView> },
    OlderMessagesLoaded { chat_id: Seq<char>, messages: Seq<MessageView> },
    MessageSent { chat_id: Seq<char> },
    NewMessage { chat_id: Seq<char>, message: MessageView },
    MessageEdited { chat_id: Seq<char>, message: MessageView },
    MessageDeleted { chat_id: Option<Seq<char>>, ids: Seq<u64> },
    MediaFetched { chat_id: Seq<char>, msg_id: u64, path: PathBuf },
    Typing { chat_id: Seq<char>, active: bool },
}

impl View for TgEvent {
    type V = TgEventView;

    open spec fn view(&self) -> TgEventView {
        match *self {
            TgEvent::Connected => TgEventView::Connected,
            TgEvent::Disconnected => TgEventView::Disconnected,
            TgEvent::Error(text) => TgEventView::Error(text@),
            TgEvent::ChatsLoaded(chats) => TgEventView::ChatsLoaded(chat_views(chats@)),
            TgEvent::MessagesLoaded { chat_id, messages } => TgEventView::MessagesLoaded {
                chat_id: chat_id@,
                messages: message_views(messages@),
            },
            TgEvent::OlderMessagesLoaded { chat_id, messages } => TgEventView::OlderMessagesLoaded {
                chat_id: chat_id@,
                messages: message_views(messages@),
            },
            TgEvent::MessageSent { chat_id } => TgEventView::MessageSent { chat_id: chat_id@ },
            TgEvent::NewMessage { chat_id, message } => TgEventView::NewMessage {
                chat_id: chat_id@,
                message: message@,
            },
            TgEvent::MessageEdited { chat_id, message } => TgEventView::MessageEdited {
                chat_id: chat_id@,
                message: message@,
            },
            TgEvent::MessageDeleted { chat_id, ids } => TgEventView::MessageDeleted {
                chat_id: opt_text(chat_id),
                ids: ids@,
            },
            TgEvent::MediaFetched { chat_id, msg_id, path } => TgEventView::MediaFetched {
                chat_id: chat_id@,
                msg_id,
                path,
            },
            TgEvent::Typing { chat_id, active } => TgEventView::Typing {
                chat_id: chat_id@,
                active,
            },
        }
    }
}

impl Clone for TgEvent {
    fn clone(&self) -> (e: Self)
        ensures
            e@ == self@,
    {
        match self {
            TgEvent::Connected => TgEvent::Connected,
            TgEvent::Disconnected => TgEvent::Disconnected,
            TgEvent::Error(text) => TgEvent::Error(text.clone()),
            TgEvent::ChatsLoaded(chats) => TgEvent::ChatsLoaded(clone_chats(chats)),
            TgEvent::MessagesLoaded { chat_id, messages } => TgEvent::MessagesLoaded {
                chat_id: chat_id.clone(),
                messages: clone_messages(messages),
            },
            TgEvent::OlderMessagesLoaded { chat_id, messages } => TgEvent::OlderMessagesLoaded {
                chat_id: chat_id.clone(),
                messages: clone_messages(messages),
            },
            TgEvent::MessageSent { chat_id } => TgEvent::MessageSent { chat_id: chat_id.clone() },
            TgEvent::NewMessage { chat_id, message } => TgEvent::NewMessage {
                chat_id: chat_id.clone(),
                message: message.clone(),
            },
            TgEvent::MessageEdited { chat_id, message } => TgEvent::MessageEdited {
                chat_id: chat_id.clone(),
                message: message.clone(),
            },
            TgEvent::MessageDeleted { chat_id, ids } => TgEvent::MessageDeleted {
                chat_id: chat_id.clone(),
                ids: clone_ids(ids),
            },
            TgEvent::MediaFetched { chat_id, msg_id, path } => TgEvent::MediaFetched {
                chat_id: chat_id.clone(),
                msg_id: *msg_id,
                path: path.clone(),
            },
            TgEvent::Typing { chat_id, active } => TgEvent::Typing {
                chat_id: chat_id.clone(),
                active: *active,
            },
        }
    }
}

/// The contents of a list of commands.
pub open spec fn command_views(v: Seq<Command>) -> Seq<CommandView> {
    v.map_values(|c: Command| c@)
}

/// The contents of a list of events.
pub open spec fn event_views(v: Seq<TgEvent>) -> Seq<TgEventView> {
    v.map_values(|e: TgEvent| e@)
}

/// The interface's end of the line to the actor: the commands that have been
/// sent and not yet been handed over, oldest first.
#[derive(Debug)]
pub struct TgHandle {
    queue: Vec<Command>,
}

impl View for TgHandle {
    type V = Seq<CommandView>;

    closed spec fn view(&self) -> Seq<CommandView> {
        command_views(self.queue@)
    }
}

/// All commands are told, in order.
proof fn lemma_handle_is_told(h: TgHandle, i: int)
    ensures
        h@.len() == h.queue@.len(),
        0 <= i < h.queue@.len() ==> h@[i] == h.queue@[i]@,
{
}

impl TgHandle {
    /// A line with nothing sent.
    pub fn new() -> (h: Self)
        ensures
            h@ == Seq::<CommandView>::empty(),
    {
        let h = TgHandle { queue: Vec::new() };
        assert(h@ =~= Seq::<CommandView>::empty());
        h
    }

    /// Sends a command.
    pub fn send(&mut self, c: Command)
        ensures
            final(self)@ == old(self)@.push(c@),
    {
        self.queue.push(c);
        assert(self@ =~= old(self)@.push(c@));
    }

    /// Hands over what was sent.
    pub fn take(&mut self) -> (sent: Vec<Command>)
        ensures
            command_views(sent@) == old(self)@,
            final(self)@ == Seq::<CommandView>::empty(),
    {
        let mut sent: Vec<Command> = Vec::new();
        std::mem::swap(&mut sent, &mut self.queue);
        assert(self@ =~= Seq::<CommandView>::empty());
        sent
    }
}

} // verus!
