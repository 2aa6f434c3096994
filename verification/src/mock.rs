//! An actor without Telegram: ten chats made up in memory.

use crate::telegram::{
    chat_is, chat_views, clone_chats, clone_messages, drop_messages, event_views, find_chat,
    find_message, message_is, message_not_in, message_views, Chat, ChatView, Command, CommandView,
    Message, MessageView, TgEvent, TgEventView,
};
use crate::text::{decimal, decimal_of, first_index, first_line, first_line_of, lemma_first_index};
use crate::textmap::TextMap;
use vstd::prelude::*;

verus! {

/// The chats and messages of the made-up actor.
pub struct MockState {
    chats: Vec<Chat>,
    msgs: TextMap<Vec<Message>>,
    next_id: u64,
}

/// The contents of a [`MockState`].
#[verifier::ext_equal]
pub struct MockView {
    pub chats: Seq<ChatView>,
    pub msgs: Map<Seq<char>, Seq<MessageView>>,
    pub next_id: u64,
}

/// The contents of lists of messages.
pub open spec fn list_views(m: Map<Seq<char>, Vec<Message>>) -> Map<Seq<char>, Seq<MessageView>> {
    m.map_values(|list: Vec<Message>| message_views(list@))
}

impl View for MockState {
    type V = MockView;

    closed spec fn view(&self) -> MockView {
        MockView {
            chats: chat_views(self.chats@),
            msgs: list_views(self.msgs@),
            next_id: self.next_id,
        }
    }
}

/// All that there is to the made-up actor.
proof fn lemma_mock_is_told(s: MockState, i: int, k: Seq<char>)
    ensures
        s@.next_id == s.next_id,
        s@.chats.len() == s.chats@.len(),
        0 <= i < s.chats@.len() ==> s@.chats[i] == s.chats@[i]@,
        s@.msgs.contains_key(k) <==> s.msgs@.contains_key(k),
        s.msgs@.contains_key(k) ==> s@.msgs[k] == message_views(s.msgs@[k]@),
{
}

/// The id, name, user name and preview of every chat.
pub open spec fn samples() -> Seq<(Seq<char>, Seq<char>, Option<Seq<char>>, Seq<char>)> {
    seq![
        ("1"@, "Alice"@, Some("alice"@), "see you at 5"@),
        ("2"@, "Bob"@, Some("bobby"@), "looks good 🚀"@),
        ("3"@, "Rust Lang"@, None, "new 1.85 released"@),
        ("4"@, "Helix Editors"@, None, "modal editing is life"@),
        ("5"@, "Ghostty Users"@, None, "kitty graphics working"@),
        ("6"@, "Family"@, None, "dinner tomorrow?"@),
        ("7"@, "Mom"@, Some("mom"@), "call me when free"@),
        ("8"@, "Work Ops"@, None, "deploy postponed"@),
        ("9"@, "Neovim"@, None, "lua plugin ecosystem"@),
        ("10"@, "Saved Messages"@, None, "notes to self"@),
    ]
}

/// How many messages every chat begins with.
pub const HISTORY: u64 = 25;

/// The message of a chat with id `i`: every third is the user's own, every
/// fifth answers the one before, every seventh was edited, and they came a
/// minute apart, the last one a minute ago.
pub open spec fn sample_message(name: Seq<char>, preview: Seq<char>, now: i64, i: u64) -> MessageView {
    MessageView {
        id: i,
        sender: if i % 3 == 0 {
            "me"@
        } else {
            name
        },
        text: preview + " — message "@ + decimal(i as nat),
        timestamp: (now - (HISTORY - i) * 60) as i64,
        outgoing: i % 3 == 0,
        reply_to_id: if i > 0 && i % 5 == 0 {
            Some((i - 1) as u64)
        } else {
            None
        },
        edited: i % 7 == 0,
        media_kind: None,
        media_path: None,
    }
}

/// The messages that a chat begins with.
pub open spec fn sample_messages(name: Seq<char>, preview: Seq<char>, now: i64) -> Seq<MessageView> {
    Seq::new(HISTORY as nat, |i: int| sample_message(name, preview, now, i as u64))
}

/// The chat of a sample.
pub open spec fn sample_chat(
    s: (Seq<char>, Seq<char>, Option<Seq<char>>, Seq<char>),
) -> ChatView {
    ChatView { id: s.0, name: s.1, username: s.2, last_preview: s.3, unread: 0 }
}

impl MockView {
    /// The first `n` chats.
    pub open spec fn seeded(now: i64, n: int) -> MockView
        decreases n,
    {
        if n <= 0 {
            MockView { chats: Seq::empty(), msgs: Map::empty(), next_id: 1000 }
        } else {
            let m = MockView::seeded(now, n - 1);
            let s = samples()[n - 1];
            MockView {
                chats: m.chats.push(sample_chat(s)),
                msgs: m.msgs.insert(s.0, sample_messages(s.1, s.3, now)),
                ..m
            }
        }
    }

    /// The messages of a chat; none for an unknown one.
    pub open spec fn messages(self, chat_id: Seq<char>) -> Seq<MessageView> {
        if self.msgs.contains_key(chat_id) {
            self.msgs[chat_id]
        } else {
            Seq::empty()
        }
    }

    /// With a message of the user's own at the end of a chat.
    pub open spec fn inserted(self, chat_id: Seq<char>, text: Seq<char>, now: i64) -> MockView {
        let id = (self.next_id + 1) as u64;
        let message = MessageView {
            id,
            sender: "me"@,
            text,
            timestamp: now,
            outgoing: true,
            reply_to_id: None,
            edited: false,
            media_kind: None,
            media_path: None,
        };
        let at = first_index(self.chats, chat_is(chat_id));
        MockView {
            chats: if at < self.chats.len() {
                self.chats.update(
                    at,
                    ChatView { last_preview: first_line(text), ..self.chats[at] },
                )
            } else {
                self.chats
            },
            msgs: self.msgs.insert(chat_id, self.messages(chat_id).push(message)),
            next_id: id,
        }
    }

    /// The event that shows a chat.
    pub open spec fn shown(self, chat_id: Seq<char>) -> TgEventView {
        TgEventView::MessagesLoaded { chat_id, messages: self.messages(chat_id) }
    }

    /// The state after a command.
    pub open spec fn after(self, c: CommandView, now: i64) -> MockView {
        match c {
            CommandView::Send { chat_id, text, reply_to } => self.inserted(chat_id, text, now),
            CommandView::Delete { chat_id, ids } => if self.msgs.contains_key(chat_id) {
                MockView {
                    msgs: self.msgs.insert(
                        chat_id,
                        self.msgs[chat_id].filter(message_not_in(ids)),
                    ),
                    ..self
                }
            } else {
                self
            },
            CommandView::Edit { chat_id, msg_id, text } => {
                let at = first_index(self.messages(chat_id), message_is(msg_id));
                if self.msgs.contains_key(chat_id) && at < self.msgs[chat_id].len() {
                    MockView {
                        msgs: self.msgs.insert(
                            chat_id,
                            self.msgs[chat_id].update(
                                at,
                                MessageView { text, ..self.msgs[chat_id][at] },
                            ),
                        ),
                        ..self
                    }
                } else {
                    self
                }
            },
            _ => self,
        }
    }

    /// What is answered to a command.
    pub open spec fn answers(self, c: CommandView, now: i64) -> Seq<TgEventView> {
        let after = self.after(c, now);
        match c {
            CommandView::LoadChats => seq![TgEventView::ChatsLoaded(self.chats)],
            CommandView::LoadMessages(id) => seq![self.shown(id)],
            CommandView::LoadOlder { chat_id, before_id } => seq![
                TgEventView::OlderMessagesLoaded { chat_id, messages: Seq::empty() },
            ],
            CommandView::Send { chat_id, text, reply_to } => seq![
                after.shown(chat_id),
                TgEventView::ChatsLoaded(after.chats),
                TgEventView::MessageSent { chat_id },
            ],
            CommandView::FetchMedia { chat_id, msg_id } => seq![
                TgEventView::Error("mock backend has no media to fetch"@),
            ],
            CommandView::Delete { chat_id, ids } => seq![
                after.shown(chat_id),
                TgEventView::ChatsLoaded(after.chats),
            ],
            CommandView::Edit { chat_id, msg_id, text } => seq![after.shown(chat_id)],
            CommandView::SendTyping { chat_id } => Seq::empty(),
            CommandView::Shutdown => Seq::empty(),
        }
    }
}

fn sample(id: &str, name: &str, username: Option<&str>, preview: &str) -> (c: Chat)
    ensures
        c@ == sample_chat(
            (
                id@,
                name@,
                match username {
                    Some(u) => Some(u@),
                    None => None,
                },
                preview@,
            ),
        ),
{
    Chat {
        id: id.to_string(),
        name: name.to_string(),
        username: match username {
            Some(u) => Some(u.to_string()),
            None => None,
        },
        last_preview: preview.to_string(),
        unread: 0,
    }
}

fn sample_chats() -> (chats: Vec<Chat>)
    ensures
        chats@.len() == samples().len(),
        forall|i: int| 0 <= i < chats@.len() ==> (#[trigger] chats@[i])@ == sample_chat(samples()[i]),
{
    vec![
        sample("1", "Alice", Some("alice"), "see you at 5"),
        sample("2", "Bob", Some("bobby"), "looks good 🚀"),
        sample("3", "Rust Lang", None, "new 1.85 released"),
        sample("4", "Helix Editors", None, "modal editing is life"),
        sample("5", "Ghostty Users", None, "kitty graphics working"),
        sample("6", "Family", None, "dinner tomorrow?"),
        sample("7", "Mom", Some("mom"), "call me when free"),
        sample("8", "Work Ops", None, "deploy postponed"),
        sample("9", "Neovim", None, "lua plugin ecosystem"),
        sample("10", "Saved Messages", None, "notes to self"),
    ]
}

fn sample_history(name: &str, preview: &str, now: i64) -> (list: Vec<Message>)
    requires
        now >= i64::MIN + 1500,
    ensures
        message_views(list@) == sample_messages(name@, preview@, now),
{
    let mut list: Vec<Message> = Vec::new();
    let mut i: u64 = 0;
    while i < HISTORY
        invariant
            now >= i64::MIN + 1500,
            i <= HISTORY,
            list@.len() == i,
            forall|j: int|
                0 <= j < i ==> (#[trigger] list@[j])@ == sample_message(
                    name@,
                    preview@,
                    now,
                    j as u64,
                ),
        decreases HISTORY - i,
    {
        let mut text = preview.to_string();
        text.append(" — message ");
        text.append(decimal_of(i).as_str());
        let m = Message {
            id: i,
            sender: if i % 3 == 0 {
                "me".to_string()
            } else {
                name.to_string()
            },
            text,
            timestamp: now - ((HISTORY - i) * 60) as i64,
            outgoing: i % 3 == 0,
            reply_to_id: if i > 0 && i % 5 == 0 {
                Some(i - 1)
            } else {
                None
            },
            edited: i % 7 == 0,
            media_kind: None,
            media_path: None,
        };
        list.push(m);
        i = i + 1;
    }
    assert(message_views(list@) =~= sample_messages(name@, preview@, now));
    list
}

/// Putting a list in puts its contents in.
proof fn lemma_list_inserted(m: Map<Seq<char>, Vec<Message>>, k: Seq<char>, v: Vec<Message>)
    ensures
        list_views(m.insert(k, v)) == list_views(m).insert(k, message_views(v@)),
        list_views(m.remove(k)).insert(k, message_views(v@)) == list_views(m).insert(
            k,
            message_views(v@),
        ),
{
    assert(list_views(m.insert(k, v)) =~= list_views(m).insert(k, message_views(v@)));
    assert(list_views(m.remove(k)).insert(k, message_views(v@)) =~= list_views(m).insert(
        k,
        message_views(v@),
    ));
}

impl MockState {
    /// Ten chats with twenty-five messages each. `now` is in seconds.
    pub fn seed(now: i64) -> (s: Self)
        requires
            now >= i64::MIN + 1500,
        ensures
            s@ == MockView::seeded(now, samples().len() as int),
    {
        let chats = sample_chats();
        let mut msgs: TextMap<Vec<Message>> = TextMap::new();
        let mut i: usize = 0;
        assert(list_views(msgs@) =~= Map::<Seq<char>, Seq<MessageView>>::empty());
        assert(chat_views(chats@).take(0) =~= Seq::<ChatView>::empty());
        while i < chats.len()
            invariant
                now >= i64::MIN + 1500,
                i <= chats@.len() == samples().len(),
                forall|j: int|
                    0 <= j < chats@.len() ==> (#[trigger] chats@[j])@ == sample_chat(samples()[j]),
                chat_views(chats@).take(i as int) == MockView::seeded(now, i as int).chats,
                list_views(msgs@) == MockView::seeded(now, i as int).msgs,
                MockView::seeded(now, i as int).next_id == 1000,
            decreases chats.len() - i,
        {
            let c = &chats[i];
            let list = sample_history(c.name.as_str(), c.last_preview.as_str(), now);
            proof {
                lemma_list_inserted(msgs@, c.id@, list);
                let v = chat_views(chats@);
                assert(v.take(i + 1) =~= v.take(i as int).push(v[i as int]));
                assert(c@ == sample_chat(samples()[i as int]));
            }
            msgs.insert(c.id.clone(), list);
            i = i + 1;
        }
        assert(chat_views(chats@).take(chats@.len() as int) =~= chat_views(chats@));
        MockState { chats, msgs, next_id: 1000 }
    }

    /// Whether there is an id left for another message.
    pub fn can_send(&self) -> (b: bool)
        ensures
            b <==> self@.next_id < u64::MAX,
    {
        self.next_id < u64::MAX
    }

    /// The messages of a chat.
    fn messages_of(&self, chat_id: &String) -> (list: Vec<Message>)
        ensures
            message_views(list@) == self@.messages(chat_id@),
    {
        match self.msgs.get(chat_id) {
            Some(list) => clone_messages(list),
            None => {
                let list: Vec<Message> = Vec::new();
                assert(message_views(list@) =~= Seq::<MessageView>::empty());
                list
            },
        }
    }

    /// Puts a message of the user's own at the end of a chat.
    fn insert(&mut self, chat_id: &String, text: &String, now: i64)
        requires
            old(self)@.next_id < u64::MAX,
        ensures
            final(self)@ == old(self)@.inserted(chat_id@, text@, now),
    {
        self.next_id = self.next_id + 1;
        let m = Message {
            id: self.next_id,
            sender: "me".to_string(),
            text: text.clone(),
            timestamp: now,
            outgoing: true,
            reply_to_id: None,
            edited: false,
            media_kind: None,
            media_path: None,
        };
        let mut list = self.messages_of(chat_id);
        let ghost before = message_views(list@);
        list.push(m);
        proof {
            assert(message_views(list@) =~= before.push(m@));
            lemma_list_inserted(self.msgs@, chat_id@, list);
        }
        self.msgs.insert(chat_id.clone(), list);
        let at = find_chat(&self.chats, chat_id);
        if at < self.chats.len() {
            let ghost before = chat_views(self.chats@);
            self.chats[at].last_preview = first_line_of(text.as_str());
            assert(chat_views(self.chats@) =~= before.update(
                at as int,
                ChatView { last_preview: first_line(text@), ..before[at as int] },
            ));
        }
    }

    /// The event that shows a chat.
    fn show(&self, chat_id: &String) -> (e: TgEvent)
        ensures
            e@ == self@.shown(chat_id@),
    {
        TgEvent::MessagesLoaded { chat_id: chat_id.clone(), messages: self.messages_of(chat_id) }
    }

    /// Carries a command out and answers it. The second result tells whether
    /// the actor is to stop.
    pub fn handle(&mut self, c: Command, now: i64) -> (r: (Vec<TgEvent>, bool))
        requires
            c is Send ==> old(self)@.next_id < u64::MAX,
        ensures
            final(self)@ == old(self)@.after(c@, now),
            event_views(r.0@) == old(self)@.answers(c@, now),
            r.1 <==> c is Shutdown,
    {
        let mut out: Vec<TgEvent> = Vec::new();
        let mut stop = false;
        match &c {
            Command::LoadChats => {
                out.push(TgEvent::ChatsLoaded(clone_chats(&self.chats)));
            },
            Command::LoadMessages(id) => {
                out.push(self.show(id));
            },
            Command::LoadOlder { chat_id, before_id: _ } => {
                let none: Vec<Message> = Vec::new();
                assert(message_views(none@) =~= Seq::<MessageView>::empty());
                out.push(
                    TgEvent::OlderMessagesLoaded { chat_id: chat_id.clone(), messages: none },
                );
            },
            Command::Send { chat_id, text, reply_to: _ } => {
                self.insert(chat_id, text, now);
                out.push(self.show(chat_id));
                out.push(TgEvent::ChatsLoaded(clone_chats(&self.chats)));
                out.push(TgEvent::MessageSent { chat_id: chat_id.clone() });
            },
            Command::FetchMedia { chat_id: _, msg_id: _ } => {
                out.push(TgEvent::Error("mock backend has no media to fetch".to_string()));
            },
            Command::SendTyping { chat_id: _ } => {},
            Command::Delete { chat_id, ids } => {
                if self.msgs.contains(chat_id) {
                    let mut list = self.messages_of(chat_id);
                    drop_messages(&mut list, ids);
                    proof {
                        lemma_list_inserted(self.msgs@, chat_id@, list);
                    }
                    self.msgs.insert(chat_id.clone(), list);
                }
                out.push(self.show(chat_id));
                out.push(TgEvent::ChatsLoaded(clone_chats(&self.chats)));
            },
            Command::Edit { chat_id, msg_id, text } => {
                self.edit(chat_id, *msg_id, text);
                out.push(self.show(chat_id));
            },
            Command::Shutdown => {
                stop = true;
            },
        }
        assert(event_views(out@) =~= old(self)@.answers(c@, now));
        (out, stop)
    }

    /// Gives the first message with this id another text.
    fn edit(&mut self, chat_id: &String, msg_id: u64, text: &String)
        ensures
            final(self)@ == old(self)@.after(
                CommandView::Edit { chat_id: chat_id@, msg_id, text: text@ },
                0,
            ),
    {
        if !self.msgs.contains(chat_id) {
            return;
        }
        let mut list = self.messages_of(chat_id);
        let at = find_message(&list, msg_id);
        if at < list.len() {
            let ghost before = message_views(list@);
            list[at].text = text.clone();
            proof {
                assert(message_views(list@) =~= before.update(
                    at as int,
                    MessageView { text: text@, ..before[at as int] },
                ));
                lemma_list_inserted(self.msgs@, chat_id@, list);
            }
            self.msgs.insert(chat_id.clone(), list);
        }
    }
}

impl MockView {
    /// No message has an id that is still to be given.
    pub open spec fn ids_used(self) -> bool {
        forall|k: Seq<char>, i: int|
            self.msgs.contains_key(k) && 0 <= i < self.msgs[k].len() ==> (#[trigger] self.msgs[k][i]).id
                <= self.next_id
    }
}

/// At the start no message has an id that is still to be given.
pub proof fn seeded_ids_are_used(now: i64, n: int)
    requires
        n <= samples().len(),
    ensures
        MockView::seeded(now, n).ids_used(),
        MockView::seeded(now, n).next_id == 1000,
    decreases n,
{
    if n > 0 {
        seeded_ids_are_used(now, n - 1);
    }
}

/// No command makes a message whose id is still to be given.
pub proof fn commands_keep_ids_used(m: MockView, c: CommandView, now: i64)
    requires
        m.ids_used(),
        m.next_id < u64::MAX,
    ensures
        m.after(c, now).ids_used(),
{
    let a = m.after(c, now);
    assert forall|k: Seq<char>, i: int|
        a.msgs.contains_key(k) && 0 <= i < a.msgs[k].len() implies (#[trigger] a.msgs[k][i]).id
        <= a.next_id by {
        match c {
            CommandView::Send { chat_id, text, reply_to } => {
                if k == chat_id && i < m.messages(chat_id).len() {
                    assert(a.msgs[k][i] == m.msgs[k][i]);
                } else if k != chat_id {
                    assert(a.msgs[k][i] == m.msgs[k][i]);
                }
            },
            CommandView::Delete { chat_id, ids } => {
                if k == chat_id && m.msgs.contains_key(chat_id) {
                    let list = m.msgs[k];
                    list.lemma_filter_contains_rev(message_not_in(ids), a.msgs[k][i]);
                    let j = choose|j: int| 0 <= j < list.len() && list[j] == a.msgs[k][i];
                    assert(m.msgs[k][j].id <= m.next_id);
                } else {
                    assert(a.msgs[k][i] == m.msgs[k][i]);
                }
            },
            CommandView::Edit { chat_id, msg_id, text } => {
                lemma_first_index(m.messages(chat_id), message_is(msg_id));
                assert(a.msgs[k][i].id == m.msgs[k][i].id);
            },
            _ => {
                assert(a.msgs[k][i] == m.msgs[k][i]);
            },
        }
    }
}

/// A message that is sent gets an id that no other message has.
pub proof fn sent_ids_are_new(
    m: MockView,
    chat_id: Seq<char>,
    text: Seq<char>,
    now: i64,
    k: Seq<char>,
    i: int,
)
    requires
        m.ids_used(),
        m.next_id < u64::MAX,
        m.msgs.contains_key(k),
        0 <= i < m.msgs[k].len(),
    ensures
        m.inserted(chat_id, text, now).messages(chat_id).last().id != m.msgs[k][i].id,
{
}

/// A message that is sent is answered with the messages of its chat, the new
/// one at the end, and it then gives the preview of the chat.
pub proof fn sent_messages_come_back(
    m: MockView,
    chat_id: Seq<char>,
    text: Seq<char>,
    reply_to: Option<u64>,
    now: i64,
    at: int,
)
    requires
        m.next_id < u64::MAX,
        0 <= at < m.chats.len(),
        at == first_index(m.chats, chat_is(chat_id)),
    ensures
        ({
            let c = CommandView::Send { chat_id, text, reply_to };
            let shown = m.after(c, now).messages(chat_id);
            &&& m.answers(c, now)[0] == TgEventView::MessagesLoaded { chat_id, messages: shown }
            &&& shown.drop_last() == m.messages(chat_id)
            &&& shown.last().text == text
            &&& shown.last().outgoing
            &&& m.after(c, now).chats[at].last_preview == first_line(text)
        }),
{
    let list = m.messages(chat_id);
    let shown = m.inserted(chat_id, text, now).messages(chat_id);
    assert(shown.drop_last() =~= list);
}

/// The ids of the chats differ.
proof fn lemma_sample_ids(i: int, j: int)
    requires
        0 <= i < j < samples().len(),
    ensures
        samples()[i].0 != samples()[j].0,
{
    reveal_strlit("1");
    reveal_strlit("2");
    reveal_strlit("3");
    reveal_strlit("4");
    reveal_strlit("5");
    reveal_strlit("6");
    reveal_strlit("7");
    reveal_strlit("8");
    reveal_strlit("9");
    reveal_strlit("10");
    let a = samples()[i].0;
    let b = samples()[j].0;
    assert(a.len() == 1);
    assert(b.len() == 2 || a[0] != b[0]);
}

proof fn lemma_sample_kept(now: i64, n: int, i: int)
    requires
        0 <= i < n <= samples().len(),
    ensures
        MockView::seeded(now, n).msgs.contains_key(samples()[i].0),
        MockView::seeded(now, n).msgs[samples()[i].0] == sample_messages(
            samples()[i].1,
            samples()[i].3,
            now,
        ),
        MockView::seeded(now, n).chats.len() == n,
        MockView::seeded(now, n).chats[i] == sample_chat(samples()[i]),
    decreases n,
{
    if i < n - 1 {
        lemma_sample_kept(now, n - 1, i);
        lemma_sample_ids(i, n - 1);
    } else if n > 1 {
        lemma_sample_kept(now, n - 1, 0);
    } else {
        reveal_with_fuel(MockView::seeded, 2);
    }
}

/// Every chat is there at the start, with all of its messages.
pub proof fn every_sample_is_seeded(now: i64, i: int)
    requires
        0 <= i < samples().len(),
    ensures
        ({
            let m = MockView::seeded(now, samples().len() as int);
            &&& m.chats.len() == samples().len()
            &&& m.chats[i] == sample_chat(samples()[i])
            &&& m.messages(samples()[i].0) == sample_messages(samples()[i].1, samples()[i].3, now)
        }),
{
    lemma_sample_kept(now, samples().len() as int, i);
}

} // verus!
