//! The program's state, and what changes it.
//!
//! The state is told what happens by [`App::on_key`], [`App::on_tick`] and
//! [`App::apply_event`]. It answers with commands for the actor, on its
//! [`TgHandle`], and with tasks for the outside, on its task list. Times are
//! nanoseconds of a clock that never goes back.

use crate::fuzzy::{FuzzyPicker, FuzzyTarget};
use crate::input::{after_key, drawable, drawn, on_show, Composer, KeyEvent};
use crate::keymap::dispatch;
use crate::laws::{
    events_keep_cursors_in_range, events_keep_it_settled, keys_keep_cursors_in_range,
    keys_keep_it_settled,
};
use crate::model::{chat_row, last_index, message_row, AppModel, ReplyView, TaskView};
use crate::model::{TYPING_INTERVAL, TYPING_SHOWN};
use crate::telegram::{
    chat_views, drop_messages, find_chat, find_message, message_views, Chat, ChatView, Command,
    MediaKind, Message, MessageView, TgEvent, TgEventView, TgHandle,
};
use crate::text::{
    clone_texts, decimal_of, first_chars, first_line_of, is_blank, join_lines_of,
    lines_of, opt_text, texts,
};
use crate::textmap::TextMap;
use ratatui::buffer::Buffer;
use ratatui::style::Style;
use std::path::PathBuf;
use vstd::prelude::*;

verus! {

/// What the keys do.
#[derive(Debug, Clone, Copy, PartialEq, Eq, Structural)]
pub enum Mode {
    Normal,
    Insert,
    Search,
    Help,
}

impl Mode {
    /// The name on the status line.
    pub open spec fn name(self) -> Seq<char> {
        match self {
            Mode::Normal => " NORMAL "@,
            Mode::Insert => " INSERT "@,
            Mode::Search => " SEARCH "@,
            Mode::Help => " HELP "@,
        }
    }

    /// The name on the status line.
    pub fn label(&self) -> (t: &'static str)
        ensures
            t@ == self.name(),
    {
        match self {
            Mode::Normal => " NORMAL ",
            Mode::Insert => " INSERT ",
            Mode::Search => " SEARCH ",
            Mode::Help => " HELP ",
        }
    }
}

/// The pane that the keys act on.
#[derive(Debug, Clone, Copy, PartialEq, Eq, Structural)]
pub enum Focus {
    ChatList,
    Messages,
    Input,
}

impl Focus {
    /// The pane after this one.
    pub open spec fn next(self) -> Focus {
        match self {
            Focus::ChatList => Focus::Messages,
            Focus::Messages => Focus::Input,
            Focus::Input => Focus::ChatList,
        }
    }

    /// The pane after this one.
    pub fn cycle(self) -> (f: Self)
        ensures
            f == self.next(),
    {
        match self {
            Focus::ChatList => Focus::Messages,
            Focus::Messages => Focus::Input,
            Focus::Input => Focus::ChatList,
        }
    }
}

/// The message of the user's own that is being edited.
#[derive(Debug, Clone, Copy, PartialEq, Eq, Structural)]
pub struct EditTarget {
    pub msg_id: u64,
}

/// The message that is being answered, with what the banner shows of it.
#[derive(Debug)]
pub struct ReplyTarget {
    pub msg_id: u64,
    pub sender: String,
    pub preview: String,
}

impl View for ReplyTarget {
    type V = ReplyView;

    open spec fn view(&self) -> ReplyView {
        ReplyView { msg_id: self.msg_id, sender: self.sender@, preview: self.preview@ }
    }
}

impl Clone for ReplyTarget {
    fn clone(&self) -> (r: Self)
        ensures
            r@ == self@,
    {
        ReplyTarget {
            msg_id: self.msg_id,
            sender: self.sender.clone(),
            preview: self.preview.clone(),
        }
    }
}

/// The image on show. The decoded picture is kept by whoever draws it.
#[derive(Debug)]
pub struct ImageViewer {
    pub path: PathBuf,
}

/// Something to be done with a downloaded file, outside of the program.
#[derive(Debug)]
pub enum MediaTask {
    /// Decode an image, and report with [`App::image_opened`] or
    /// [`App::image_failed`].
    OpenImage(PathBuf),
    /// Start a program, the first of `argv` with the rest as arguments and
    /// the file behind them, and report with [`App::video_launched`] or
    /// [`App::video_failed`].
    PlayVideo { argv: Vec<String>, path: PathBuf },
}

impl View for MediaTask {
    type V = TaskView;

    open spec fn view(&self) -> TaskView {
        match *self {
            MediaTask::OpenImage(path) => TaskView::OpenImage(path),
            MediaTask::PlayVideo { argv, path } => TaskView::PlayVideo { argv: texts(argv@), path },
        }
    }
}

/// The contents of a list of tasks.
pub open spec fn task_views(v: Seq<MediaTask>) -> Seq<TaskView> {
    v.map_values(|t: MediaTask| t@)
}

/// The contents of the drafts.
pub open spec fn draft_texts(m: Map<Seq<char>, Vec<String>>) -> Map<Seq<char>, Seq<Seq<char>>> {
    m.map_values(|lines: Vec<String>| texts(lines@))
}

/// The state of the program.
pub struct App {
    pub should_quit: bool,
    pub mode: Mode,
    pub focus: Focus,
    pub tg: TgHandle,
    pub chats: Vec<Chat>,
    pub chat_cursor: usize,
    pub messages: Vec<Message>,
    pub msg_cursor: usize,
    pub input: Composer,
    /// The first key of a sequence of two.
    pub pending_key: Option<char>,
    pub fuzzy: Option<FuzzyPicker>,
    pub status: String,
    pub replying_to: Option<ReplyTarget>,
    pub editing: Option<EditTarget>,
    pub image_viewer: Option<ImageViewer>,
    /// The message whose media will be opened as soon as it has been fetched.
    pub pending_view: Option<(String, u64)>,
    /// The program that plays videos, with its arguments.
    pub player_argv: Vec<String>,
    /// What is to be done outside, oldest first.
    pub tasks: Vec<MediaTask>,
    /// Whether older messages have been asked for and not yet come.
    pub loading_older: bool,
    /// What was in the composer of each chat when it was left.
    pub drafts: TextMap<Vec<String>>,
    /// Until when a chat is shown as typing.
    pub typing_until: TextMap<u64>,
    /// When the others were last told that the user is typing.
    pub last_typing_sent: Option<u64>,
}

impl View for App {
    type V = AppModel;

    open spec fn view(&self) -> AppModel {
        AppModel {
            should_quit: self.should_quit,
            mode: self.mode,
            focus: self.focus,
            sent: self.tg@,
            chats: chat_views(self.chats@),
            chat_cursor: self.chat_cursor as int,
            messages: message_views(self.messages@),
            msg_cursor: self.msg_cursor as int,
            input: self.input@,
            pending_key: self.pending_key,
            fuzzy: match self.fuzzy {
                Some(p) => Some(p@),
                None => None,
            },
            status: self.status@,
            replying_to: match self.replying_to {
                Some(r) => Some(r@),
                None => None,
            },
            editing: self.editing,
            image_viewer: match self.image_viewer {
                Some(v) => Some(v.path),
                None => None,
            },
            pending_view: match self.pending_view {
                Some(p) => Some((p.0@, p.1)),
                None => None,
            },
            player_argv: texts(self.player_argv@),
            tasks: task_views(self.tasks@),
            loading_older: self.loading_older,
            drafts: draft_texts(self.drafts@),
            typing_until: self.typing_until@,
            last_typing_sent: self.last_typing_sent,
        }
    }
}

impl App {
    /// The state at the start. The chats are asked for at once.
    pub fn new(tg: TgHandle, player_argv: Vec<String>) -> (app: Self)
        ensures
            app@ == AppModel::started(tg@, texts(player_argv@)),
    {
        let mut app = App {
            should_quit: false,
            mode: Mode::Normal,
            focus: Focus::ChatList,
            tg,
            chats: Vec::new(),
            chat_cursor: 0,
            messages: Vec::new(),
            msg_cursor: 0,
            input: Composer::empty(),
            pending_key: None,
            fuzzy: None,
            status: "Connecting…".to_string(),
            replying_to: None,
            editing: None,
            image_viewer: None,
            pending_view: None,
            player_argv,
            tasks: Vec::new(),
            loading_older: false,
            drafts: TextMap::new(),
            typing_until: TextMap::new(),
            last_typing_sent: None,
        };
        app.tg.send(Command::LoadChats);
        assert(app@ =~= AppModel::started(tg@, texts(player_argv@)));
        app
    }

    /// The id of the open chat.
    fn current_chat_id(&self) -> (id: Option<String>)
        ensures
            opt_text(id) == self@.current_chat(),
    {
        if self.chat_cursor < self.chats.len() {
            Some(self.chats[self.chat_cursor].id.clone())
        } else {
            None
        }
    }

    /// Whether this chat is the open one.
    fn is_open(&self, chat_id: &String) -> (b: bool)
        ensures
            b == (self@.current_chat() == Some(chat_id@)),
    {
        self.chat_cursor < self.chats.len() && self.chats[self.chat_cursor].id == *chat_id
    }

    /// Asks for the messages of the open chat.
    fn request_messages_for_current(&mut self)
        ensures
            final(self)@ == old(self)@.messages_requested(),
            final(self).input == old(self).input,
    {
        if let Some(id) = self.current_chat_id() {
            self.tg.send(Command::LoadMessages(id));
        }
    }

    /// Clears away typing marks that have run out.
    pub fn on_tick(&mut self, now: u64)
        ensures
            final(self)@ == old(self)@.ticked(now),
            final(self).input == old(self).input,
    {
        self.typing_until.keep_later(now);
    }

    /// Tells the others that the user is typing, at most every three seconds.
    pub fn maybe_send_typing(&mut self, now: u64)
        ensures
            final(self)@ == old(self)@.typing_told(now),
            final(self).input == old(self).input,
    {
        if let Some(last) = self.last_typing_sent {
            if now < last || now - last < TYPING_INTERVAL {
                return;
            }
        }
        if let Some(chat_id) = self.current_chat_id() {
            self.last_typing_sent = Some(now);
            self.tg.send(Command::SendTyping { chat_id });
        }
    }
}

impl App {
    // ---- Events of the actor ----

    /// Whether the numbers that an event makes grow still fit.
    pub fn can_apply(&self, ev: &TgEvent, now: u64) -> (b: bool)
        ensures
            b == self@.can_take(ev@, now),
    {
        match ev {
            TgEvent::OlderMessagesLoaded { chat_id, messages } => !self.is_open(chat_id)
                || messages.len() <= usize::MAX - self.msg_cursor,
            TgEvent::NewMessage { chat_id, message } => {
                let at = find_chat(&self.chats, chat_id);
                at >= self.chats.len() || self.is_open(chat_id) || message.outgoing
                    || self.chats[at].unread < u32::MAX
            },
            TgEvent::Typing { active, .. } => !*active || now <= u64::MAX - TYPING_SHOWN,
            _ => true,
        }
    }

    /// Takes an event of the actor in.
    pub fn apply_event(&mut self, ev: TgEvent, now: u64)
        requires
            old(self)@.can_take(ev@, now),
        ensures
            final(self)@ == old(self)@.told(ev@, now),
            final(self).input == old(self).input,
            old(self)@.settled() ==> final(self)@.settled(),
            old(self)@.cursors_in_range() && (ev@ is OlderMessagesLoaded
                ==> old(self)@.messages.len() > 0) ==> final(self)@.cursors_in_range(),
    {
        proof {
            if self@.settled() {
                events_keep_it_settled(self@, ev@, now);
            }
            if self@.cursors_in_range() && (ev@ is OlderMessagesLoaded ==> self@.messages.len()
                > 0) {
                events_keep_cursors_in_range(self@, ev@, now);
            }
        }
        match ev {
            TgEvent::Connected => {
                self.status = "Connected. Press ? for help".to_string();
            },
            TgEvent::Disconnected => {
                self.status = "Disconnected".to_string();
            },
            TgEvent::Error(text) => {
                let mut status = "Error: ".to_string();
                status.append(text.as_str());
                self.status = status;
            },
            TgEvent::ChatsLoaded(chats) => self.on_chats_loaded(chats),
            TgEvent::MessagesLoaded { chat_id, messages } => {
                if self.is_open(&chat_id) {
                    self.msg_cursor = last_of(messages.len());
                    self.messages = messages;
                }
            },
            TgEvent::OlderMessagesLoaded { chat_id, messages } => {
                self.on_older_messages_loaded(chat_id, messages);
            },
            TgEvent::MessageSent { chat_id: _ } => {},
            TgEvent::NewMessage { chat_id, message } => self.on_new_message(chat_id, message),
            TgEvent::MessageEdited { chat_id, message } => self.on_message_edited(chat_id, message),
            TgEvent::MessageDeleted { chat_id, ids } => self.on_message_deleted(chat_id, ids),
            TgEvent::MediaFetched { chat_id, msg_id, path } => {
                self.on_media_fetched(chat_id, msg_id, path);
            },
            TgEvent::Typing { chat_id, active } => {
                if active {
                    self.typing_until.insert(chat_id, now + TYPING_SHOWN);
                } else {
                    let gone = self.typing_until.remove(&chat_id);
                }
            },
        }
    }

    fn on_chats_loaded(&mut self, chats: Vec<Chat>)
        ensures
            final(self)@ == old(self)@.chats_loaded(chat_views(chats@)),
            final(self).input == old(self).input,
    {
        match self.current_chat_id() {
            Some(id) => {
                let at = find_chat(&chats, &id);
                self.chat_cursor = if at < chats.len() {
                    at
                } else {
                    0
                };
            },
            None => {
                if chats.len() > 0 {
                    self.chat_cursor = 0;
                }
            },
        }
        self.chats = chats;
        if self.messages.len() == 0 {
            self.request_messages_for_current();
        }
    }

    fn on_older_messages_loaded(&mut self, chat_id: String, older: Vec<Message>)
        requires
            old(self)@.current_chat() == Some(chat_id@) ==> old(self).msg_cursor + older@.len()
                <= usize::MAX,
        ensures
            final(self)@ == old(self)@.older_loaded(chat_id@, message_views(older@)),
            final(self).input == old(self).input,
    {
        self.loading_older = false;
        if !self.is_open(&chat_id) {
            return;
        }
        if older.len() == 0 {
            self.status = "No more history".to_string();
            return;
        }
        let n = older.len();
        let mut combined = older;
        combined.append(&mut self.messages);
        assert(message_views(combined@) =~= message_views(older@) + old(self)@.messages);
        self.messages = combined;
        self.msg_cursor = self.msg_cursor + n;
        let mut status = "+".to_string();
        status.append(decimal_of(n as u64).as_str());
        status.append(" older");
        self.status = status;
    }

    fn on_new_message(&mut self, chat_id: String, message: Message)
        requires
            old(self)@.can_take(
                TgEventView::NewMessage { chat_id: chat_id@, message: message@ },
                0,
            ),
        ensures
            final(self)@ == old(self)@.message_arrived(chat_id@, message@),
            final(self).input == old(self).input,
    {
        let open = self.is_open(&chat_id);
        let at = find_chat(&self.chats, &chat_id);
        let preview = first_line_of(message.text.as_str());
        let outgoing = message.outgoing;
        if open {
            self.msg_cursor = self.messages.len();
            self.messages.push(message);
            assert(message_views(self.messages@) =~= old(self)@.messages.push(message@));
        }
        if at >= self.chats.len() {
            self.tg.send(Command::LoadChats);
            return;
        }
        let ghost before = chat_views(self.chats@);
        let mut chat = self.chats.remove(at);
        chat.last_preview = preview;
        if !open && !outgoing {
            chat.unread = chat.unread + 1;
        }
        self.chats.insert(0, chat);
        assert(chat_views(self.chats@) =~= seq![chat@] + before.remove(at as int));
        if self.chat_cursor == at {
            self.chat_cursor = 0;
        } else if self.chat_cursor < at {
            self.chat_cursor = self.chat_cursor + 1;
        }
    }

    /// Sets the preview of the first chat with this id.
    fn set_preview(&mut self, chat_id: &String, preview: String)
        ensures
            final(self)@ == old(self)@.previewing(chat_id@, preview@),
            final(self).input == old(self).input,
    {
        let at = find_chat(&self.chats, chat_id);
        if at < self.chats.len() {
            let ghost before = chat_views(self.chats@);
            self.chats[at].last_preview = preview;
            assert(chat_views(self.chats@) =~= before.update(
                at as int,
                ChatView { last_preview: preview@, ..before[at as int] },
            ));
        }
    }

    fn on_message_edited(&mut self, chat_id: String, message: Message)
        ensures
            final(self)@ == old(self)@.message_edited(chat_id@, message@),
            final(self).input == old(self).input,
    {
        if !self.is_open(&chat_id) {
            return;
        }
        let id = message.id;
        let preview = first_line_of(message.text.as_str());
        let at = find_message(&self.messages, id);
        if at < self.messages.len() {
            let ghost before = message_views(self.messages@);
            self.messages[at] = message;
            assert(message_views(self.messages@) =~= before.update(at as int, message@));
        }
        let n = self.messages.len();
        if n > 0 && self.messages[n - 1].id == id {
            self.set_preview(&chat_id, preview);
        }
    }

    fn on_message_deleted(&mut self, chat_id: Option<String>, ids: Vec<u64>)
        ensures
            final(self)@ == old(self)@.messages_deleted(opt_text(chat_id), ids@),
            final(self).input == old(self).input,
    {
        if let Some(id) = &chat_id {
            if !self.is_open(id) {
                return;
            }
        }
        drop_messages(&mut self.messages, &ids);
        let n = self.messages.len();
        if self.msg_cursor >= n {
            self.msg_cursor = last_of(n);
        }
        if let Some(id) = self.current_chat_id() {
            let preview = if n > 0 {
                first_line_of(self.messages[n - 1].text.as_str())
            } else {
                String::new()
            };
            self.set_preview(&id, preview);
        }
    }

    fn on_media_fetched(&mut self, chat_id: String, msg_id: u64, path: PathBuf)
        ensures
            final(self)@ == old(self)@.media_fetched(chat_id@, msg_id, path),
            final(self).input == old(self).input,
    {
        let mut kind: Option<MediaKind> = None;
        if self.is_open(&chat_id) {
            let at = find_message(&self.messages, msg_id);
            if at < self.messages.len() {
                let ghost before = message_views(self.messages@);
                kind = self.messages[at].media_kind;
                self.messages[at].media_path = Some(path.clone());
                assert(message_views(self.messages@) =~= before.update(
                    at as int,
                    MessageView { media_path: Some(path), ..before[at as int] },
                ));
            }
        }
        let waiting = match &self.pending_view {
            Some(p) => p.0 == chat_id && p.1 == msg_id,
            None => false,
        };
        if waiting {
            self.pending_view = None;
            self.open_media(kind, path);
        }
    }

    /// Hands a downloaded file to what shows its kind.
    fn open_media(&mut self, kind: Option<MediaKind>, path: PathBuf)
        ensures
            final(self)@ == old(self)@.opening(kind, path),
            final(self).input == old(self).input,
    {
        match kind {
            Some(MediaKind::Photo) | Some(MediaKind::Sticker) => self.open_image_viewer(path),
            Some(MediaKind::Video) => self.launch_video(path),
            _ => {},
        }
    }

    fn open_image_viewer(&mut self, path: PathBuf)
        ensures
            final(self)@ == old(self)@.opening(Some(MediaKind::Photo), path),
            final(self).input == old(self).input,
    {
        self.tasks.push(MediaTask::OpenImage(path));
        assert(task_views(self.tasks@) =~= old(self)@.tasks.push(TaskView::OpenImage(path)));
    }

    fn launch_video(&mut self, path: PathBuf)
        ensures
            final(self)@ == old(self)@.opening(Some(MediaKind::Video), path),
            final(self).input == old(self).input,
    {
        if self.player_argv.len() == 0 {
            self.status = "player not configured".to_string();
            return;
        }
        let argv = clone_texts(&self.player_argv);
        self.tasks.push(MediaTask::PlayVideo { argv, path });
        assert(task_views(self.tasks@) =~= old(self)@.tasks.push(
            TaskView::PlayVideo { argv: old(self)@.player_argv, path },
        ));
    }
}

/// Taking a key out of the drafts takes it out of their contents.
proof fn lemma_draft_removed(m: Map<Seq<char>, Vec<String>>, k: Seq<char>)
    ensures
        draft_texts(m.remove(k)) == draft_texts(m).remove(k),
{
    assert(draft_texts(m.remove(k)) =~= draft_texts(m).remove(k));
}

/// Putting a draft in puts its lines into the contents.
proof fn lemma_draft_inserted(m: Map<Seq<char>, Vec<String>>, k: Seq<char>, v: Vec<String>)
    ensures
        draft_texts(m.insert(k, v)) == draft_texts(m).insert(k, texts(v@)),
{
    assert(draft_texts(m.insert(k, v)) =~= draft_texts(m).insert(k, texts(v@)));
}

/// Whether every line is empty.
fn all_empty(lines: &Vec<String>) -> (b: bool)
    ensures
        b == (forall|i: int|
            0 <= i < texts(lines@).len() ==> (#[trigger] texts(lines@)[i]).len() == 0),
{
    let mut i: usize = 0;
    while i < lines.len()
        invariant
            i <= lines@.len(),
            forall|j: int| 0 <= j < i ==> (#[trigger] texts(lines@)[j]).len() == 0,
        decreases lines.len() - i,
    {
        assert(texts(lines@)[i as int] == lines@[i as int]@);
        if !lines[i].as_str().is_empty() {
            return false;
        }
        i = i + 1;
    }
    true
}

impl App {
    // ---- Opening a chat ----

    /// Keeps what is in the composer as the draft of the open chat.
    fn save_draft(&mut self)
        ensures
            final(self)@ == (AppModel { drafts: old(self)@.drafts_saved(), ..old(self)@ }),
            final(self).input == old(self).input,
    {
        if let Some(id) = self.current_chat_id() {
            let lines = self.input.lines();
            let ghost before = self.drafts@;
            if all_empty(&lines) {
                let gone = self.drafts.remove(&id);
                proof {
                    lemma_draft_removed(before, id@);
                }
            } else {
                self.drafts.insert(id, lines);
                proof {
                    lemma_draft_inserted(before, id@, lines);
                }
            }
        }
    }

    /// Opens another chat.
    pub fn set_chat_cursor(&mut self, new: usize)
        ensures
            final(self)@ == old(self)@.chat_opened(new as int),
            old(self)@.input.feedless(),
            final(self)@.input.feedless(),
            new == old(self).chat_cursor ==> final(self).input == old(self).input,
    {
        proof {
            use_type_invariant(&self.input);
            self.input.lemma_sound();
        }
        if new == self.chat_cursor {
            return;
        }
        self.save_draft();
        self.replying_to = None;
        self.editing = None;
        self.chat_cursor = new;
        if new < self.chats.len() {
            let ghost before = chat_views(self.chats@);
            self.chats[new].unread = 0;
            assert(chat_views(self.chats@) =~= before.update(
                new as int,
                ChatView { unread: 0, ..before[new as int] },
            ));
        }
        self.messages.clear();
        assert(message_views(self.messages@) =~= Seq::<MessageView>::empty());
        self.msg_cursor = 0;
        self.loading_older = false;
        let mut input = Composer::empty();
        if let Some(id) = self.current_chat_id() {
            if let Some(lines) = self.drafts.get(&id) {
                if lines.len() > 0 {
                    let text = join_lines_of(lines);
                    input = Composer::prefilled(lines_of(text.as_str()));
                }
            }
        }
        self.input = input;
        self.request_messages_for_current();
    }

    // ---- Actions ----

    pub fn quit(&mut self)
        ensures
            final(self)@ == old(self)@.quitting(),
            final(self).input == old(self).input,
    {
        self.tg.send(Command::Shutdown);
        self.should_quit = true;
    }

    pub fn close_image_viewer(&mut self)
        ensures
            final(self)@ == (AppModel { image_viewer: None, ..old(self)@ }),
            final(self).input == old(self).input,
    {
        self.image_viewer = None;
    }

    /// Goes on to the next pane.
    pub fn cycle_focus(&mut self)
        ensures
            final(self)@ == old(self)@.focus_cycled(),
            final(self).input == old(self).input,
    {
        self.focus = self.focus.cycle();
        if self.focus == Focus::Input {
            self.mode = Mode::Insert;
        } else {
            self.mode = Mode::Normal;
        }
    }

    pub fn enter_insert(&mut self)
        ensures
            final(self)@ == old(self)@.inserting(),
            final(self).input == old(self).input,
    {
        self.focus = Focus::Input;
        self.mode = Mode::Insert;
    }

    pub fn enter_normal(&mut self)
        ensures
            final(self)@ == old(self)@.back_to_normal(),
            final(self).input == old(self).input,
    {
        self.mode = Mode::Normal;
        if self.focus == Focus::Input {
            self.focus = Focus::Messages;
        }
    }

    pub fn toggle_help(&mut self)
        ensures
            final(self)@ == old(self)@.help_toggled(),
            final(self).input == old(self).input,
    {
        self.mode = if self.mode == Mode::Help {
            Mode::Normal
        } else {
            Mode::Help
        };
    }

    /// The rows that a picker chooses from.
    fn picker_rows(&self, target: FuzzyTarget) -> (rows: Vec<String>)
        ensures
            texts(rows@) == self@.rows(target),
    {
        let mut rows: Vec<String> = Vec::new();
        let mut i: usize = 0;
        match target {
            FuzzyTarget::ChatList | FuzzyTarget::GlobalSwitcher => {
                while i < self.chats.len()
                    invariant
                        i <= self.chats@.len(),
                        rows@.len() == i,
                        forall|j: int|
                            0 <= j < i ==> (#[trigger] rows@[j])@ == chat_row(self.chats@[j]@),
                    decreases self.chats.len() - i,
                {
                    let mut row = self.chats[i].name.clone();
                    row.append("  —  ");
                    row.append(self.chats[i].last_preview.as_str());
                    rows.push(row);
                    i = i + 1;
                }
            },
            FuzzyTarget::Messages => {
                while i < self.messages.len()
                    invariant
                        i <= self.messages@.len(),
                        rows@.len() == i,
                        forall|j: int|
                            0 <= j < i ==> (#[trigger] rows@[j])@ == message_row(
                                self.messages@[j]@,
                            ),
                    decreases self.messages.len() - i,
                {
                    let mut row = self.messages[i].sender.clone();
                    row.append(": ");
                    row.append(self.messages[i].text.as_str());
                    rows.push(row);
                    i = i + 1;
                }
            },
        }
        assert(texts(rows@) =~= self@.rows(target));
        rows
    }

    /// Opens a picker.
    pub fn open_fuzzy(&mut self, target: FuzzyTarget)
        ensures
            final(self)@ == old(self)@.fuzzy_opened(target),
            final(self).input == old(self).input,
    {
        let rows = self.picker_rows(target);
        self.fuzzy = Some(FuzzyPicker::new(target, rows));
        self.mode = Mode::Search;
    }

    pub fn close_fuzzy(&mut self)
        ensures
            final(self)@ == old(self)@.fuzzy_closed(),
            final(self).input == old(self).input,
    {
        self.fuzzy = None;
        self.mode = Mode::Normal;
    }

    /// Takes the highlighted row of the picker.
    pub fn confirm_fuzzy(&mut self)
        ensures
            final(self)@ == old(self)@.fuzzy_confirmed(),
            final(self).chat_cursor == old(self).chat_cursor ==> final(self).input == old(self).input,
    {
        let (target, chosen) = match &self.fuzzy {
            Some(p) => (p.target(), p.selected_source_index()),
            None => {
                return;
            },
        };
        if let Some(i) = chosen {
            match target {
                FuzzyTarget::ChatList | FuzzyTarget::GlobalSwitcher => {
                    self.set_chat_cursor(i);
                    self.focus = Focus::Messages;
                },
                FuzzyTarget::Messages => {
                    self.msg_cursor = i;
                },
            }
        }
        self.close_fuzzy();
    }

    /// Asks for older messages, unless they have been asked for already.
    fn request_older_messages(&mut self)
        ensures
            final(self)@ == old(self)@.older_requested(),
            final(self).input == old(self).input,
    {
        if self.loading_older || self.messages.len() == 0 {
            return;
        }
        if let Some(chat_id) = self.current_chat_id() {
            let before_id = self.messages[0].id;
            self.loading_older = true;
            self.status = "Loading older messages…".to_string();
            self.tg.send(Command::LoadOlder { chat_id, before_id });
        }
    }

    /// Moves down by `n`, as far as there is room.
    pub fn move_down(&mut self, n: usize)
        ensures
            final(self)@ == old(self)@.moved_down(n as int),
            final(self).chat_cursor == old(self).chat_cursor ==> final(self).input == old(self).input,
    {
        match self.focus {
            Focus::ChatList => {
                let new = step_down(self.chat_cursor, n, last_of(self.chats.len()));
                self.set_chat_cursor(new);
            },
            Focus::Messages => {
                self.msg_cursor = step_down(self.msg_cursor, n, last_of(self.messages.len()));
            },
            Focus::Input => {},
        }
    }

    /// Moves up by `n`; at the first message asks for older ones.
    pub fn move_up(&mut self, n: usize)
        ensures
            final(self)@ == old(self)@.moved_up(n as int),
            final(self).chat_cursor == old(self).chat_cursor ==> final(self).input == old(self).input,
    {
        match self.focus {
            Focus::ChatList => {
                let new = self.chat_cursor.saturating_sub(n);
                self.set_chat_cursor(new);
            },
            Focus::Messages => {
                if self.msg_cursor == 0 {
                    self.request_older_messages();
                } else {
                    self.msg_cursor = self.msg_cursor.saturating_sub(n);
                }
            },
            Focus::Input => {},
        }
    }

    /// Goes to the top; at the first message asks for older ones.
    pub fn go_top(&mut self)
        ensures
            final(self)@ == old(self)@.at_top(),
            final(self).chat_cursor == old(self).chat_cursor ==> final(self).input == old(self).input,
    {
        match self.focus {
            Focus::ChatList => self.set_chat_cursor(0),
            Focus::Messages => {
                if self.msg_cursor == 0 {
                    self.request_older_messages();
                } else {
                    self.msg_cursor = 0;
                }
            },
            Focus::Input => {},
        }
    }

    pub fn go_bottom(&mut self)
        ensures
            final(self)@ == old(self)@.at_bottom(),
            final(self).chat_cursor == old(self).chat_cursor ==> final(self).input == old(self).input,
    {
        match self.focus {
            Focus::ChatList => {
                let last = last_of(self.chats.len());
                self.set_chat_cursor(last);
            },
            Focus::Messages => {
                self.msg_cursor = last_of(self.messages.len());
            },
            Focus::Input => {},
        }
    }

    /// Sends what the composer holds.
    pub fn send_input(&mut self)
        ensures
            final(self)@ == old(self)@.input_sent(),
            old(self)@.has_nothing_to_send() ==> final(self).input == old(self).input,
    {
        let text = join_lines_of(&self.input.lines());
        if is_blank(text.as_str()) {
            return;
        }
        let id = match self.current_chat_id() {
            Some(id) => id,
            None => {
                return;
            },
        };
        match self.editing {
            Some(edit) => {
                self.editing = None;
                self.tg.send(Command::Edit { chat_id: id.clone(), msg_id: edit.msg_id, text });
            },
            None => {
                let reply_to = match &self.replying_to {
                    Some(r) => Some(r.msg_id),
                    None => None,
                };
                self.tg.send(Command::Send { chat_id: id.clone(), text, reply_to });
                self.replying_to = None;
            },
        }
        self.input = Composer::empty();
        proof {
            lemma_draft_removed(self.drafts@, id@);
        }
        let gone = self.drafts.remove(&id);
    }

    /// Begins or gives up an answer to the selected message.
    pub fn toggle_reply(&mut self)
        ensures
            final(self)@ == old(self)@.reply_toggled(),
            final(self).editing == old(self).editing ==> final(self).input == old(self).input,
    {
        if self.replying_to.is_some() {
            self.replying_to = None;
            return;
        }
        if self.msg_cursor >= self.messages.len() {
            return;
        }
        let msg = &self.messages[self.msg_cursor];
        let line = first_line_of(msg.text.as_str());
        let target = ReplyTarget {
            msg_id: msg.id,
            sender: msg.sender.clone(),
            preview: first_chars(line.as_str(), 60),
        };
        self.replying_to = Some(target);
        if self.editing.is_some() {
            self.editing = None;
            self.input = Composer::empty();
        }
        self.enter_insert();
    }

    /// Asks for the selected message to be deleted, and takes it off the list
    /// at once.
    pub fn delete_selected(&mut self)
        ensures
            final(self)@ == old(self)@.selected_deleted(),
            final(self).input == old(self).input,
    {
        if self.msg_cursor >= self.messages.len() {
            return;
        }
        if let Some(chat_id) = self.current_chat_id() {
            let ghost before = message_views(self.messages@);
            let gone = self.messages.remove(self.msg_cursor);
            assert(message_views(self.messages@) =~= before.remove(self.msg_cursor as int));
            if self.msg_cursor >= self.messages.len() {
                self.msg_cursor = last_of(self.messages.len());
            }
            let mut ids: Vec<u64> = Vec::new();
            ids.push(gone.id);
            assert(ids@ =~= seq![gone.id]);
            self.tg.send(Command::Delete { chat_id, ids });
            self.status = "Deleted".to_string();
        }
    }

    /// Selects the message that the selected one answers.
    pub fn jump_to_reply_target(&mut self)
        ensures
            final(self)@ == old(self)@.reply_target_selected(),
            final(self).input == old(self).input,
    {
        if self.msg_cursor >= self.messages.len() {
            return;
        }
        match self.messages[self.msg_cursor].reply_to_id {
            None => {
                self.status = "Not a reply".to_string();
            },
            Some(rid) => {
                let at = find_message(&self.messages, rid);
                if at < self.messages.len() {
                    self.msg_cursor = at;
                    self.status = "→ reply target".to_string();
                } else {
                    self.status = "Reply target is older than loaded history".to_string();
                }
            },
        }
    }

    /// Begins or gives up an edit of the selected message.
    pub fn toggle_edit(&mut self)
        ensures
            final(self)@ == old(self)@.edit_toggled(),
            final(self).editing == old(self).editing ==> final(self).input == old(self).input,
    {
        if self.editing.is_some() {
            self.editing = None;
            self.input = Composer::empty();
            return;
        }
        if self.msg_cursor >= self.messages.len() {
            return;
        }
        if !self.messages[self.msg_cursor].outgoing {
            self.status = "Can only edit your own messages".to_string();
            return;
        }
        self.editing = Some(EditTarget { msg_id: self.messages[self.msg_cursor].id });
        self.replying_to = None;
        let lines = lines_of(self.messages[self.msg_cursor].text.as_str());
        self.input = Composer::prefilled(lines);
        self.enter_insert();
    }

    /// Opens the media of the selected message, or fetches it first.
    pub fn view_selected(&mut self)
        ensures
            final(self)@ == old(self)@.selected_viewed(),
            final(self).input == old(self).input,
    {
        if self.msg_cursor >= self.messages.len() {
            return;
        }
        let kind = match self.messages[self.msg_cursor].media_kind {
            Some(kind) => kind,
            None => {
                self.status = "No media on this message".to_string();
                return;
            },
        };
        if kind == MediaKind::Document || kind == MediaKind::Other {
            self.status = "Media type not viewable".to_string();
            return;
        }
        if let Some(path) = &self.messages[self.msg_cursor].media_path {
            let path = path.clone();
            self.open_media(Some(kind), path);
            return;
        }
        if let Some(chat_id) = self.current_chat_id() {
            let msg_id = self.messages[self.msg_cursor].id;
            self.pending_view = Some((chat_id.clone(), msg_id));
            self.tg.send(Command::FetchMedia { chat_id, msg_id });
            self.status = if kind == MediaKind::Video {
                "Downloading video…".to_string()
            } else {
                "Downloading…".to_string()
            };
        }
    }
}

impl App {
    /// Takes a key in.
    pub fn on_key(&mut self, key: KeyEvent, now: u64)
        ensures
            final(self)@ == old(self)@.key_pressed(key, now, old(self).input.typed(key)),
            old(self)@.leaves_composer(key) ==> final(self).input == old(self).input,
            old(self)@.types(key) ==> final(self).input.area() == after_key(
                old(self).input.area(),
                key,
            ),
            old(self)@.settled() ==> final(self)@.settled(),
            old(self)@.cursors_in_range() && old(self)@.picker_is_fresh()
                ==> final(self)@.cursors_in_range(),
    {
        proof {
            let typed = self.input.typed(key);
            assert(self.chats.len() <= usize::MAX && self.messages.len() <= usize::MAX);
            if self@.settled() {
                keys_keep_it_settled(self@, key, now, typed);
            }
            if self@.cursors_in_range() && self@.picker_is_fresh() {
                keys_keep_cursors_in_range(self@, key, now, typed);
            }
        }
        dispatch(self, key, now);
    }

    // ---- Reports of the outside ----

    /// Hands over what is to be done outside.
    pub fn take_tasks(&mut self) -> (tasks: Vec<MediaTask>)
        ensures
            task_views(tasks@) == old(self)@.tasks,
            final(self)@ == (AppModel { tasks: Seq::empty(), ..old(self)@ }),
            final(self).input == old(self).input,
    {
        let mut tasks: Vec<MediaTask> = Vec::new();
        std::mem::swap(&mut tasks, &mut self.tasks);
        assert(task_views(self.tasks@) =~= Seq::<TaskView>::empty());
        tasks
    }

    /// An image has been decoded: it is on show now.
    pub fn image_opened(&mut self, path: PathBuf)
        ensures
            final(self)@ == (AppModel {
                image_viewer: Some(path),
                status: Seq::empty(),
                ..old(self)@
            }),
            final(self).input == old(self).input,
    {
        self.image_viewer = Some(ImageViewer { path });
        self.status = String::new();
    }

    /// An image could not be decoded.
    pub fn image_failed(&mut self, error: &str)
        ensures
            final(self)@ == old(self)@.saying("decode failed: "@ + error@),
            final(self).input == old(self).input,
    {
        let mut status = "decode failed: ".to_string();
        status.append(error);
        self.status = status;
    }

    /// The player has been started.
    pub fn video_launched(&mut self, program: &str)
        ensures
            final(self)@ == old(self)@.saying("launched "@ + program@),
            final(self).input == old(self).input,
    {
        let mut status = "launched ".to_string();
        status.append(program);
        self.status = status;
    }

    /// The player could not be started.
    pub fn video_failed(&mut self, program: &str, error: &str)
        ensures
            final(self)@ == old(self)@.saying(
                program@ + ": "@ + error@ + " (set VT_PLAYER or [media] player)"@,
            ),
            final(self).input == old(self).input,
    {
        let mut status = program.to_string();
        status.append(": ");
        status.append(error);
        status.append(" (set VT_PLAYER or [media] player)");
        self.status = status;
    }

    // ---- The composer on the screen ----

    /// Whether the composer can be drawn at this place of the screen.
    pub fn can_draw_input(&self, x: u16, y: u16, width: u16, height: u16) -> (b: bool)
        ensures
            b == drawable(on_show(self.input.area()), self@.input.cursor, x, y, width, height),
    {
        self.input.can_draw(x, y, width, height)
    }

    /// Draws the composer at this place of the screen, in a frame with this
    /// border. Nothing changes but what the composer keeps of how it was drawn.
    pub fn draw_input(
        &mut self,
        border: Style,
        x: u16,
        y: u16,
        width: u16,
        height: u16,
    ) -> (b: Buffer)
        requires
            drawable(
                on_show(old(self).input.area()),
                old(self)@.input.cursor,
                x,
                y,
                width,
                height,
            ),
        ensures
            (final(self).input.area(), b) == drawn(
                old(self).input.area(),
                " Message "@,
                border,
                x,
                y,
                width,
                height,
            ),
            final(self)@ == old(self)@,
    {
        proof {
            reveal_strlit(" Message ");
        }
        self.input.draw(" Message ", border, x, y, width, height)
    }
}

/// `at + n`, but not beyond `last`.
fn step_down(at: usize, n: usize, last: usize) -> (new: usize)
    ensures
        new == (if at + n <= last {
            at + n
        } else {
            last as int
        }),
{
    if n <= last && at <= last - n {
        at + n
    } else {
        last
    }
}

/// The last index of a list of length `n`, or 0.
fn last_of(n: usize) -> (i: usize)
    ensures
        i == last_index(n as nat),
{
    if n == 0 {
        0
    } else {
        n - 1
    }
}

} // verus!
