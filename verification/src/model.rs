//! What every action does to the state of the program.
//!
//! [`AppModel`] is the state as mathematical values; its methods are the
//! transitions. [`crate::app::App`] is proved to follow them, and
//! [`crate::laws`] is about them.

use crate::app::{EditTarget, Focus, Mode};
use crate::fuzzy::{FuzzyTarget, FuzzyView};
use crate::input::{ComposerView, KeyCode, KeyEvent};
use crate::telegram::{
    chat_is, message_is, message_not_in, ChatView, CommandView, MediaKind, MessageView, TgEventView,
};
use crate::text::{blank, decimal, first_index, first_line, join_lines, shortened, split_lines};
use crate::textmap::later_than;
use std::path::PathBuf;
use vstd::prelude::*;

verus! {

/// The message that is being answered, with what the banner shows of it.
#[verifier::ext_equal]
pub struct ReplyView {
    pub msg_id: u64,
    pub sender: Seq<char>,
    pub preview: Seq<char>,
}

/// Something to be done with a downloaded file, outside of the program.
#[verifier::ext_equal]
pub enum TaskView {
    OpenImage(PathBuf),
    PlayVideo { argv: Seq<Seq<char>>, path: PathBuf },
}

/// The state of the program.
#[verifier::ext_equal]
pub struct AppModel {
    pub should_quit: bool,
    pub mode: Mode,
    pub focus: Focus,
    /// What has been sent to the actor.
    pub sent: Seq<CommandView>,
    pub chats: Seq<ChatView>,
    pub chat_cursor: int,
    pub messages: Seq<MessageView>,
    pub msg_cursor: int,
    pub input: ComposerView,
    pub pending_key: Option<char>,
    pub fuzzy: Option<FuzzyView>,
    pub status: Seq<char>,
    pub replying_to: Option<ReplyView>,
    pub editing: Option<EditTarget>,
    /// The file that the image viewer shows.
    pub image_viewer: Option<PathBuf>,
    /// The message whose media will be opened as soon as it has been fetched.
    pub pending_view: Option<(Seq<char>, u64)>,
    pub player_argv: Seq<Seq<char>>,
    /// What is to be done outside of the program.
    pub tasks: Seq<TaskView>,
    /// Whether older messages have been asked for and not yet come.
    pub loading_older: bool,
    pub drafts: Map<Seq<char>, Seq<Seq<char>>>,
    /// Until when, in nanoseconds, a chat is shown as typing.
    pub typing_until: Map<Seq<char>, u64>,
    pub last_typing_sent: Option<u64>,
}

/// How long a chat is shown as typing, in nanoseconds.
pub const TYPING_SHOWN: u64 = 6_000_000_000;

/// How often others are told that the user is typing, in nanoseconds.
pub const TYPING_INTERVAL: u64 = 3_000_000_000;

/// The last index of a list of length `n`, or 0.
pub open spec fn last_index(n: nat) -> int {
    if n == 0 {
        0
    } else {
        n - 1
    }
}

/// The row of a chat in a picker.
pub open spec fn chat_row(c: ChatView) -> Seq<char> {
    c.name + "  —  "@ + c.last_preview
}

/// The row of a message in a picker.
pub open spec fn message_row(m: MessageView) -> Seq<char> {
    m.sender + ": "@ + m.text
}

impl AppModel {
    /// The state at the start: nothing is known and the chats are asked for.
    pub open spec fn started(sent: Seq<CommandView>, player_argv: Seq<Seq<char>>) -> AppModel {
        AppModel {
            should_quit: false,
            mode: Mode::Normal,
            focus: Focus::ChatList,
            sent: sent.push(CommandView::LoadChats),
            chats: Seq::empty(),
            chat_cursor: 0,
            messages: Seq::empty(),
            msg_cursor: 0,
            input: ComposerView::empty(),
            pending_key: None,
            fuzzy: None,
            status: "Connecting…"@,
            replying_to: None,
            editing: None,
            image_viewer: None,
            pending_view: None,
            player_argv,
            tasks: Seq::empty(),
            loading_older: false,
            drafts: Map::empty(),
            typing_until: Map::empty(),
            last_typing_sent: None,
        }
    }

    /// The id of the open chat.
    pub open spec fn current_chat(self) -> Option<Seq<char>> {
        if 0 <= self.chat_cursor < self.chats.len() {
            Some(self.chats[self.chat_cursor].id)
        } else {
            None
        }
    }

    /// The selected message.
    pub open spec fn selected(self) -> Option<MessageView> {
        if 0 <= self.msg_cursor < self.messages.len() {
            Some(self.messages[self.msg_cursor])
        } else {
            None
        }
    }

    /// With a command sent.
    pub open spec fn sending(self, c: CommandView) -> AppModel {
        AppModel { sent: self.sent.push(c), ..self }
    }

    /// With another status line.
    pub open spec fn saying(self, status: Seq<char>) -> AppModel {
        AppModel { status, ..self }
    }

    /// The messages of the open chat are asked for.
    pub open spec fn messages_requested(self) -> AppModel {
        match self.current_chat() {
            Some(id) => self.sending(CommandView::LoadMessages(id)),
            None => self,
        }
    }

    // ---- Events of the actor ----

    /// A new list of chats: the open chat stays open if it is still there,
    /// else the first is opened. Without messages on show they are asked for.
    pub open spec fn chats_loaded(self, chats: Seq<ChatView>) -> AppModel {
        let chat_cursor = match self.current_chat() {
            Some(id) => if first_index(chats, chat_is(id)) < chats.len() {
                first_index(chats, chat_is(id))
            } else {
                0
            },
            None => if chats.len() > 0 {
                0
            } else {
                self.chat_cursor
            },
        };
        let m = AppModel { chats, chat_cursor, ..self };
        if m.messages.len() == 0 {
            m.messages_requested()
        } else {
            m
        }
    }

    /// The messages of a chat: they are shown if it is the open one.
    pub open spec fn messages_loaded(
        self,
        chat_id: Seq<char>,
        messages: Seq<MessageView>,
    ) -> AppModel {
        if self.current_chat() == Some(chat_id) {
            AppModel { messages, msg_cursor: last_index(messages.len()), ..self }
        } else {
            self
        }
    }

    /// Older messages: they go before those on show, and the same message
    /// stays selected.
    pub open spec fn older_loaded(self, chat_id: Seq<char>, older: Seq<MessageView>) -> AppModel {
        let m = AppModel { loading_older: false, ..self };
        if self.current_chat() != Some(chat_id) {
            m
        } else if older.len() == 0 {
            m.saying("No more history"@)
        } else {
            AppModel {
                messages: older + self.messages,
                msg_cursor: self.msg_cursor + older.len(),
                ..m
            }.saying("+"@ + decimal(older.len()) + " older"@)
        }
    }

    /// A new message: it is shown and selected if its chat is open, and its
    /// chat goes to the top with a new preview, and with one more unread
    /// message if it is not open and the message is not the user's own. The
    /// open chat stays open. For an unknown chat the chats are asked for.
    pub open spec fn message_arrived(self, chat_id: Seq<char>, message: MessageView) -> AppModel {
        let open = self.current_chat() == Some(chat_id);
        let m = if open {
            AppModel {
                messages: self.messages.push(message),
                msg_cursor: self.messages.len() as int,
                ..self
            }
        } else {
            self
        };
        let at = first_index(self.chats, chat_is(chat_id));
        if at >= self.chats.len() {
            m.sending(CommandView::LoadChats)
        } else {
            let chat = ChatView {
                last_preview: first_line(message.text),
                unread: if !open && !message.outgoing {
                    (self.chats[at].unread + 1) as u32
                } else {
                    self.chats[at].unread
                },
                ..self.chats[at]
            };
            AppModel {
                chats: seq![chat] + self.chats.remove(at),
                chat_cursor: if self.chat_cursor == at {
                    0
                } else if self.chat_cursor < at {
                    self.chat_cursor + 1
                } else {
                    self.chat_cursor
                },
                ..m
            }
        }
    }

    /// With another preview for the first chat with this id.
    pub open spec fn previewing(self, chat_id: Seq<char>, preview: Seq<char>) -> AppModel {
        let at = first_index(self.chats, chat_is(chat_id));
        if at < self.chats.len() {
            AppModel {
                chats: self.chats.update(
                    at,
                    ChatView { last_preview: preview, ..self.chats[at] },
                ),
                ..self
            }
        } else {
            self
        }
    }

    /// An edited message: it replaces the one with its id in the open chat,
    /// and gives the preview if it is the last one.
    pub open spec fn message_edited(self, chat_id: Seq<char>, message: MessageView) -> AppModel {
        if self.current_chat() != Some(chat_id) {
            self
        } else {
            let at = first_index(self.messages, message_is(message.id));
            let m = if at < self.messages.len() {
                AppModel { messages: self.messages.update(at, message), ..self }
            } else {
                self
            };
            if m.messages.len() > 0 && m.messages.last().id == message.id {
                m.previewing(chat_id, first_line(message.text))
            } else {
                m
            }
        }
    }

    /// Messages were deleted: they go if they are of the open chat, the
    /// cursor stays inside of the list, and the last message that is left
    /// gives the preview.
    pub open spec fn messages_deleted(self, chat_id: Option<Seq<char>>, ids: Seq<u64>) -> AppModel {
        if chat_id is Some && self.current_chat() != chat_id {
            self
        } else {
            let messages = self.messages.filter(message_not_in(ids));
            let m = AppModel {
                messages,
                msg_cursor: if self.msg_cursor >= messages.len() {
                    last_index(messages.len())
                } else {
                    self.msg_cursor
                },
                ..self
            };
            match self.current_chat() {
                Some(id) => m.previewing(
                    id,
                    if messages.len() > 0 {
                        first_line(messages.last().text)
                    } else {
                        Seq::empty()
                    },
                ),
                None => m,
            }
        }
    }

    /// With a downloaded file handed to what shows its kind.
    pub open spec fn opening(self, kind: Option<MediaKind>, path: PathBuf) -> AppModel {
        match kind {
            Some(MediaKind::Photo) | Some(MediaKind::Sticker) => AppModel {
                tasks: self.tasks.push(TaskView::OpenImage(path)),
                ..self
            },
            Some(MediaKind::Video) => if self.player_argv.len() == 0 {
                self.saying("player not configured"@)
            } else {
                AppModel {
                    tasks: self.tasks.push(TaskView::PlayVideo { argv: self.player_argv, path }),
                    ..self
                }
            },
            _ => self,
        }
    }

    /// A file was downloaded: the message of the open chat remembers it, and
    /// it is opened if the user waits for it.
    pub open spec fn media_fetched(
        self,
        chat_id: Seq<char>,
        msg_id: u64,
        path: PathBuf,
    ) -> AppModel {
        let at = first_index(self.messages, message_is(msg_id));
        let found = self.current_chat() == Some(chat_id) && at < self.messages.len();
        let m = if found {
            AppModel {
                messages: self.messages.update(
                    at,
                    MessageView { media_path: Some(path), ..self.messages[at] },
                ),
                ..self
            }
        } else {
            self
        };
        let kind = if found {
            self.messages[at].media_kind
        } else {
            None
        };
        if self.pending_view == Some((chat_id, msg_id)) {
            AppModel { pending_view: None, ..m }.opening(kind, path)
        } else {
            m
        }
    }

    /// Someone is typing in a chat, or has stopped.
    pub open spec fn typing_noted(self, chat_id: Seq<char>, active: bool, now: u64) -> AppModel {
        AppModel {
            typing_until: if active {
                self.typing_until.insert(chat_id, (now + TYPING_SHOWN) as u64)
            } else {
                self.typing_until.remove(chat_id)
            },
            ..self
        }
    }

    /// What an event of the actor does.
    pub open spec fn told(self, ev: TgEventView, now: u64) -> AppModel {
        match ev {
            TgEventView::Connected => self.saying("Connected. Press ? for help"@),
            TgEventView::Disconnected => self.saying("Disconnected"@),
            TgEventView::Error(text) => self.saying("Error: "@ + text),
            TgEventView::ChatsLoaded(chats) => self.chats_loaded(chats),
            TgEventView::MessagesLoaded { chat_id, messages } => self.messages_loaded(
                chat_id,
                messages,
            ),
            TgEventView::OlderMessagesLoaded { chat_id, messages } => self.older_loaded(
                chat_id,
                messages,
            ),
            TgEventView::MessageSent { chat_id } => self,
            TgEventView::NewMessage { chat_id, message } => self.message_arrived(chat_id, message),
            TgEventView::MessageEdited { chat_id, message } => self.message_edited(
                chat_id,
                message,
            ),
            TgEventView::MessageDeleted { chat_id, ids } => self.messages_deleted(chat_id, ids),
            TgEventView::MediaFetched { chat_id, msg_id, path } => self.media_fetched(
                chat_id,
                msg_id,
                path,
            ),
            TgEventView::Typing { chat_id, active } => self.typing_noted(chat_id, active, now),
        }
    }

    /// Whether the numbers that an event makes grow still fit: the unread
    /// count, the cursor of the messages, and the clock.
    pub open spec fn can_take(self, ev: TgEventView, now: u64) -> bool {
        match ev {
            TgEventView::OlderMessagesLoaded { chat_id, messages } => self.current_chat() == Some(
                chat_id,
            ) ==> self.msg_cursor + messages.len() <= usize::MAX,
            TgEventView::NewMessage { chat_id, message } => {
                let at = first_index(self.chats, chat_is(chat_id));
                at < self.chats.len() && self.current_chat() != Some(chat_id) && !message.outgoing
                    ==> self.chats[at].unread < u32::MAX
            },
            TgEventView::Typing { active, .. } => active ==> now + TYPING_SHOWN <= u64::MAX,
            _ => true,
        }
    }

    /// What the clock does: those who were typing long ago are not any more.
    pub open spec fn ticked(self, now: u64) -> AppModel {
        AppModel { typing_until: later_than(self.typing_until, now), ..self }
    }

    /// The others are told that the user is typing, unless they were told a
    /// moment ago.
    pub open spec fn typing_told(self, now: u64) -> AppModel {
        if self.last_typing_sent matches Some(last) && now - last < TYPING_INTERVAL {
            self
        } else {
            match self.current_chat() {
                Some(chat_id) => AppModel { last_typing_sent: Some(now), ..self }.sending(
                    CommandView::SendTyping { chat_id },
                ),
                None => self,
            }
        }
    }

    // ---- Opening a chat ----

    /// The drafts with what is in the composer kept for the open chat, or
    /// nothing kept for it if the composer is empty.
    pub open spec fn drafts_saved(self) -> Map<Seq<char>, Seq<Seq<char>>> {
        match self.current_chat() {
            Some(id) => if self.input.is_empty() {
                self.drafts.remove(id)
            } else {
                self.drafts.insert(id, self.input.lines)
            },
            None => self.drafts,
        }
    }

    /// Another chat is opened: its draft goes into the composer, broken at
    /// every line feed, what was there is kept for the chat that is left, and its messages are asked
    /// for.
    pub open spec fn chat_opened(self, new: int) -> AppModel {
        if new == self.chat_cursor {
            self
        } else {
            let drafts = self.drafts_saved();
            let m = AppModel {
                drafts,
                replying_to: None,
                editing: None,
                chat_cursor: new,
                chats: if 0 <= new < self.chats.len() {
                    self.chats.update(new, ChatView { unread: 0, ..self.chats[new] })
                } else {
                    self.chats
                },
                messages: Seq::empty(),
                msg_cursor: 0,
                loading_older: false,
                ..self
            };
            let input = match m.current_chat() {
                Some(id) => if drafts.contains_key(id) && drafts[id].len() > 0 {
                    ComposerView::at_end(split_lines(join_lines(drafts[id])))
                } else {
                    ComposerView::empty()
                },
                None => ComposerView::empty(),
            };
            AppModel { input, ..m }.messages_requested()
        }
    }

    // ---- Actions ----

    /// The actor is told to stop, and the program ends.
    pub open spec fn quitting(self) -> AppModel {
        AppModel { should_quit: true, ..self }.sending(CommandView::Shutdown)
    }

    /// The next pane; the composer takes the keys when it is the one.
    pub open spec fn focus_cycled(self) -> AppModel {
        let focus = self.focus.next();
        AppModel {
            focus,
            mode: if focus == Focus::Input {
                Mode::Insert
            } else {
                Mode::Normal
            },
            ..self
        }
    }

    /// The composer takes the keys.
    pub open spec fn inserting(self) -> AppModel {
        AppModel { focus: Focus::Input, mode: Mode::Insert, ..self }
    }

    /// The composer gives the keys back to the messages.
    pub open spec fn back_to_normal(self) -> AppModel {
        AppModel {
            mode: Mode::Normal,
            focus: if self.focus == Focus::Input {
                Focus::Messages
            } else {
                self.focus
            },
            ..self
        }
    }

    /// The help is shown or put away.
    pub open spec fn help_toggled(self) -> AppModel {
        AppModel {
            mode: if self.mode == Mode::Help {
                Mode::Normal
            } else {
                Mode::Help
            },
            ..self
        }
    }

    /// The rows that a picker chooses from.
    pub open spec fn rows(self, target: FuzzyTarget) -> Seq<Seq<char>> {
        match target {
            FuzzyTarget::ChatList | FuzzyTarget::GlobalSwitcher => self.chats.map_values(
                |c: ChatView| chat_row(c),
            ),
            FuzzyTarget::Messages => self.messages.map_values(|m: MessageView| message_row(m)),
        }
    }

    /// A picker is opened on what there is now.
    pub open spec fn fuzzy_opened(self, target: FuzzyTarget) -> AppModel {
        AppModel {
            fuzzy: Some(FuzzyView::opened(target, self.rows(target))),
            mode: Mode::Search,
            ..self
        }
    }

    /// The picker is put away.
    pub open spec fn fuzzy_closed(self) -> AppModel {
        AppModel { fuzzy: None, mode: Mode::Normal, ..self }
    }

    /// The highlighted row is taken: its chat is opened, or its message
    /// selected.
    pub open spec fn fuzzy_confirmed(self) -> AppModel {
        match self.fuzzy {
            None => self,
            Some(p) => match p.selected() {
                None => self.fuzzy_closed(),
                Some(i) => match p.target {
                    FuzzyTarget::ChatList | FuzzyTarget::GlobalSwitcher => AppModel {
                        focus: Focus::Messages,
                        ..self.chat_opened(i as int)
                    }.fuzzy_closed(),
                    FuzzyTarget::Messages => AppModel {
                        msg_cursor: i as int,
                        ..self
                    }.fuzzy_closed(),
                },
            },
        }
    }

    /// Older messages are asked for, unless they have been already.
    pub open spec fn older_requested(self) -> AppModel {
        match self.current_chat() {
            Some(chat_id) => if self.loading_older || self.messages.len() == 0 {
                self
            } else {
                AppModel { loading_older: true, ..self }.saying(
                    "Loading older messages…"@,
                ).sending(
                    CommandView::LoadOlder { chat_id, before_id: self.messages[0].id },
                )
            },
            None => self,
        }
    }

    /// Down by `n`, as far as there is room.
    pub open spec fn moved_down(self, n: int) -> AppModel {
        match self.focus {
            Focus::ChatList => self.chat_opened(
                if self.chat_cursor + n <= last_index(self.chats.len()) {
                    self.chat_cursor + n
                } else {
                    last_index(self.chats.len())
                },
            ),
            Focus::Messages => AppModel {
                msg_cursor: if self.msg_cursor + n <= last_index(self.messages.len()) {
                    self.msg_cursor + n
                } else {
                    last_index(self.messages.len())
                },
                ..self
            },
            Focus::Input => self,
        }
    }

    /// Up by `n`; at the first message older ones are asked for.
    pub open spec fn moved_up(self, n: int) -> AppModel {
        match self.focus {
            Focus::ChatList => self.chat_opened(
                if self.chat_cursor >= n {
                    self.chat_cursor - n
                } else {
                    0
                },
            ),
            Focus::Messages => if self.msg_cursor == 0 {
                self.older_requested()
            } else {
                AppModel {
                    msg_cursor: if self.msg_cursor >= n {
                        self.msg_cursor - n
                    } else {
                        0
                    },
                    ..self
                }
            },
            Focus::Input => self,
        }
    }

    /// To the top; at the first message older ones are asked for.
    pub open spec fn at_top(self) -> AppModel {
        match self.focus {
            Focus::ChatList => self.chat_opened(0),
            Focus::Messages => if self.msg_cursor == 0 {
                self.older_requested()
            } else {
                AppModel { msg_cursor: 0, ..self }
            },
            Focus::Input => self,
        }
    }

    /// To the bottom.
    pub open spec fn at_bottom(self) -> AppModel {
        match self.focus {
            Focus::ChatList => self.chat_opened(last_index(self.chats.len())),
            Focus::Messages => AppModel { msg_cursor: last_index(self.messages.len()), ..self },
            Focus::Input => self,
        }
    }

    /// Whether no chat is open, or the composer holds nothing but white space.
    pub open spec fn has_nothing_to_send(self) -> bool {
        self.current_chat() is None || blank(join_lines(self.input.lines))
    }

    /// What the composer holds is sent to the open chat, as an edit or as a
    /// message, and the composer and the draft are emptied. Nothing is sent
    /// if it is blank or no chat is open.
    pub open spec fn input_sent(self) -> AppModel {
        let text = join_lines(self.input.lines);
        match self.current_chat() {
            Some(chat_id) => if blank(text) {
                self
            } else {
                let m = match self.editing {
                    Some(edit) => AppModel { editing: None, ..self }.sending(
                        CommandView::Edit { chat_id, msg_id: edit.msg_id, text },
                    ),
                    None => AppModel { replying_to: None, ..self }.sending(
                        CommandView::Send {
                            chat_id,
                            text,
                            reply_to: match self.replying_to {
                                Some(r) => Some(r.msg_id),
                                None => None,
                            },
                        },
                    ),
                };
                AppModel {
                    input: ComposerView::empty(),
                    drafts: self.drafts.remove(chat_id),
                    ..m
                }
            },
            None => self,
        }
    }

    /// An answer to the selected message is begun, or given up. An edit is
    /// given up for it.
    pub open spec fn reply_toggled(self) -> AppModel {
        if self.replying_to is Some {
            AppModel { replying_to: None, ..self }
        } else {
            match self.selected() {
                None => self,
                Some(msg) => AppModel {
                    replying_to: Some(
                        ReplyView {
                            msg_id: msg.id,
                            sender: msg.sender,
                            preview: shortened(first_line(msg.text), 60),
                        },
                    ),
                    editing: None,
                    input: if self.editing is Some {
                        ComposerView::empty()
                    } else {
                        self.input
                    },
                    ..self
                }.inserting(),
            }
        }
    }

    /// The selected message is to be deleted. It is taken off the list at
    /// once; if it cannot be deleted, it comes back when the list is loaded
    /// again.
    pub open spec fn selected_deleted(self) -> AppModel {
        match (self.selected(), self.current_chat()) {
            (Some(msg), Some(chat_id)) => {
                let messages = self.messages.remove(self.msg_cursor);
                AppModel {
                    messages,
                    msg_cursor: if self.msg_cursor >= messages.len() {
                        last_index(messages.len())
                    } else {
                        self.msg_cursor
                    },
                    ..self
                }.sending(CommandView::Delete { chat_id, ids: seq![msg.id] }).saying("Deleted"@)
            },
            _ => self,
        }
    }

    /// The message that the selected one answers is selected, if it has been
    /// loaded.
    pub open spec fn reply_target_selected(self) -> AppModel {
        match self.selected() {
            None => self,
            Some(msg) => match msg.reply_to_id {
                None => self.saying("Not a reply"@),
                Some(rid) => {
                    let at = first_index(self.messages, message_is(rid));
                    if at < self.messages.len() {
                        AppModel { msg_cursor: at, ..self }.saying("→ reply target"@)
                    } else {
                        self.saying("Reply target is older than loaded history"@)
                    }
                },
            },
        }
    }

    /// An edit of the selected message is begun, with its text in the
    /// composer, or given up. An answer is given up for it.
    pub open spec fn edit_toggled(self) -> AppModel {
        if self.editing is Some {
            AppModel { editing: None, input: ComposerView::empty(), ..self }
        } else {
            match self.selected() {
                None => self,
                Some(msg) => if !msg.outgoing {
                    self.saying("Can only edit your own messages"@)
                } else {
                    AppModel {
                        editing: Some(EditTarget { msg_id: msg.id }),
                        replying_to: None,
                        input: ComposerView::at_end(split_lines(msg.text)),
                        ..self
                    }.inserting()
                },
            }
        }
    }

    /// The media of the selected message is opened, or fetched first.
    pub open spec fn selected_viewed(self) -> AppModel {
        match self.selected() {
            None => self,
            Some(msg) => match msg.media_kind {
                None => self.saying("No media on this message"@),
                Some(MediaKind::Document) | Some(MediaKind::Other) => self.saying(
                    "Media type not viewable"@,
                ),
                Some(kind) => match msg.media_path {
                    Some(path) => self.opening(Some(kind), path),
                    None => match self.current_chat() {
                        None => self,
                        Some(chat_id) => AppModel {
                            pending_view: Some((chat_id, msg.id)),
                            ..self
                        }.sending(
                            CommandView::FetchMedia { chat_id, msg_id: msg.id },
                        ).saying(
                            if kind == MediaKind::Video {
                                "Downloading video…"@
                            } else {
                                "Downloading…"@
                            },
                        ),
                    },
                },
            },
        }
    }

    // ---- Keys ----

    /// A key in normal mode that does not complete a sequence.
    pub open spec fn single_key(self, key: KeyEvent) -> AppModel {
        let k = key.code;
        let on_messages = self.focus == Focus::Messages;
        if k == KeyCode::Char('q') {
            self.quitting()
        } else if k == KeyCode::Char('?') {
            self.help_toggled()
        } else if k == KeyCode::Tab || (k == KeyCode::Char('w') && key.ctrl) {
            self.focus_cycled()
        } else if k == KeyCode::Char('j') || k == KeyCode::Down {
            self.moved_down(1)
        } else if k == KeyCode::Char('k') || k == KeyCode::Up {
            self.moved_up(1)
        } else if k == KeyCode::Char('h') || k == KeyCode::Left {
            AppModel {
                focus: if on_messages {
                    Focus::ChatList
                } else {
                    self.focus
                },
                ..self
            }
        } else if k == KeyCode::Char('l') || k == KeyCode::Right {
            AppModel {
                focus: if self.focus == Focus::ChatList {
                    Focus::Messages
                } else {
                    self.focus
                },
                ..self
            }
        } else if k == KeyCode::Char('d') && key.ctrl {
            self.moved_down(10)
        } else if k == KeyCode::Char('d') && on_messages {
            AppModel { pending_key: Some('d'), ..self }
        } else if k == KeyCode::Char('u') && key.ctrl {
            self.moved_up(10)
        } else if k == KeyCode::Char('f') && key.ctrl {
            self.moved_down(20)
        } else if k == KeyCode::Char('b') && key.ctrl {
            self.moved_up(20)
        } else if k == KeyCode::Char('G') {
            self.at_bottom()
        } else if k == KeyCode::Char('g') {
            AppModel { pending_key: Some('g'), ..self }
        } else if k == KeyCode::Char('i') || k == KeyCode::Enter {
            self.inserting()
        } else if k == KeyCode::Char('r') && on_messages {
            self.reply_toggled()
        } else if k == KeyCode::Char('e') && on_messages {
            self.edit_toggled()
        } else if k == KeyCode::Char('v') && on_messages {
            self.selected_viewed()
        } else if k == KeyCode::Char('/') {
            self.fuzzy_opened(
                if on_messages {
                    FuzzyTarget::Messages
                } else {
                    FuzzyTarget::ChatList
                },
            )
        } else if k == KeyCode::Char('p') && key.ctrl {
            self.fuzzy_opened(FuzzyTarget::GlobalSwitcher)
        } else {
            self
        }
    }

    /// A key in normal mode: the sequences `gg`, `gd` and `dd`, then single
    /// keys. A key that does not complete a sequence ends it and counts by
    /// itself.
    pub open spec fn normal_key(self, key: KeyEvent) -> AppModel {
        let on_messages = self.focus == Focus::Messages;
        let after_g = self.pending_key == Some('g');
        let after_d = self.pending_key == Some('d');
        let m = if after_g || after_d {
            AppModel { pending_key: None, ..self }
        } else {
            self
        };
        if after_g && key.code == KeyCode::Char('g') {
            m.at_top()
        } else if after_g && key.code == KeyCode::Char('d') && on_messages {
            m.reply_target_selected()
        } else if after_d && key.code == KeyCode::Char('d') && on_messages {
            m.selected_deleted()
        } else {
            m.single_key(key)
        }
    }

    /// A key in insert mode; `typed` is what the composer makes of it.
    pub open spec fn insert_key(self, key: KeyEvent, now: u64, typed: ComposerView) -> AppModel {
        if key.code == KeyCode::Esc {
            self.back_to_normal()
        } else if key.code == KeyCode::Enter && !key.ctrl {
            self.input_sent()
        } else if key.code == KeyCode::Char('w') && key.ctrl {
            self.focus_cycled()
        } else {
            AppModel { input: typed, ..self }.typing_told(now)
        }
    }

    /// Whether a key in insert mode is typed into the composer.
    pub open spec fn insert_types(self, key: KeyEvent) -> bool {
        &&& key.code != KeyCode::Esc
        &&& !(key.code == KeyCode::Enter && !key.ctrl)
        &&& !(key.code == KeyCode::Char('w') && key.ctrl)
    }

    /// Whether a key in insert mode neither types nor sends.
    pub open spec fn insert_leaves_composer(self, key: KeyEvent) -> bool {
        ||| key.code == KeyCode::Esc
        ||| key.code == KeyCode::Enter && !key.ctrl && self.has_nothing_to_send()
        ||| key.code == KeyCode::Char('w') && key.ctrl
    }

    /// With another picker.
    pub open spec fn picking(self, p: FuzzyView) -> AppModel {
        AppModel { fuzzy: Some(p), ..self }
    }

    /// A key in search mode.
    pub open spec fn search_key(self, key: KeyEvent) -> AppModel {
        let k = key.code;
        match self.fuzzy {
            None => AppModel { mode: Mode::Normal, ..self },
            Some(p) => if k == KeyCode::Esc {
                self.fuzzy_closed()
            } else if k == KeyCode::Enter {
                self.fuzzy_confirmed()
            } else if k == KeyCode::Down || (key.ctrl && (k == KeyCode::Char('n') || k
                == KeyCode::Char('j'))) {
                self.picking(p.moved(1))
            } else if k == KeyCode::Up || (key.ctrl && (k == KeyCode::Char('p') || k
                == KeyCode::Char('k'))) {
                self.picking(p.moved(-1))
            } else if k == KeyCode::Backspace {
                self.picking(p.erased())
            } else {
                match k {
                    KeyCode::Char(c) => self.picking(p.typed(c)),
                    _ => self,
                }
            },
        }
    }

    /// A key while the help is on show.
    pub open spec fn help_key(self, key: KeyEvent) -> AppModel {
        if key.code == KeyCode::Esc || key.code == KeyCode::Char('q') || key.code
            == KeyCode::Char('?') {
            self.help_toggled()
        } else {
            self
        }
    }

    /// What a key does; `typed` is what the composer would make of it. While
    /// an image is on show, keys only close it.
    pub open spec fn key_pressed(self, key: KeyEvent, now: u64, typed: ComposerView) -> AppModel {
        if self.image_viewer is Some {
            if key.code == KeyCode::Esc || key.code == KeyCode::Char('q') || key.code
                == KeyCode::Char('v') {
                AppModel { image_viewer: None, ..self }
            } else {
                self
            }
        } else {
            match self.mode {
                Mode::Normal => self.normal_key(key),
                Mode::Insert => self.insert_key(key, now, typed),
                Mode::Search => self.search_key(key),
                Mode::Help => self.help_key(key),
            }
        }
    }

    /// Whether a key is typed into the composer.
    pub open spec fn types(self, key: KeyEvent) -> bool {
        &&& self.image_viewer is None
        &&& self.mode == Mode::Insert
        &&& self.insert_types(key)
    }

    /// Whether a key leaves the composer alone: nothing is typed, nothing is
    /// sent, no other chat is opened and no edit is begun or given up.
    pub open spec fn leaves_composer(self, key: KeyEvent) -> bool {
        self.image_viewer is Some || match self.mode {
            Mode::Normal => {
                &&& self.normal_key(key).chat_cursor == self.chat_cursor
                &&& self.normal_key(key).editing == self.editing
            },
            Mode::Insert => self.insert_leaves_composer(key),
            Mode::Search => self.search_key(key).chat_cursor == self.chat_cursor,
            Mode::Help => true,
        }
    }
}

} // verus!
