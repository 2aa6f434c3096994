//! What holds of the program as a whole, proved of the transitions of
//! [`AppModel`].

use crate::app::{Focus, Mode};
use crate::event::EventView;
use crate::fuzzy::{lemma_ranking_len, picker_stays_consistent, FuzzyTarget, FuzzyView};
use crate::input::{ComposerView, KeyCode, KeyEvent};
use crate::model::{
    chat_row, last_index, message_row, AppModel, TaskView, TYPING_INTERVAL, TYPING_SHOWN,
};
use crate::telegram::{
    chat_is, message_is, message_not_in, ChatView, CommandView, MediaKind, MessageView, TgEventView,
};
use crate::text::{
    blank, first_index, join_lines, join_undoes_split, lemma_first_index, split_undoes_join,
};
use std::path::PathBuf;
use vstd::prelude::*;

verus! {

impl AppModel {
    /// Mode and pane agree, the picker is open exactly in search mode and
    /// shows what matches, no message is answered and edited at once, and a
    /// sequence of keys can only have begun with `g` or `d`.
    pub open spec fn settled(self) -> bool {
        &&& self.mode == Mode::Insert <==> self.focus == Focus::Input
        &&& self.mode == Mode::Search <==> self.fuzzy is Some
        &&& self.fuzzy matches Some(p) ==> p.consistent()
        &&& !(self.replying_to is Some && self.editing is Some)
        &&& self.pending_key is None || self.pending_key == Some('g') || self.pending_key == Some(
            'd',
        )
    }

    /// Both cursors are on something, or at 0 where there is nothing.
    pub open spec fn cursors_in_range(self) -> bool {
        &&& 0 <= self.chat_cursor <= last_index(self.chats.len())
        &&& 0 <= self.msg_cursor <= last_index(self.messages.len())
    }

    /// The row that the picker has highlighted is still there.
    pub open spec fn picker_is_fresh(self) -> bool {
        match self.fuzzy {
            None => true,
            Some(p) => match p.selected() {
                None => true,
                Some(i) => match p.target {
                    FuzzyTarget::Messages => i < self.messages.len(),
                    _ => i < self.chats.len(),
                },
            },
        }
    }

    /// A list that a program can hold.
    pub open spec fn fits(self) -> bool {
        self.chats.len() <= usize::MAX && self.messages.len() <= usize::MAX
    }

    /// Whether the keys go to the panes: no image and nothing else is on top.
    pub open spec fn in_normal(self) -> bool {
        self.image_viewer is None && self.mode == Mode::Normal
    }
}

/// A key with no modifier held.
pub open spec fn plain(c: char) -> KeyEvent {
    KeyEvent { code: KeyCode::Char(c), ctrl: false, alt: false, shift: false }
}

/// The program starts settled, with both cursors in range.
pub proof fn start_is_settled(sent: Seq<CommandView>, player_argv: Seq<Seq<char>>)
    ensures
        AppModel::started(sent, player_argv).settled(),
        AppModel::started(sent, player_argv).cursors_in_range(),
{
}

/// Opening a picker shows what matches.
proof fn lemma_opened_consistent(m: AppModel, target: FuzzyTarget)
    requires
        m.fits(),
    ensures
        FuzzyView::opened(target, m.rows(target)).consistent(),
{
    lemma_ranking_len(m.rows(target), Seq::empty());
}

/// An event, when it happens, and what the composer would make of it if it is
/// a key.
pub struct Moment {
    pub ev: EventView,
    pub now: u64,
    pub typed: ComposerView,
}

impl AppModel {
    /// The state after a number of events.
    pub open spec fn ran(self, moments: Seq<Moment>) -> AppModel
        decreases moments.len(),
    {
        if moments.len() == 0 {
            self
        } else {
            let last = moments.last();
            self.ran(moments.drop_last()).stepped(last.ev, last.now, last.typed)
        }
    }
}

proof fn lemma_step_settled(m: AppModel, moment: Moment)
    requires
        m.settled(),
        m.fits(),
    ensures
        m.stepped(moment.ev, moment.now, moment.typed).settled(),
{
    match moment.ev {
        EventView::Key(key) => {
            keys_keep_it_settled(m, key, moment.now, moment.typed);
        },
        EventView::Tg(ev) => {
            events_keep_it_settled(m, ev, moment.now);
        },
        EventView::Tick => {
            events_keep_it_settled(m, TgEventView::Connected, moment.now);
        },
        EventView::Resize(_, _) => {},
    }
}

/// Whatever happens, the program is settled.
pub proof fn every_state_is_settled(
    sent: Seq<CommandView>,
    player_argv: Seq<Seq<char>>,
    moments: Seq<Moment>,
)
    requires
        forall|n: int|
            0 <= n < moments.len() ==> AppModel::started(sent, player_argv).ran(
                #[trigger] moments.take(n),
            ).fits(),
    ensures
        AppModel::started(sent, player_argv).ran(moments).settled(),
    decreases moments.len(),
{
    if moments.len() > 0 {
        let before = moments.drop_last();
        let n = before.len() as int;
        assert(moments.take(n) =~= before);
        assert forall|k: int| 0 <= k < n implies AppModel::started(sent, player_argv).ran(
            #[trigger] before.take(k),
        ).fits() by {
            assert(before.take(k) =~= moments.take(k));
        }
        every_state_is_settled(sent, player_argv, before);
        let m = AppModel::started(sent, player_argv).ran(before);
        lemma_step_settled(m, moments.last());
    }
}

/// A chat is opened without a change of mode, pane or picker.
proof fn lemma_chat_opened(m: AppModel, new: int)
    ensures
        m.chat_opened(new).mode == m.mode,
        m.chat_opened(new).focus == m.focus,
        m.chat_opened(new).fuzzy == m.fuzzy,
        m.chat_opened(new).pending_key == m.pending_key,
        m.chat_opened(new).chat_cursor == new,
        m.chat_opened(new).chats.len() == m.chats.len(),
        new != m.chat_cursor ==> m.chat_opened(new).replying_to is None,
        new != m.chat_cursor ==> m.chat_opened(new).editing is None,
        new != m.chat_cursor ==> m.chat_opened(new).messages.len() == 0,
        new != m.chat_cursor ==> m.chat_opened(new).msg_cursor == 0,
        new == m.chat_cursor ==> m.chat_opened(new) == m,
{
}

proof fn lemma_moves_settled(m: AppModel, n: int)
    requires
        m.settled(),
    ensures
        m.moved_down(n).settled(),
        m.moved_up(n).settled(),
        m.at_top().settled(),
        m.at_bottom().settled(),
{
    lemma_chat_opened(
        m,
        if m.chat_cursor + n <= last_index(m.chats.len()) {
            m.chat_cursor + n
        } else {
            last_index(m.chats.len())
        },
    );
    lemma_chat_opened(
        m,
        if m.chat_cursor >= n {
            m.chat_cursor - n
        } else {
            0
        },
    );
    lemma_chat_opened(m, 0);
    lemma_chat_opened(m, last_index(m.chats.len()));
}

proof fn lemma_actions_settled(m: AppModel)
    requires
        m.settled(),
        m.mode == Mode::Normal,
    ensures
        m.quitting().settled(),
        m.help_toggled().settled(),
        m.focus_cycled().settled(),
        m.inserting().settled(),
        m.reply_toggled().settled(),
        m.edit_toggled().settled(),
        m.selected_viewed().settled(),
        m.selected_deleted().settled(),
        m.reply_target_selected().settled(),
{
}

proof fn lemma_single_key_settled(m: AppModel, key: KeyEvent)
    requires
        m.settled(),
        m.fits(),
        m.mode == Mode::Normal,
    ensures
        m.single_key(key).settled(),
{
    lemma_opened_consistent(m, FuzzyTarget::ChatList);
    lemma_opened_consistent(m, FuzzyTarget::Messages);
    lemma_opened_consistent(m, FuzzyTarget::GlobalSwitcher);
    lemma_actions_settled(m);
    lemma_moves_settled(m, 1);
    lemma_moves_settled(m, 10);
    lemma_moves_settled(m, 20);
}

proof fn lemma_normal_key_settled(m: AppModel, key: KeyEvent)
    requires
        m.settled(),
        m.fits(),
        m.mode == Mode::Normal,
    ensures
        m.normal_key(key).settled(),
{
    let n = AppModel { pending_key: None, ..m };
    lemma_actions_settled(n);
    lemma_moves_settled(n, 1);
    lemma_single_key_settled(n, key);
    lemma_single_key_settled(m, key);
}

proof fn lemma_search_key_settled(m: AppModel, key: KeyEvent)
    requires
        m.settled(),
        m.mode == Mode::Search,
    ensures
        m.search_key(key).settled(),
{
    if let Some(p) = m.fuzzy {
        picker_stays_consistent(p, 1);
        picker_stays_consistent(p, -1);
        if let Some(i) = p.selected() {
            lemma_chat_opened(m, i as int);
        }
    }
}

/// Every key leaves the program settled.
pub proof fn keys_keep_it_settled(m: AppModel, key: KeyEvent, now: u64, typed: ComposerView)
    requires
        m.settled(),
        m.fits(),
    ensures
        m.key_pressed(key, now, typed).settled(),
{
    match m.mode {
        Mode::Normal => {
            lemma_normal_key_settled(m, key);
        },
        Mode::Insert => {
            assert(m.insert_key(key, now, typed).settled());
        },
        Mode::Search => {
            lemma_search_key_settled(m, key);
        },
        Mode::Help => {},
    }
}

/// An event that is taken in without a change of mode, pane, picker, or
/// what is being written.
spec fn same_stance(a: AppModel, b: AppModel) -> bool {
    &&& a.mode == b.mode
    &&& a.focus == b.focus
    &&& a.fuzzy == b.fuzzy
    &&& a.replying_to == b.replying_to
    &&& a.editing == b.editing
    &&& a.pending_key == b.pending_key
}

proof fn lemma_messages_keep_stance(m: AppModel, chat_id: Seq<char>, message: MessageView)
    ensures
        same_stance(m.message_arrived(chat_id, message), m),
        same_stance(m.message_edited(chat_id, message), m),
{
}

proof fn lemma_deletion_keeps_stance(m: AppModel, chat_id: Option<Seq<char>>, ids: Seq<u64>)
    ensures
        same_stance(m.messages_deleted(chat_id, ids), m),
{
}

proof fn lemma_fetch_keeps_stance(m: AppModel, chat_id: Seq<char>, msg_id: u64, path: PathBuf)
    ensures
        same_stance(m.media_fetched(chat_id, msg_id, path), m),
{
}

proof fn lemma_lists_keep_stance(
    m: AppModel,
    chat_id: Seq<char>,
    chats: Seq<ChatView>,
    messages: Seq<MessageView>,
)
    ensures
        same_stance(m.chats_loaded(chats), m),
        same_stance(m.messages_loaded(chat_id, messages), m),
        same_stance(m.older_loaded(chat_id, messages), m),
{
}

/// Every event and every tick leaves the program settled.
pub proof fn events_keep_it_settled(m: AppModel, ev: TgEventView, now: u64)
    requires
        m.settled(),
    ensures
        m.told(ev, now).settled(),
        m.ticked(now).settled(),
{
    match ev {
        TgEventView::ChatsLoaded(chats) => {
            lemma_lists_keep_stance(m, Seq::empty(), chats, Seq::empty());
        },
        TgEventView::MessagesLoaded { chat_id, messages } => {
            lemma_lists_keep_stance(m, chat_id, Seq::empty(), messages);
        },
        TgEventView::OlderMessagesLoaded { chat_id, messages } => {
            lemma_lists_keep_stance(m, chat_id, Seq::empty(), messages);
        },
        TgEventView::NewMessage { chat_id, message } => {
            lemma_messages_keep_stance(m, chat_id, message);
        },
        TgEventView::MessageEdited { chat_id, message } => {
            lemma_messages_keep_stance(m, chat_id, message);
        },
        TgEventView::MessageDeleted { chat_id, ids } => {
            lemma_deletion_keeps_stance(m, chat_id, ids);
        },
        TgEventView::MediaFetched { chat_id, msg_id, path } => {
            lemma_fetch_keeps_stance(m, chat_id, msg_id, path);
        },
        _ => {},
    }
}

proof fn lemma_moves_in_range(m: AppModel, n: int)
    requires
        m.cursors_in_range(),
        n >= 0,
    ensures
        m.moved_down(n).cursors_in_range(),
        m.moved_up(n).cursors_in_range(),
        m.at_top().cursors_in_range(),
        m.at_bottom().cursors_in_range(),
{
    lemma_chat_opened(
        m,
        if m.chat_cursor + n <= last_index(m.chats.len()) {
            m.chat_cursor + n
        } else {
            last_index(m.chats.len())
        },
    );
    lemma_chat_opened(
        m,
        if m.chat_cursor >= n {
            m.chat_cursor - n
        } else {
            0
        },
    );
    lemma_chat_opened(m, 0);
    lemma_chat_opened(m, last_index(m.chats.len()));
}

proof fn lemma_actions_in_range(m: AppModel)
    requires
        m.cursors_in_range(),
    ensures
        m.quitting().cursors_in_range(),
        m.help_toggled().cursors_in_range(),
        m.focus_cycled().cursors_in_range(),
        m.inserting().cursors_in_range(),
        m.reply_toggled().cursors_in_range(),
        m.edit_toggled().cursors_in_range(),
        m.selected_viewed().cursors_in_range(),
        m.selected_deleted().cursors_in_range(),
        m.reply_target_selected().cursors_in_range(),
        m.input_sent().cursors_in_range(),
        m.back_to_normal().cursors_in_range(),
{
    if let Some(msg) = m.selected() {
        if let Some(id) = msg.reply_to_id {
            lemma_first_index(m.messages, message_is(id));
        }
    }
}

proof fn lemma_single_key_in_range(m: AppModel, key: KeyEvent)
    requires
        m.cursors_in_range(),
    ensures
        m.single_key(key).cursors_in_range(),
{
    lemma_actions_in_range(m);
    lemma_moves_in_range(m, 1);
    lemma_moves_in_range(m, 10);
    lemma_moves_in_range(m, 20);
}

proof fn lemma_normal_key_in_range(m: AppModel, key: KeyEvent)
    requires
        m.cursors_in_range(),
    ensures
        m.normal_key(key).cursors_in_range(),
{
    let n = AppModel { pending_key: None, ..m };
    lemma_actions_in_range(n);
    lemma_moves_in_range(n, 1);
    lemma_single_key_in_range(n, key);
    lemma_single_key_in_range(m, key);
}

proof fn lemma_search_key_in_range(m: AppModel, key: KeyEvent)
    requires
        m.cursors_in_range(),
        m.picker_is_fresh(),
    ensures
        m.search_key(key).cursors_in_range(),
{
    if let Some(p) = m.fuzzy {
        if let Some(i) = p.selected() {
            lemma_chat_opened(m, i as int);
        }
    }
}

/// Every key leaves the cursors in range, but for the confirmation of a
/// picker whose row has gone since it was opened.
pub proof fn keys_keep_cursors_in_range(m: AppModel, key: KeyEvent, now: u64, typed: ComposerView)
    requires
        m.cursors_in_range(),
        m.picker_is_fresh(),
    ensures
        m.key_pressed(key, now, typed).cursors_in_range(),
{
    match m.mode {
        Mode::Normal => {
            lemma_normal_key_in_range(m, key);
        },
        Mode::Insert => {
            lemma_actions_in_range(m);
            assert(m.insert_key(key, now, typed).cursors_in_range());
        },
        Mode::Search => {
            lemma_search_key_in_range(m, key);
        },
        Mode::Help => {},
    }
}

/// Every event leaves the cursors in range, but for older messages that come
/// when none is on show any more.
pub proof fn events_keep_cursors_in_range(m: AppModel, ev: TgEventView, now: u64)
    requires
        m.cursors_in_range(),
        ev matches TgEventView::OlderMessagesLoaded { .. } ==> m.messages.len() > 0,
    ensures
        m.told(ev, now).cursors_in_range(),
{
    match ev {
        TgEventView::ChatsLoaded(chats) => {
            if let Some(id) = m.current_chat() {
                lemma_first_index(chats, chat_is(id));
            }
            assert(m.chats_loaded(chats).cursors_in_range());
        },
        TgEventView::NewMessage { chat_id, message } => {
            lemma_first_index(m.chats, chat_is(chat_id));
            assert(m.message_arrived(chat_id, message).cursors_in_range());
        },
        TgEventView::MessageEdited { chat_id, message } => {
            lemma_first_index(m.chats, chat_is(chat_id));
            lemma_first_index(m.messages, message_is(message.id));
            assert(m.message_edited(chat_id, message).cursors_in_range());
        },
        TgEventView::MessageDeleted { chat_id, ids } => {
            if let Some(id) = m.current_chat() {
                lemma_first_index(m.chats, chat_is(id));
            }
            assert(m.messages_deleted(chat_id, ids).cursors_in_range());
        },
        TgEventView::MediaFetched { chat_id, msg_id, path } => {
            lemma_first_index(m.messages, message_is(msg_id));
            assert(m.media_fetched(chat_id, msg_id, path).cursors_in_range());
        },
        _ => {},
    }
}

// ---- Chats ----

/// A new message leaves the open chat open.
pub proof fn new_message_keeps_open_chat(m: AppModel, chat_id: Seq<char>, message: MessageView)
    requires
        m.cursors_in_range(),
    ensures
        m.message_arrived(chat_id, message).current_chat() == m.current_chat(),
{
    lemma_first_index(m.chats, chat_is(chat_id));
}

/// A new message takes its chat to the top and leaves the others in order.
pub proof fn new_message_floats_its_chat(m: AppModel, chat_id: Seq<char>, message: MessageView)
    requires
        first_index(m.chats, chat_is(chat_id)) < m.chats.len(),
    ensures
        m.message_arrived(chat_id, message).chats.len() == m.chats.len(),
        m.message_arrived(chat_id, message).chats[0].id == chat_id,
        m.message_arrived(chat_id, message).chats.skip(1) == m.chats.remove(
            first_index(m.chats, chat_is(chat_id)),
        ),
{
    lemma_first_index(m.chats, chat_is(chat_id));
    assert(m.message_arrived(chat_id, message).chats.skip(1) =~= m.chats.remove(
        first_index(m.chats, chat_is(chat_id)),
    ));
}

/// Opening a chat clears its unread count and asks for its messages.
pub proof fn opening_a_chat_clears_unread(m: AppModel, new: int)
    requires
        0 <= new < m.chats.len(),
        new != m.chat_cursor,
    ensures
        m.chat_opened(new).chats[new].unread == 0,
        m.chat_opened(new).current_chat() == Some(m.chats[new].id),
        m.chat_opened(new).sent == m.sent.push(CommandView::LoadMessages(m.chats[new].id)),
{
}

/// A message of another, in a chat that is not open, adds one to the unread
/// count of that chat, and no message changes the count of any other chat.
pub proof fn others_messages_are_unread(
    m: AppModel,
    chat_id: Seq<char>,
    message: MessageView,
    at: int,
    other: int,
)
    requires
        0 <= at < m.chats.len(),
        at == first_index(m.chats, chat_is(chat_id)),
        m.chats[at].unread < u32::MAX,
        0 <= other < m.chats.len(),
        other != at,
    ensures
        m.current_chat() != Some(chat_id) && !message.outgoing ==> m.message_arrived(
            chat_id,
            message,
        ).chats[0].unread == m.chats[at].unread + 1,
        m.message_arrived(chat_id, message).chats[if other < at {
            other + 1
        } else {
            other
        }] == m.chats[other],
{
    lemma_first_index(m.chats, chat_is(chat_id));
}

/// A message of the open chat, or one of the user's own, is never unread.
pub proof fn own_and_open_messages_are_read(
    m: AppModel,
    chat_id: Seq<char>,
    message: MessageView,
    at: int,
)
    requires
        0 <= at < m.chats.len(),
        at == first_index(m.chats, chat_is(chat_id)),
        m.current_chat() == Some(chat_id) || message.outgoing,
    ensures
        m.message_arrived(chat_id, message).chats[0].unread == m.chats[at].unread,
{
}

/// A reload keeps the open chat open if it is still in the list.
pub proof fn reload_keeps_open_chat(m: AppModel, chats: Seq<ChatView>, id: Seq<char>)
    requires
        m.current_chat() == Some(id),
        exists|i: int| 0 <= i < chats.len() && (#[trigger] chats[i]).id == id,
    ensures
        m.chats_loaded(chats).current_chat() == Some(id),
{
    lemma_first_index(chats, chat_is(id));
    let i = choose|i: int| 0 <= i < chats.len() && (#[trigger] chats[i]).id == id;
    assert(chat_is(id)(chats[i]));
}

// ---- Drafts ----

/// What is in the composer when a chat is left is there again when it is
/// opened again, with the cursor at the end. No line of a composer holds a line
/// feed.
pub proof fn drafts_come_back(m: AppModel, other: int)
    requires
        0 <= m.chat_cursor < m.chats.len(),
        0 <= other < m.chats.len(),
        m.chats[other].id != m.chats[m.chat_cursor].id,
        !m.input.is_empty(),
        m.input.feedless(),
    ensures
        m.chat_opened(other).chat_opened(m.chat_cursor).input == ComposerView::at_end(
            m.input.lines,
        ),
        m.chat_opened(other).chat_opened(m.chat_cursor).input.lines == m.input.lines,
        m.chat_opened(other).chat_opened(m.chat_cursor).chat_cursor == m.chat_cursor,
{
    split_undoes_join(m.input.lines);
}

/// However the state has changed since, a chat is opened with the draft that
/// was kept for it, and leaving a chat keeps the drafts of all others.
pub proof fn drafts_are_kept_apart(m: AppModel, other: int, k: Seq<char>)
    requires
        0 <= m.chat_cursor < m.chats.len(),
        0 <= other < m.chats.len(),
        other != m.chat_cursor,
    ensures
        k != m.chats[m.chat_cursor].id && m.drafts.contains_key(k) ==> m.chat_opened(
            other,
        ).drafts.contains_key(k) && m.chat_opened(other).drafts[k] == m.drafts[k],
        !m.input.is_empty() ==> m.chat_opened(other).drafts.contains_key(
            m.chats[m.chat_cursor].id,
        ) && m.chat_opened(other).drafts[m.chats[m.chat_cursor].id] == m.input.lines,
        m.input.is_empty() ==> !m.chat_opened(other).drafts.contains_key(
            m.chats[m.chat_cursor].id,
        ),
{
}

/// An answer or an edit ends when another chat is opened.
pub proof fn opening_a_chat_ends_compose_states(m: AppModel, new: int)
    requires
        new != m.chat_cursor,
    ensures
        m.chat_opened(new).replying_to is None,
        m.chat_opened(new).editing is None,
        m.chat_opened(new).messages.len() == 0,
        !m.chat_opened(new).loading_older,
{
}

// ---- Sending ----

/// Sending empties the composer and the draft of the chat, and sends one
/// command that holds the text.
pub proof fn sending_clears_composer_and_draft(m: AppModel, chat_id: Seq<char>)
    requires
        m.current_chat() == Some(chat_id),
        !blank(join_lines(m.input.lines)),
    ensures
        m.input_sent().input == ComposerView::empty(),
        !m.input_sent().drafts.contains_key(chat_id),
        m.input_sent().sent.len() == m.sent.len() + 1,
        m.editing is None ==> m.input_sent().sent.last() == (CommandView::Send {
            chat_id,
            text: join_lines(m.input.lines),
            reply_to: match m.replying_to {
                Some(r) => Some(r.msg_id),
                None => None,
            },
        }),
        m.editing is None ==> m.input_sent().replying_to is None,
        m.input_sent().editing is None,
{
}

/// Nothing but white space is never sent.
pub proof fn blank_input_is_not_sent(m: AppModel)
    requires
        blank(join_lines(m.input.lines)),
    ensures
        m.input_sent() == m,
{
}

/// An edit that is sent unchanged sends the text of the message as it was.
pub proof fn unchanged_edit_keeps_the_text(m: AppModel, chat_id: Seq<char>, msg: MessageView)
    requires
        m.selected() == Some(msg),
        m.current_chat() == Some(chat_id),
        m.editing is None,
        msg.outgoing,
        !blank(msg.text),
    ensures
        m.edit_toggled().input_sent().sent == m.sent.push(
            CommandView::Edit { chat_id, msg_id: msg.id, text: msg.text },
        ),
{
    join_undoes_split(msg.text);
}

/// An answer names the message that was selected when it was begun.
pub proof fn reply_names_the_selected_message(
    m: AppModel,
    chat_id: Seq<char>,
    msg: MessageView,
    typed: ComposerView,
)
    requires
        m.selected() == Some(msg),
        m.current_chat() == Some(chat_id),
        m.replying_to is None,
        !blank(join_lines(typed.lines)),
    ensures
        (AppModel { input: typed, ..m.reply_toggled() }).input_sent().sent == m.sent.push(
            CommandView::Send { chat_id, text: join_lines(typed.lines), reply_to: Some(msg.id) },
        ),
{
}

/// Beginning an answer gives an edit up, and the other way round.
pub proof fn reply_and_edit_exclude_each_other(m: AppModel)
    requires
        !(m.replying_to is Some && m.editing is Some),
    ensures
        !(m.reply_toggled().replying_to is Some && m.reply_toggled().editing is Some),
        !(m.edit_toggled().replying_to is Some && m.edit_toggled().editing is Some),
{
}

/// The second toggle takes the first back.
pub proof fn toggles_cancel(m: AppModel)
    ensures
        m.replying_to is None ==> m.reply_toggled().reply_toggled().replying_to is None,
        m.editing is None ==> m.edit_toggled().edit_toggled().editing is None,
        m.editing is None && m.edit_toggled().editing is Some
            ==> m.edit_toggled().edit_toggled().input == ComposerView::empty(),
        m.mode == Mode::Normal || m.mode == Mode::Help ==> m.help_toggled().help_toggled() == m,
{
}

/// The panes come round after three steps.
pub proof fn focus_comes_round(f: Focus)
    ensures
        f.next().next().next() == f,
        f.next() != f,
        f.next().next() != f,
{
}

// ---- Messages ----

/// Older messages leave the selected message selected.
pub proof fn older_messages_keep_the_selection(
    m: AppModel,
    chat_id: Seq<char>,
    older: Seq<MessageView>,
)
    requires
        m.messages.len() > 0,
        m.cursors_in_range(),
    ensures
        m.older_loaded(chat_id, older).selected() == m.selected(),
        !m.older_loaded(chat_id, older).loading_older,
{
}

/// A second request for older messages sends nothing while the first is not
/// answered, and once it is answered the next one is sent.
pub proof fn older_messages_are_requested_once(m: AppModel, chat_id: Seq<char>)
    requires
        m.current_chat() == Some(chat_id),
        m.messages.len() > 0,
        !m.loading_older,
    ensures
        m.older_requested().sent == m.sent.push(
            CommandView::LoadOlder { chat_id, before_id: m.messages[0].id },
        ),
        m.older_requested().older_requested() == m.older_requested(),
        forall|id: Seq<char>, older: Seq<MessageView>|
            !(#[trigger] m.older_requested().older_loaded(id, older)).loading_older,
{
}

/// Deleted messages of the open chat are gone, the others are left, and the
/// cursor is on one of them.
pub proof fn deleted_messages_are_gone(m: AppModel, ids: Seq<u64>, i: int)
    requires
        0 <= i < m.messages.len(),
        m.cursors_in_range(),
    ensures
        ids.contains(m.messages[i].id) ==> !m.messages_deleted(None, ids).messages.contains(
            m.messages[i],
        ),
        !ids.contains(m.messages[i].id) ==> m.messages_deleted(None, ids).messages.contains(
            m.messages[i],
        ),
        m.messages_deleted(None, ids).cursors_in_range(),
{
    let p = message_not_in(ids);
    let left = m.messages.filter(p);
    broadcast use vstd::seq_lib::group_filter_ensures;

    if p(m.messages[i]) {
        m.messages.lemma_filter_contains(p, i);
    }
    if let Some(id) = m.current_chat() {
        lemma_first_index(m.chats, chat_is(id));
    }
    if left.contains(m.messages[i]) {
        let j = choose|j: int| 0 <= j < left.len() && left[j] == m.messages[i];
        assert(p(left[j]));
    }
}

/// A list in which everything is kept stays as it is.
proof fn lemma_filter_all(s: Seq<MessageView>, p: spec_fn(MessageView) -> bool)
    requires
        forall|i: int| 0 <= i < s.len() ==> p(#[trigger] s[i]),
    ensures
        s.filter(p) == s,
    decreases s.len(),
{
    reveal(Seq::filter);
    if s.len() > 0 {
        let t = s.drop_last();
        assert forall|i: int| 0 <= i < t.len() implies p(#[trigger] t[i]) by {
            assert(t[i] == s[i]);
        }
        lemma_filter_all(t, p);
        assert(p(s[s.len() - 1]));
        assert(t.push(s.last()) =~= s);
    }
}

/// The message to be deleted is off the list at once, the others are left in
/// order, and the report of the deletion changes the list no more.
pub proof fn deletion_shows_at_once(m: AppModel, chat_id: Seq<char>, msg: MessageView)
    requires
        m.selected() == Some(msg),
        m.current_chat() == Some(chat_id),
        forall|i: int|
            0 <= i < m.messages.len() && i != m.msg_cursor ==> (#[trigger] m.messages[i]).id
                != msg.id,
    ensures
        m.selected_deleted().messages == m.messages.remove(m.msg_cursor),
        m.selected_deleted().messages_deleted(Some(chat_id), seq![msg.id]).messages
            == m.selected_deleted().messages,
        m.selected_deleted().sent == m.sent.push(
            CommandView::Delete { chat_id, ids: seq![msg.id] },
        ),
{
    let left = m.messages.remove(m.msg_cursor);
    let p = message_not_in(seq![msg.id]);
    assert forall|i: int| 0 <= i < left.len() implies p(#[trigger] left[i]) by {
        let o = if i < m.msg_cursor {
            i
        } else {
            i + 1
        };
        assert(left[i] == m.messages[o]);
        assert(m.messages[o].id != msg.id);
        assert forall|k: int| 0 <= k < 1 implies seq![msg.id][k] != left[i].id by {}
    }
    lemma_filter_all(left, p);
    let n = m.selected_deleted();
    assert(n.current_chat() == Some(chat_id));
    lemma_first_index(n.chats, chat_is(chat_id));
}

/// Media that has to be fetched is opened when it comes, and after that it is
/// opened without being fetched again.
pub proof fn fetched_media_is_opened(
    m: AppModel,
    chat_id: Seq<char>,
    msg: MessageView,
    path: PathBuf,
)
    requires
        m.selected() == Some(msg),
        m.current_chat() == Some(chat_id),
        msg.media_kind == Some(MediaKind::Photo) || msg.media_kind == Some(MediaKind::Sticker),
        msg.media_path is None,
        first_index(m.messages, message_is(msg.id)) == m.msg_cursor,
    ensures
        m.selected_viewed().sent == m.sent.push(CommandView::FetchMedia { chat_id, msg_id: msg.id }),
        m.selected_viewed().media_fetched(chat_id, msg.id, path).tasks == m.tasks.push(
            TaskView::OpenImage(path),
        ),
        m.selected_viewed().media_fetched(chat_id, msg.id, path).pending_view is None,
        ({
            let n = m.selected_viewed().media_fetched(chat_id, msg.id, path);
            n.selected_viewed() == AppModel { tasks: n.tasks.push(TaskView::OpenImage(path)), ..n }
        }),
{
}

/// Media that the user does not wait for is not opened.
pub proof fn unawaited_media_is_not_opened(
    m: AppModel,
    chat_id: Seq<char>,
    msg_id: u64,
    path: PathBuf,
)
    requires
        m.pending_view != Some((chat_id, msg_id)),
    ensures
        m.media_fetched(chat_id, msg_id, path).tasks == m.tasks,
{
}

// ---- Keys ----

/// `gg` goes to the top.
pub proof fn gg_goes_to_the_top(m: AppModel, t1: u64, t2: u64, c1: ComposerView, c2: ComposerView)
    requires
        m.in_normal(),
        m.pending_key is None,
    ensures
        m.key_pressed(plain('g'), t1, c1).key_pressed(plain('g'), t2, c2) == m.at_top(),
{
    assert(AppModel { pending_key: None, ..AppModel { pending_key: Some('g'), ..m } } =~= m);
}

/// `dd` on the messages deletes the selected one.
pub proof fn dd_deletes(m: AppModel, t1: u64, t2: u64, c1: ComposerView, c2: ComposerView)
    requires
        m.in_normal(),
        m.pending_key is None,
        m.focus == Focus::Messages,
    ensures
        m.key_pressed(plain('d'), t1, c1).key_pressed(plain('d'), t2, c2) == m.selected_deleted(),
{
    assert(AppModel { pending_key: None, ..AppModel { pending_key: Some('d'), ..m } } =~= m);
}

/// The two keys of `dd` send exactly one command, the deletion of the selected
/// message, and send it on the second key. They leave no sequence begun, and
/// mode, pane and open chat as they were.
pub proof fn dd_sends_one_deletion(m: AppModel, chat_id: Seq<char>, msg: MessageView)
    requires
        m.pending_key is None,
        m.focus == Focus::Messages,
        m.selected() == Some(msg),
        m.current_chat() == Some(chat_id),
    ensures
        m.normal_key(plain('d')).sent == m.sent,
        m.normal_key(plain('d')).normal_key(plain('d')).sent == m.sent.push(
            CommandView::Delete { chat_id, ids: seq![msg.id] },
        ),
        m.normal_key(plain('d')).normal_key(plain('d')).pending_key is None,
        m.normal_key(plain('d')).normal_key(plain('d')).mode == m.mode,
        m.normal_key(plain('d')).normal_key(plain('d')).focus == m.focus,
        m.normal_key(plain('d')).normal_key(plain('d')).chat_cursor == m.chat_cursor,
        m.normal_key(plain('d')).normal_key(plain('d')).messages == m.messages.remove(
            m.msg_cursor,
        ),
{
}

/// `gd` on the messages goes to the message that the selected one answers.
pub proof fn gd_goes_to_the_reply_target(
    m: AppModel,
    t1: u64,
    t2: u64,
    c1: ComposerView,
    c2: ComposerView,
)
    requires
        m.in_normal(),
        m.pending_key is None,
        m.focus == Focus::Messages,
    ensures
        m.key_pressed(plain('g'), t1, c1).key_pressed(plain('d'), t2, c2)
            == m.reply_target_selected(),
{
    assert(AppModel { pending_key: None, ..AppModel { pending_key: Some('g'), ..m } } =~= m);
}

/// A key that does not complete a sequence counts as if none had begun.
pub proof fn broken_sequence_falls_through(
    m: AppModel,
    begun: char,
    key: KeyEvent,
    now: u64,
    typed: ComposerView,
)
    requires
        m.in_normal(),
        m.pending_key is None,
        begun == 'g' || begun == 'd',
        !(begun == 'g' && key.code == KeyCode::Char('g')),
        !(key.code == KeyCode::Char('d') && m.focus == Focus::Messages),
    ensures
        (AppModel { pending_key: Some(begun), ..m }).key_pressed(key, now, typed)
            == m.key_pressed(key, now, typed),
{
    assert(AppModel { pending_key: None, ..AppModel { pending_key: Some(begun), ..m } } =~= m);
}

/// While an image is on show, a key closes it or does nothing.
pub proof fn viewer_takes_all_keys(m: AppModel, key: KeyEvent, now: u64, typed: ComposerView)
    requires
        m.image_viewer is Some,
    ensures
        m.key_pressed(key, now, typed) == m || m.key_pressed(key, now, typed) == (AppModel {
            image_viewer: None,
            ..m
        }),
{
}

/// Outside of insert mode no key reaches the composer.
pub proof fn only_insert_mode_types(
    m: AppModel,
    key: KeyEvent,
    now: u64,
    a: ComposerView,
    b: ComposerView,
)
    requires
        m.mode != Mode::Insert || m.image_viewer is Some,
    ensures
        m.key_pressed(key, now, a) == m.key_pressed(key, now, b),
{
}

/// Confirming a picker of chats opens the chat of the highlighted row and
/// closes the picker.
pub proof fn confirmed_chat_is_opened(m: AppModel, p: FuzzyView, i: usize)
    requires
        m.fuzzy == Some(p),
        p.selected() == Some(i),
        p.target != FuzzyTarget::Messages,
        i < m.chats.len(),
    ensures
        m.fuzzy_confirmed().current_chat() == Some(m.chats[i as int].id),
        m.fuzzy_confirmed().fuzzy is None,
        m.fuzzy_confirmed().focus == Focus::Messages,
        m.fuzzy_confirmed().mode == Mode::Normal,
{
}

/// A picker shows, row by row, the chats that it opens or the messages that it
/// selects.
pub proof fn picker_shows_what_it_opens(m: AppModel, i: int)
    ensures
        m.rows(FuzzyTarget::ChatList).len() == m.chats.len(),
        m.rows(FuzzyTarget::GlobalSwitcher) == m.rows(FuzzyTarget::ChatList),
        m.rows(FuzzyTarget::Messages).len() == m.messages.len(),
        0 <= i < m.chats.len() ==> m.rows(FuzzyTarget::ChatList)[i] == chat_row(m.chats[i]),
        0 <= i < m.messages.len() ==> m.rows(FuzzyTarget::Messages)[i] == message_row(
            m.messages[i],
        ),
{
}

// ---- Typing ----

/// The others are told at most once in three seconds, and told again after.
pub proof fn typing_is_told_in_intervals(m: AppModel, first: u64, second: u64, chat_id: Seq<char>)
    requires
        m.current_chat() == Some(chat_id),
        first <= second,
        m.typing_told(first) != m,
    ensures
        second - first < TYPING_INTERVAL ==> m.typing_told(first).typing_told(second)
            == m.typing_told(first),
        second - first >= TYPING_INTERVAL ==> m.typing_told(first).typing_told(second).sent
            == m.sent.push(CommandView::SendTyping { chat_id }).push(
            CommandView::SendTyping { chat_id },
        ),
{
}

/// A typing mark lasts six seconds and no longer, unless it is taken away.
pub proof fn typing_marks_run_out(m: AppModel, chat_id: Seq<char>, now: u64, later: u64)
    requires
        now + TYPING_SHOWN <= u64::MAX,
    ensures
        m.typing_noted(chat_id, true, now).ticked(later).typing_until.contains_key(chat_id)
            <==> later < now + TYPING_SHOWN,
        !m.typing_noted(chat_id, false, now).typing_until.contains_key(chat_id),
{
}

} // verus!
