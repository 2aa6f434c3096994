//! What the keys do to the state, mode by mode and field by field.

use crate::app::{EditTarget, Focus, Mode};
use crate::event_laws::{first_message, lemma_message_found, lemma_message_missing, no_message};
use crate::fuzzy::{
    is_ranking, ranking_exists, ranking_of_nothing, FuzzyTarget, FuzzyView,
};
use crate::input::{ComposerView, KeyCode, KeyEvent};
use crate::model::{AppModel, ReplyView, TaskView};
use crate::telegram::{ChatView, CommandView, MediaKind, MessageView};
use crate::text::{
    all_feedless, first_line, join_lines, join_undoes_split, lemma_lines_feedless, split_lines,
    split_undoes_join, white_space,
};
use vstd::prelude::*;

verus! {

// ---- Opening a chat ----

/// Whether nothing is written in a composer.
pub open spec fn nothing_written(c: ComposerView) -> bool {
    forall|i: int| 0 <= i < c.lines.len() ==> (#[trigger] c.lines[i]).len() == 0
}

/// Whether the drafts after a chat was left are those from before, but for that
/// chat: for it, what was written is kept, or nothing if nothing was.
pub open spec fn draft_is_kept(m: AppModel, n: AppModel) -> bool {
    let left = 0 <= m.chat_cursor < m.chats.len();
    let id = m.chats[m.chat_cursor].id;
    &&& forall|k: Seq<char>|
        !(left && k == id) ==> (#[trigger] n.drafts.contains_key(k) <==> m.drafts.contains_key(k))
    &&& forall|k: Seq<char>|
        !(left && k == id) && #[trigger] n.drafts.contains_key(k) ==> n.drafts[k] == m.drafts[k]
    &&& left && nothing_written(m.input) ==> !n.drafts.contains_key(id)
    &&& left && !nothing_written(m.input) ==> n.drafts.contains_key(id) && n.drafts[id]
        == m.input.lines
}

/// Whether the composer holds the draft of the open chat, with the cursor
/// behind its last character, or is empty where there is no draft.
pub open spec fn draft_is_shown(n: AppModel) -> bool {
    let id = n.chats[n.chat_cursor].id;
    let found = 0 <= n.chat_cursor < n.chats.len() && n.drafts.contains_key(id)
        && n.drafts[id].len() > 0;
    &&& found && all_feedless(n.drafts[id]) ==> n.input.lines == n.drafts[id]
    &&& found ==> join_lines(n.input.lines) == join_lines(n.drafts[id]) && all_feedless(
        n.input.lines,
    )
    &&& !found ==> n.input.lines == seq![Seq::<char>::empty()]
    &&& n.input.lines.len() > 0
    &&& n.input.cursor == (n.input.lines.len() - 1, n.input.lines.last().len() as int)
}

/// Whether `n` is `m` after the chat at `new` was opened: the draft of the chat
/// that is left is kept, its answer or edit given up, and its messages put away.
/// The new chat counts as read, its draft is in the composer, and its messages
/// are asked for. All else stays, and all of it if the chat was open already.
pub open spec fn opens(m: AppModel, n: AppModel, new: int) -> bool {
    if new == m.chat_cursor {
        n == m
    } else {
        &&& n == AppModel {
            chat_cursor: new,
            replying_to: None,
            editing: None,
            messages: Seq::empty(),
            msg_cursor: 0,
            loading_older: false,
            chats: n.chats,
            drafts: n.drafts,
            input: n.input,
            sent: n.sent,
            ..m
        }
        &&& n.chats.len() == m.chats.len()
        &&& forall|i: int|
            0 <= i < m.chats.len() && i != new ==> #[trigger] n.chats[i] == m.chats[i]
        &&& 0 <= new < m.chats.len() ==> n.chats[new] == ChatView { unread: 0, ..m.chats[new] }
        &&& 0 <= new < m.chats.len() ==> n.sent == m.sent.push(
            CommandView::LoadMessages(m.chats[new].id),
        )
        &&& new >= m.chats.len() ==> n.sent == m.sent
        &&& draft_is_kept(m, n)
        &&& draft_is_shown(n)
    }
}

/// Opening a chat does all that [`opens`] asks for.
pub proof fn chats_are_opened(m: AppModel, new: int)
    requires
        new >= 0,
    ensures
        opens(m, m.chat_opened(new), new),
{
    let n = m.chat_opened(new);
    if new != m.chat_cursor {
        if let Some(id) = n.current_chat() {
            if n.drafts.contains_key(id) && n.drafts[id].len() > 0 {
                let d = n.drafts[id];
                join_undoes_split(join_lines(d));
                lemma_lines_feedless(join_lines(d), 0);
                if all_feedless(d) {
                    split_undoes_join(d);
                }
            }
        }
    }
}

// ---- Moving ----

/// The index `step` below `at`, or the last one.
pub open spec fn below(at: int, step: int, len: nat) -> int {
    if at + step < len {
        at + step
    } else if len > 0 {
        len - 1
    } else {
        0
    }
}

/// The index `step` above `at`, or the first one.
pub open spec fn above(at: int, step: int) -> int {
    if at > step {
        at - step
    } else {
        0
    }
}

/// Whether `n` is `m` after older messages were asked for: once, from before the
/// first one on show, and not again before they have come.
pub open spec fn asks_for_older(m: AppModel, n: AppModel) -> bool {
    let can = 0 <= m.chat_cursor < m.chats.len() && m.messages.len() > 0 && !m.loading_older;
    &&& can ==> n == AppModel {
        loading_older: true,
        status: "Loading older messages…"@,
        sent: m.sent.push(
            CommandView::LoadOlder {
                chat_id: m.chats[m.chat_cursor].id,
                before_id: m.messages[0].id,
            },
        ),
        ..m
    }
    &&& !can ==> n == m
}

/// Whether `n` is `m` after a move down: the pane with the focus goes down by
/// that many, but not beyond its end.
pub open spec fn goes_down(m: AppModel, n: AppModel, step: int) -> bool {
    &&& m.focus is ChatList ==> opens(m, n, below(m.chat_cursor, step, m.chats.len()))
    &&& m.focus is Messages ==> n == AppModel {
        msg_cursor: below(m.msg_cursor, step, m.messages.len()),
        ..m
    }
    &&& m.focus is Input ==> n == m
}

/// Whether `n` is `m` after a move up: the pane with the focus goes up by that
/// many, but not beyond its start; at the first message older ones are asked
/// for.
pub open spec fn goes_up(m: AppModel, n: AppModel, step: int) -> bool {
    &&& m.focus is ChatList ==> opens(m, n, above(m.chat_cursor, step))
    &&& m.focus is Messages && m.msg_cursor > 0 ==> n == AppModel {
        msg_cursor: above(m.msg_cursor, step),
        ..m
    }
    &&& m.focus is Messages && m.msg_cursor == 0 ==> asks_for_older(m, n)
    &&& m.focus is Input ==> n == m
}

/// Moving by any number of rows goes as far as there is room, in every mode.
pub proof fn moves_go_as_far_as_there_is_room(m: AppModel, step: int)
    requires
        step >= 0,
        m.chat_cursor >= 0,
        m.msg_cursor >= 0,
    ensures
        goes_down(m, m.moved_down(step), step),
        goes_up(m, m.moved_up(step), step),
{
    chats_are_opened(m, below(m.chat_cursor, step, m.chats.len()));
    chats_are_opened(m, above(m.chat_cursor, step));
}

/// `j` and the arrow go down by one, `k` and the arrow up by one; with Ctrl, `d`
/// and `u` by ten, and `f` and `b` by twenty.
pub proof fn move_keys_move(m: AppModel, key: KeyEvent, now: u64, typed: ComposerView)
    requires
        m.in_normal(),
        m.pending_key is None,
        m.chat_cursor >= 0,
        m.msg_cursor >= 0,
    ensures
        ({
            let n = m.key_pressed(key, now, typed);
            &&& key.code == KeyCode::Char('j') || key.code == KeyCode::Down ==> goes_down(m, n, 1)
            &&& key.code == KeyCode::Char('k') || key.code == KeyCode::Up ==> goes_up(m, n, 1)
            &&& key.code == KeyCode::Char('d') && key.ctrl ==> goes_down(m, n, 10)
            &&& key.code == KeyCode::Char('u') && key.ctrl ==> goes_up(m, n, 10)
            &&& key.code == KeyCode::Char('f') && key.ctrl ==> goes_down(m, n, 20)
            &&& key.code == KeyCode::Char('b') && key.ctrl ==> goes_up(m, n, 20)
        }),
{
    moves_go_as_far_as_there_is_room(m, 1);
    moves_go_as_far_as_there_is_room(m, 10);
    moves_go_as_far_as_there_is_room(m, 20);
}

/// Whether `n` is `m` after a jump to the end of the pane with the focus: the
/// last message is selected, or the last chat opened, and nothing else changes.
pub open spec fn goes_to_the_end(m: AppModel, n: AppModel) -> bool {
    &&& m.focus is Messages ==> n == AppModel { msg_cursor: n.msg_cursor, ..m }
    &&& m.focus is Messages && m.messages.len() > 0 ==> n.msg_cursor == m.messages.len() - 1
        && n.selected() == Some(m.messages.last())
    &&& m.focus is Messages && m.messages.len() == 0 ==> n.msg_cursor == 0
    &&& m.focus is ChatList && m.chats.len() > 0 ==> opens(m, n, m.chats.len() - 1)
        && n.current_chat() == Some(m.chats.last().id)
    &&& m.focus is ChatList && m.chats.len() == 0 ==> opens(m, n, 0)
    &&& m.focus is Input ==> n == m
}

/// Whether `n` is `m` after a jump to the start of the pane with the focus; at
/// the first message older ones are asked for.
pub open spec fn goes_to_the_start(m: AppModel, n: AppModel) -> bool {
    &&& m.focus is ChatList ==> opens(m, n, 0)
    &&& m.focus is Messages && m.msg_cursor > 0 ==> n == AppModel { msg_cursor: 0, ..m }
    &&& m.focus is Messages && m.msg_cursor == 0 ==> asks_for_older(m, n)
    &&& m.focus is Input ==> n == m
}

/// The jumps go to either end, in every mode.
pub proof fn jumps_go_to_the_ends(m: AppModel)
    requires
        m.msg_cursor >= 0,
    ensures
        goes_to_the_end(m, m.at_bottom()),
        goes_to_the_start(m, m.at_top()),
{
    chats_are_opened(m, 0);
    if m.chats.len() > 0 {
        chats_are_opened(m, m.chats.len() - 1);
    }
}

/// `G` goes to the end of the pane with the focus.
pub proof fn shift_g_goes_to_the_end(m: AppModel, key: KeyEvent, now: u64, typed: ComposerView)
    requires
        m.in_normal(),
        m.pending_key is None,
        key.code == KeyCode::Char('G'),
    ensures
        goes_to_the_end(m, m.key_pressed(key, now, typed)),
{
    chats_are_opened(m, 0);
    if m.chats.len() > 0 {
        chats_are_opened(m, m.chats.len() - 1);
    }
}

/// After a `g`, another one goes to the start of the pane with the focus; at
/// the first message older ones are asked for.
pub proof fn gg_goes_to_the_start(m: AppModel, key: KeyEvent, now: u64, typed: ComposerView)
    requires
        m.in_normal(),
        m.pending_key == Some('g'),
        key.code == KeyCode::Char('g'),
        m.msg_cursor >= 0,
    ensures
        goes_to_the_start(AppModel { pending_key: None, ..m }, m.key_pressed(key, now, typed)),
{
    chats_are_opened(AppModel { pending_key: None, ..m }, 0);
}

/// `g` begins a sequence, and so does `d` on the messages; neither does anything
/// else. Elsewhere a `d` without Ctrl does nothing.
pub proof fn sequences_begin(m: AppModel, key: KeyEvent, now: u64, typed: ComposerView)
    requires
        m.in_normal(),
        m.pending_key is None,
    ensures
        ({
            let n = m.key_pressed(key, now, typed);
            let d = key.code == KeyCode::Char('d') && !key.ctrl;
            &&& key.code == KeyCode::Char('g') ==> n == AppModel { pending_key: Some('g'), ..m }
            &&& d && m.focus is Messages ==> n == AppModel { pending_key: Some('d'), ..m }
            &&& d && !(m.focus is Messages) ==> n == m
        }),
{
}

/// Whether `n` is `m` after the selected message was deleted: it is off the
/// list, the others are as they were, and its deletion is asked for, once. The
/// cursor stays, or goes to the last message if there is none at it any more.
pub open spec fn deletes_selected(m: AppModel, n: AppModel) -> bool {
    let can = 0 <= m.msg_cursor < m.messages.len() && 0 <= m.chat_cursor < m.chats.len();
    &&& !can ==> n == m
    &&& can ==> {
        &&& n == AppModel {
            messages: n.messages,
            msg_cursor: n.msg_cursor,
            status: "Deleted"@,
            sent: m.sent.push(
                CommandView::Delete {
                    chat_id: m.chats[m.chat_cursor].id,
                    ids: seq![m.messages[m.msg_cursor].id],
                },
            ),
            ..m
        }
        &&& n.messages.len() == m.messages.len() - 1
        &&& forall|i: int| 0 <= i < m.msg_cursor ==> #[trigger] n.messages[i] == m.messages[i]
        &&& forall|i: int|
            m.msg_cursor <= i < n.messages.len() ==> #[trigger] n.messages[i] == m.messages[i + 1]
        &&& m.msg_cursor < m.messages.len() - 1 ==> n.msg_cursor == m.msg_cursor
        &&& m.msg_cursor == m.messages.len() - 1 && m.messages.len() > 1 ==> n.msg_cursor
            == m.msg_cursor - 1
        &&& m.messages.len() == 1 ==> n.msg_cursor == 0
    }
}

/// After a `d` on the messages, another one deletes the selected message.
pub proof fn dd_deletes_the_selected_message(
    m: AppModel,
    key: KeyEvent,
    now: u64,
    typed: ComposerView,
)
    requires
        m.in_normal(),
        m.focus is Messages,
        m.pending_key == Some('d'),
        key.code == KeyCode::Char('d'),
    ensures
        deletes_selected(AppModel { pending_key: None, ..m }, m.key_pressed(key, now, typed)),
{
}

/// Whether `n` is `m` after the message at `at` was selected, if it is the one
/// that the selected one answers. If it is not loaded, or the message answers
/// none, the user is told.
pub open spec fn selects_what_is_answered(m: AppModel, n: AppModel, at: int) -> bool {
    let reply = m.messages[m.msg_cursor].reply_to_id;
    if m.msg_cursor >= m.messages.len() {
        n == m
    } else if reply is None {
        n == AppModel { status: "Not a reply"@, ..m }
    } else {
        &&& first_message(m.messages, reply->0, at) ==> n == AppModel {
            msg_cursor: at,
            status: "→ reply target"@,
            ..m
        }
        &&& no_message(m.messages, reply->0) ==> n == AppModel {
            status: "Reply target is older than loaded history"@,
            ..m
        }
    }
}

/// After a `g` on the messages, `d` selects the message that the selected one
/// answers. If it is not loaded, or the message answers none, the user is told.
pub proof fn gd_selects_what_is_answered(
    m: AppModel,
    key: KeyEvent,
    now: u64,
    typed: ComposerView,
    at: int,
)
    requires
        m.in_normal(),
        m.focus is Messages,
        m.pending_key == Some('g'),
        key.code == KeyCode::Char('d'),
        m.msg_cursor >= 0,
    ensures
        selects_what_is_answered(
            AppModel { pending_key: None, ..m },
            m.key_pressed(key, now, typed),
            at,
        ),
{
    if m.msg_cursor < m.messages.len() {
        if let Some(id) = m.messages[m.msg_cursor].reply_to_id {
            if first_message(m.messages, id, at) {
                lemma_message_found(m.messages, id, at);
            }
            if no_message(m.messages, id) {
                lemma_message_missing(m.messages, id);
            }
        }
    }
}

/// A key that does not complete the sequence at hand only ends it, and counts
/// as if none had begun.
pub proof fn other_keys_end_a_sequence(m: AppModel, key: KeyEvent, now: u64, typed: ComposerView)
    requires
        m.in_normal(),
        m.pending_key == Some('g') || m.pending_key == Some('d'),
        !(m.pending_key == Some('g') && key.code == KeyCode::Char('g')),
        !(key.code == KeyCode::Char('d') && m.focus is Messages),
    ensures
        m.key_pressed(key, now, typed) == (AppModel { pending_key: None, ..m }).key_pressed(
            key,
            now,
            typed,
        ),
{
}

// ---- Panes, modes and windows ----

/// Whether `n` is `m` with the next pane: from the chats to the messages to the
/// composer and back, with the keys going to the composer exactly if it is the
/// one.
pub open spec fn goes_to_next_pane(m: AppModel, n: AppModel) -> bool {
    &&& n == AppModel { focus: n.focus, mode: n.mode, ..m }
    &&& m.focus is ChatList ==> n.focus is Messages && n.mode is Normal
    &&& m.focus is Messages ==> n.focus is Input && n.mode is Insert
    &&& m.focus is Input ==> n.focus is ChatList && n.mode is Normal
}

/// `q` quits, `?` shows the help, Tab and Ctrl-w go to the next pane, `h` and
/// `l` with the arrows go between chats and messages, and `i` and Enter into the
/// composer.
pub proof fn pane_keys_change_panes(m: AppModel, key: KeyEvent, now: u64, typed: ComposerView)
    requires
        m.in_normal(),
        m.pending_key is None,
    ensures
        ({
            let n = m.key_pressed(key, now, typed);
            let k = key.code;
            &&& k == KeyCode::Char('q') ==> n == AppModel {
                should_quit: true,
                sent: m.sent.push(CommandView::Shutdown),
                ..m
            }
            &&& k == KeyCode::Char('?') ==> n == AppModel { mode: Mode::Help, ..m }
            &&& k == KeyCode::Tab ==> goes_to_next_pane(m, n)
            &&& k == KeyCode::Char('w') && key.ctrl ==> goes_to_next_pane(m, n)
            &&& k == KeyCode::Char('w') && !key.ctrl ==> n == m
            &&& k == KeyCode::Char('h') || k == KeyCode::Left ==> n == AppModel {
                focus: if m.focus is Messages {
                    Focus::ChatList
                } else {
                    m.focus
                },
                ..m
            }
            &&& k == KeyCode::Char('l') || k == KeyCode::Right ==> n == AppModel {
                focus: if m.focus is ChatList {
                    Focus::Messages
                } else {
                    m.focus
                },
                ..m
            }
            &&& k == KeyCode::Char('i') || k == KeyCode::Enter ==> n == AppModel {
                focus: Focus::Input,
                mode: Mode::Insert,
                ..m
            }
        }),
{
}

/// Whether a key means something in normal mode outside of a sequence.
pub open spec fn is_bound(key: KeyEvent, on_messages: bool) -> bool {
    match key.code {
        KeyCode::Tab | KeyCode::Enter | KeyCode::Up | KeyCode::Down | KeyCode::Left
        | KeyCode::Right => true,
        KeyCode::Char(c) => {
            ||| c == 'q' || c == '?' || c == 'h' || c == 'j' || c == 'k' || c == 'l' || c == 'g'
            ||| c == 'G' || c == 'i' || c == '/'
            ||| key.ctrl && (c == 'w' || c == 'd' || c == 'u' || c == 'f' || c == 'b' || c == 'p')
            ||| on_messages && (c == 'd' || c == 'r' || c == 'e' || c == 'v')
        },
        _ => false,
    }
}

/// Every other key does nothing.
pub proof fn other_keys_do_nothing(m: AppModel, key: KeyEvent, now: u64, typed: ComposerView)
    requires
        m.in_normal(),
        m.pending_key is None,
        !is_bound(key, m.focus is Messages),
    ensures
        m.key_pressed(key, now, typed) == m,
{
}

/// While the help is on show, Escape, `q` and `?` put it away, and every other
/// key does nothing.
pub proof fn help_is_put_away(m: AppModel, key: KeyEvent, now: u64, typed: ComposerView)
    requires
        m.image_viewer is None,
        m.mode is Help,
    ensures
        ({
            let n = m.key_pressed(key, now, typed);
            let k = key.code;
            let away = k == KeyCode::Esc || k == KeyCode::Char('q') || k == KeyCode::Char('?');
            &&& away ==> n == AppModel { mode: Mode::Normal, ..m }
            &&& !away ==> n == m
        }),
{
}

/// While an image is on show, Escape, `q` and `v` put it away, whatever the
/// mode, and every other key does nothing.
pub proof fn image_is_put_away(m: AppModel, key: KeyEvent, now: u64, typed: ComposerView)
    requires
        m.image_viewer is Some,
    ensures
        ({
            let n = m.key_pressed(key, now, typed);
            let k = key.code;
            let away = k == KeyCode::Esc || k == KeyCode::Char('q') || k == KeyCode::Char('v');
            &&& away ==> n == AppModel { image_viewer: None, ..m }
            &&& !away ==> n == m
        }),
{
}

// ---- Acting on the selected message ----

/// Whether `n` is `m` after an answer to the selected message was begun, with
/// its sender and at most sixty characters of its first line, for which an edit
/// is given up; or, if one had begun, after it was given up and all else left.
pub open spec fn begins_or_ends_an_answer(m: AppModel, n: AppModel) -> bool {
    let msg = m.messages[m.msg_cursor];
    let line = first_line(msg.text);
    if m.replying_to is Some {
        n == AppModel { replying_to: None, ..m }
    } else if m.msg_cursor >= m.messages.len() {
        n == m
    } else {
        &&& n == AppModel {
            replying_to: n.replying_to,
            editing: None,
            input: n.input,
            focus: Focus::Input,
            mode: Mode::Insert,
            ..m
        }
        &&& n.replying_to is Some
        &&& n.replying_to->0.msg_id == msg.id && n.replying_to->0.sender == msg.sender
        &&& line.len() <= 60 ==> n.replying_to->0.preview == line
        &&& line.len() > 60 ==> n.replying_to->0.preview == line.take(60)
        &&& m.editing is None ==> n.input == m.input
        &&& m.editing is Some ==> n.input.lines == seq![Seq::<char>::empty()] && n.input.cursor == (
            0int,
            0int,
        )
    }
}

/// `r` on the messages begins an answer, or gives it up.
pub proof fn r_begins_and_ends_an_answer(m: AppModel, key: KeyEvent, now: u64, typed: ComposerView)
    requires
        m.in_normal(),
        m.pending_key is None,
        key.code == KeyCode::Char('r'),
        m.msg_cursor >= 0,
    ensures
        m.focus is Messages ==> begins_or_ends_an_answer(m, m.key_pressed(key, now, typed)),
        !(m.focus is Messages) ==> m.key_pressed(key, now, typed) == m,
{
}

/// Whether `n` is `m` after an edit of the selected message was begun, if it is
/// the user's own, with its text in the composer and the cursor at the end, for
/// which an answer is given up; or, if one had begun, after it was given up and
/// the composer emptied.
pub open spec fn begins_or_ends_an_edit(m: AppModel, n: AppModel) -> bool {
    let msg = m.messages[m.msg_cursor];
    if m.editing is Some {
        &&& n == AppModel { editing: None, input: n.input, ..m }
        &&& n.input.lines == seq![Seq::<char>::empty()] && n.input.cursor == (0int, 0int)
    } else if m.msg_cursor >= m.messages.len() {
        n == m
    } else if !msg.outgoing {
        n == AppModel { status: "Can only edit your own messages"@, ..m }
    } else {
        &&& n == AppModel {
            editing: Some(EditTarget { msg_id: msg.id }),
            replying_to: None,
            input: n.input,
            focus: Focus::Input,
            mode: Mode::Insert,
            ..m
        }
        &&& join_lines(n.input.lines) == msg.text && all_feedless(n.input.lines)
        &&& n.input.lines.len() > 0
        &&& n.input.cursor == (n.input.lines.len() - 1, n.input.lines.last().len() as int)
    }
}

proof fn lemma_edit(m: AppModel)
    requires
        m.msg_cursor >= 0,
    ensures
        begins_or_ends_an_edit(m, m.edit_toggled()),
{
    if m.msg_cursor < m.messages.len() {
        join_undoes_split(m.messages[m.msg_cursor].text);
        lemma_lines_feedless(m.messages[m.msg_cursor].text, 0);
    }
}

/// `e` on the messages begins an edit, or gives it up.
pub proof fn e_begins_and_ends_an_edit(m: AppModel, key: KeyEvent, now: u64, typed: ComposerView)
    requires
        m.in_normal(),
        m.pending_key is None,
        key.code == KeyCode::Char('e'),
        m.msg_cursor >= 0,
    ensures
        m.focus is Messages ==> begins_or_ends_an_edit(m, m.key_pressed(key, now, typed)),
        !(m.focus is Messages) ==> m.key_pressed(key, now, typed) == m,
{
    lemma_edit(m);
}

/// Whether `n` is `m` after the media of the selected message was asked for: a
/// file that is there is opened as its kind asks, and else it is fetched from
/// the open chat and waited for. Media that cannot be shown, and none, is told.
pub open spec fn shows_media(m: AppModel, n: AppModel) -> bool {
    let msg = m.messages[m.msg_cursor];
    let kind = msg.media_kind->0;
    if m.msg_cursor >= m.messages.len() {
        n == m
    } else if msg.media_kind is None {
        n == AppModel { status: "No media on this message"@, ..m }
    } else if kind is Document || kind is Other {
        n == AppModel { status: "Media type not viewable"@, ..m }
    } else if msg.media_path is Some {
        if kind is Photo || kind is Sticker {
            n == AppModel { tasks: m.tasks.push(TaskView::OpenImage(msg.media_path->0)), ..m }
        } else if m.player_argv.len() > 0 {
            n == AppModel {
                tasks: m.tasks.push(
                    TaskView::PlayVideo { argv: m.player_argv, path: msg.media_path->0 },
                ),
                ..m
            }
        } else {
            n == AppModel { status: "player not configured"@, ..m }
        }
    } else if m.chat_cursor >= m.chats.len() {
        n == m
    } else {
        let chat_id = m.chats[m.chat_cursor].id;
        n == AppModel {
            pending_view: Some((chat_id, msg.id)),
            sent: m.sent.push(CommandView::FetchMedia { chat_id, msg_id: msg.id }),
            status: if kind is Video {
                "Downloading video…"@
            } else {
                "Downloading…"@
            },
            ..m
        }
    }
}

/// `v` on the messages shows the media of the selected one.
pub proof fn v_shows_the_media(m: AppModel, key: KeyEvent, now: u64, typed: ComposerView)
    requires
        m.in_normal(),
        m.pending_key is None,
        key.code == KeyCode::Char('v'),
        m.msg_cursor >= 0,
        m.chat_cursor >= 0,
    ensures
        m.focus is Messages ==> shows_media(m, m.key_pressed(key, now, typed)),
        !(m.focus is Messages) ==> m.key_pressed(key, now, typed) == m,
{
}

// ---- Writing ----

/// Whether a text holds nothing but white space.
pub open spec fn only_white_space(text: Seq<char>) -> bool {
    forall|i: int| 0 <= i < text.len() ==> white_space(#[trigger] text[i])
}

/// Whether `n` is `m` after the text was sent: all of it, to the open chat, as
/// the edit that was begun or else as a message, which names the message that
/// it answers. The composer and the draft are empty after that. Nothing happens
/// if the text is blank or no chat is open.
pub open spec fn sends(m: AppModel, n: AppModel) -> bool {
    let text = join_lines(m.input.lines);
    let chat_id = m.chats[m.chat_cursor].id;
    if m.chat_cursor >= m.chats.len() || only_white_space(text) {
        n == m
    } else {
        &&& n == AppModel {
            sent: n.sent,
            input: n.input,
            drafts: n.drafts,
            editing: None,
            replying_to: n.replying_to,
            ..m
        }
        &&& n.input.lines == seq![Seq::<char>::empty()] && n.input.cursor == (0int, 0int)
        &&& !n.drafts.contains_key(chat_id)
        &&& forall|k: Seq<char>|
            k != chat_id ==> (#[trigger] n.drafts.contains_key(k) <==> m.drafts.contains_key(k))
        &&& forall|k: Seq<char>|
            k != chat_id && #[trigger] m.drafts.contains_key(k) ==> n.drafts[k] == m.drafts[k]
        &&& m.editing matches Some(edit) ==> n.replying_to == m.replying_to && n.sent
            == m.sent.push(CommandView::Edit { chat_id, msg_id: edit.msg_id, text })
        &&& m.editing is None && m.replying_to is None ==> n.replying_to is None && n.sent
            == m.sent.push(CommandView::Send { chat_id, text, reply_to: None })
        &&& m.editing is None && m.replying_to is Some ==> n.replying_to is None && n.sent
            == m.sent.push(
            CommandView::Send { chat_id, text, reply_to: Some(m.replying_to->0.msg_id) },
        )
    }
}

/// Enter in insert mode sends.
pub proof fn enter_sends(m: AppModel, key: KeyEvent, now: u64, typed: ComposerView)
    requires
        m.image_viewer is None,
        m.mode is Insert,
        key.code == KeyCode::Enter,
        !key.ctrl,
        m.chat_cursor >= 0,
    ensures
        sends(m, m.key_pressed(key, now, typed)),
{
    let text = join_lines(m.input.lines);
    assert(only_white_space(text) <==> crate::text::blank(text));
}

/// Escape in insert mode gives the keys back, from the composer to the messages,
/// and Ctrl-w goes to the next pane; what is written stays.
pub proof fn insert_mode_is_left(m: AppModel, key: KeyEvent, now: u64, typed: ComposerView)
    requires
        m.image_viewer is None,
        m.mode is Insert,
    ensures
        ({
            let n = m.key_pressed(key, now, typed);
            &&& key.code == KeyCode::Esc ==> n == AppModel {
                mode: Mode::Normal,
                focus: if m.focus is Input {
                    Focus::Messages
                } else {
                    m.focus
                },
                ..m
            }
            &&& key.code == KeyCode::Char('w') && key.ctrl ==> goes_to_next_pane(m, n)
        }),
{
}

/// Every other key in insert mode is typed, Enter with Ctrl among them, and the
/// open chat is told of it, at most every three seconds.
pub proof fn other_keys_are_typed(m: AppModel, key: KeyEvent, now: u64, typed: ComposerView)
    requires
        m.image_viewer is None,
        m.mode is Insert,
        key.code != KeyCode::Esc,
        !(key.code == KeyCode::Enter && !key.ctrl),
        !(key.code == KeyCode::Char('w') && key.ctrl),
        m.chat_cursor >= 0,
    ensures
        ({
            let n = m.key_pressed(key, now, typed);
            let due = m.last_typing_sent is None || now - m.last_typing_sent->0 >= 3_000_000_000;
            &&& n.input == typed
            &&& due && m.chat_cursor < m.chats.len() ==> n == AppModel {
                input: typed,
                last_typing_sent: Some(now),
                sent: m.sent.push(
                    CommandView::SendTyping { chat_id: m.chats[m.chat_cursor].id },
                ),
                ..m
            }
            &&& !due || m.chat_cursor >= m.chats.len() ==> n == AppModel { input: typed, ..m }
        }),
{
}

/// Exactly those keys count as typed that reach the composer: in insert mode,
/// with no image on show, all but Escape, Enter without Ctrl, and Ctrl-w.
pub proof fn typed_keys_are_those_for_the_composer(m: AppModel, key: KeyEvent)
    ensures
        m.types(key) <==> {
            &&& m.image_viewer is None
            &&& m.mode is Insert
            &&& key.code != KeyCode::Esc
            &&& key.code != KeyCode::Enter || key.ctrl
            &&& key.code != KeyCode::Char('w') || !key.ctrl
        },
        m.mode is Insert && m.image_viewer is None ==> (m.types(key) <==> m.insert_types(key)),
{
}

/// A key that is not typed, sends nothing of the composer, opens no other chat
/// and neither begins nor ends an edit leaves the composer alone.
pub proof fn other_keys_leave_the_composer_alone(
    m: AppModel,
    key: KeyEvent,
    now: u64,
    typed: ComposerView,
)
    requires
        !m.types(key),
        m.key_pressed(key, now, typed).chat_cursor == m.chat_cursor,
        m.key_pressed(key, now, typed).editing == m.editing,
        m.mode is Insert ==> m.key_pressed(key, now, typed).sent == m.sent,
    ensures
        m.leaves_composer(key),
        m.image_viewer is None && m.mode is Insert ==> m.insert_leaves_composer(key),
{
    let n = m.key_pressed(key, now, typed);
    if m.mode is Insert && m.image_viewer is None {
        assert(m.sent.push(CommandView::LoadChats).len() == m.sent.len() + 1);
        if !m.has_nothing_to_send() && key.code == KeyCode::Enter && !key.ctrl {
            assert(n.sent.len() == m.sent.len() + 1);
        }
    }
}

// ---- The pickers ----

/// Whether a picker was opened afresh over `rows`: nothing is typed, every row
/// is listed in its place, and the first one is highlighted.
pub open spec fn is_fresh(p: FuzzyView, target: FuzzyTarget, rows: Seq<Seq<char>>) -> bool {
    &&& p.target == target
    &&& p.sources == rows
    &&& p.query.len() == 0
    &&& p.cursor == 0
    &&& p.ranked.len() == rows.len()
    &&& forall|i: int| 0 <= i < rows.len() ==> #[trigger] p.ranked[i] == (i as usize, 0u32)
}

/// The rows of a picker of chats show every chat by name and preview, in the
/// order of the list.
pub open spec fn chat_rows(m: AppModel) -> Seq<Seq<char>> {
    Seq::new(m.chats.len(), |i: int| m.chats[i].name + "  —  "@ + m.chats[i].last_preview)
}

/// The rows of a picker of messages show every message by sender and text.
pub open spec fn message_rows(m: AppModel) -> Seq<Seq<char>> {
    Seq::new(m.messages.len(), |i: int| m.messages[i].sender + ": "@ + m.messages[i].text)
}

/// `/` opens a picker, over the messages if the focus is there and else over
/// the chats, and Ctrl-p one over the chats wherever the focus is. Without Ctrl
/// `p` does nothing.
pub proof fn pickers_are_opened(m: AppModel, key: KeyEvent, now: u64, typed: ComposerView)
    requires
        m.in_normal(),
        m.pending_key is None,
        m.fits(),
    ensures
        ({
            let n = m.key_pressed(key, now, typed);
            let slash = key.code == KeyCode::Char('/');
            let p = key.code == KeyCode::Char('p');
            &&& slash || (p && key.ctrl) ==> {
                &&& n == AppModel { mode: Mode::Search, fuzzy: n.fuzzy, ..m }
                &&& n.fuzzy is Some
            }
            &&& slash && m.focus is Messages ==> is_fresh(
                n.fuzzy->0,
                FuzzyTarget::Messages,
                message_rows(m),
            )
            &&& slash && !(m.focus is Messages) ==> is_fresh(
                n.fuzzy->0,
                FuzzyTarget::ChatList,
                chat_rows(m),
            )
            &&& p && key.ctrl ==> is_fresh(n.fuzzy->0, FuzzyTarget::GlobalSwitcher, chat_rows(m))
            &&& p && !key.ctrl ==> n == m
        }),
{
    assert(m.rows(FuzzyTarget::Messages) =~= message_rows(m));
    assert(m.rows(FuzzyTarget::ChatList) =~= chat_rows(m));
    assert(m.rows(FuzzyTarget::GlobalSwitcher) =~= chat_rows(m));
    ranking_of_nothing(message_rows(m));
    ranking_of_nothing(chat_rows(m));
}

/// Whether `q` is the picker `p` with another query, its rows ranked by it and
/// the best one highlighted.
pub open spec fn searches(p: FuzzyView, q: FuzzyView, query: Seq<char>) -> bool {
    &&& q.target == p.target
    &&& q.sources == p.sources
    &&& q.query == query
    &&& q.cursor == 0
    &&& is_ranking(q.ranked, p.sources, query)
}

/// A character without Ctrl is added to the query, and Backspace takes the last
/// one away. The rows are ranked anew by what is left.
pub proof fn search_keys_change_the_query(
    m: AppModel,
    p: FuzzyView,
    key: KeyEvent,
    now: u64,
    typed: ComposerView,
)
    requires
        m.image_viewer is None,
        m.mode is Search,
        m.fuzzy == Some(p),
        p.sources.len() <= usize::MAX,
    ensures
        ({
            let n = m.key_pressed(key, now, typed);
            let c = key.code->Char_0;
            let moves = key.ctrl && (c == 'n' || c == 'p' || c == 'j' || c == 'k');
            &&& key.code is Char && !moves ==> {
                &&& n == AppModel { fuzzy: n.fuzzy, ..m }
                &&& n.fuzzy is Some
                &&& searches(p, n.fuzzy->0, p.query.push(c))
            }
            &&& key.code == KeyCode::Backspace ==> {
                &&& n == AppModel { fuzzy: n.fuzzy, ..m }
                &&& n.fuzzy is Some
                &&& p.query.len() > 0 ==> searches(p, n.fuzzy->0, p.query.drop_last())
                &&& p.query.len() == 0 ==> searches(p, n.fuzzy->0, p.query)
            }
        }),
{
    if let KeyCode::Char(c) = key.code {
        ranking_exists(p.sources, p.query.push(c));
    }
    ranking_exists(p.sources, p.query.drop_last());
    ranking_exists(p.sources, p.query);
}

/// Backspace takes back what a character did, but for the highlight, which is
/// on the best row again.
pub proof fn backspace_undoes_a_character(
    m: AppModel,
    p: FuzzyView,
    c: char,
    key: KeyEvent,
    back: KeyEvent,
    t1: u64,
    t2: u64,
    a: ComposerView,
    b: ComposerView,
)
    requires
        m.image_viewer is None,
        m.mode is Search,
        m.fuzzy == Some(p),
        p.consistent(),
        key.code == KeyCode::Char(c),
        !key.ctrl,
        back.code == KeyCode::Backspace,
    ensures
        m.key_pressed(key, t1, a).key_pressed(back, t2, b) == (AppModel {
            fuzzy: Some(FuzzyView { cursor: 0, ..p }),
            ..m
        }),
{
    assert(p.query.push(c).drop_last() =~= p.query);
}

/// The arrows, and Ctrl with `n`, `j`, `p` and `k`, move the highlight by one
/// row, from either end to the other.
pub proof fn search_keys_move_the_highlight(
    m: AppModel,
    p: FuzzyView,
    key: KeyEvent,
    now: u64,
    typed: ComposerView,
)
    requires
        m.image_viewer is None,
        m.mode is Search,
        m.fuzzy == Some(p),
        p.ranked.len() <= usize::MAX,
        p.cursor == 0 || p.cursor < p.ranked.len(),
    ensures
        ({
            let n = m.key_pressed(key, now, typed);
            let k = key.code;
            let len = p.ranked.len();
            let down = k == KeyCode::Down || (key.ctrl && (k == KeyCode::Char('n') || k
                == KeyCode::Char('j')));
            let up = k == KeyCode::Up || (key.ctrl && (k == KeyCode::Char('p') || k
                == KeyCode::Char('k')));
            &&& down || up ==> {
                &&& n == AppModel { fuzzy: n.fuzzy, ..m }
                &&& n.fuzzy is Some
                &&& n.fuzzy->0 == FuzzyView { cursor: n.fuzzy->0.cursor, ..p }
                &&& len == 0 ==> n.fuzzy->0.cursor == 0
            }
            &&& down && len > 0 ==> n.fuzzy->0.cursor == (if p.cursor + 1 < len {
                p.cursor + 1
            } else {
                0
            })
            &&& up && len > 0 ==> n.fuzzy->0.cursor == (if p.cursor > 0 {
                p.cursor - 1
            } else {
                len - 1
            })
        }),
{
    let len = p.ranked.len() as int;
    if len > 0 {
        vstd::arithmetic::div_mod::lemma_small_mod((p.cursor + 1) as nat, len as nat + 1);
        if p.cursor + 1 < len {
            vstd::arithmetic::div_mod::lemma_small_mod((p.cursor + 1) as nat, len as nat);
        } else {
            vstd::arithmetic::div_mod::lemma_mod_self_0(len);
        }
        if p.cursor > 0 {
            vstd::arithmetic::div_mod::lemma_small_mod((p.cursor - 1) as nat, len as nat);
        } else {
            vstd::arithmetic::div_mod::lemma_small_mod((len - 1) as nat, len as nat);
            vstd::arithmetic::div_mod::lemma_mod_add_multiples_vanish(-1, len);
        }
    }
}

/// Escape puts the picker away and changes nothing else; keys that stand for no
/// character change nothing at all.
pub proof fn picker_is_put_away(
    m: AppModel,
    p: FuzzyView,
    key: KeyEvent,
    now: u64,
    typed: ComposerView,
)
    requires
        m.image_viewer is None,
        m.mode is Search,
        m.fuzzy == Some(p),
    ensures
        ({
            let n = m.key_pressed(key, now, typed);
            let k = key.code;
            &&& k == KeyCode::Esc ==> n == AppModel { fuzzy: None, mode: Mode::Normal, ..m }
            &&& k == KeyCode::Tab || k == KeyCode::Left || k == KeyCode::Right || k
                == KeyCode::Home || k == KeyCode::End || k == KeyCode::PageUp || k
                == KeyCode::PageDown || k == KeyCode::Delete || k == KeyCode::Other ==> n == m
        }),
{
}

/// Without a picker, any key leaves search mode.
pub proof fn search_without_picker_is_left(
    m: AppModel,
    key: KeyEvent,
    now: u64,
    typed: ComposerView,
)
    requires
        m.image_viewer is None,
        m.mode is Search,
        m.fuzzy is None,
    ensures
        m.key_pressed(key, now, typed) == (AppModel { mode: Mode::Normal, ..m }),
{
}

/// Whether `n` is `m` after the highlighted row of the picker `p` was taken: the
/// picker is put away, and that message selected with the pane left as it is, or
/// that chat opened and its messages gone to. Where no row is listed the picker
/// is only put away.
pub open spec fn takes_highlighted(m: AppModel, p: FuzzyView, n: AppModel) -> bool {
    let i = p.ranked[p.cursor as int].0;
    &&& n.fuzzy is None && n.mode is Normal
    &&& p.cursor >= p.ranked.len() ==> n == AppModel { fuzzy: None, mode: Mode::Normal, ..m }
    &&& p.cursor < p.ranked.len() && p.target is Messages ==> n == AppModel {
        fuzzy: None,
        mode: Mode::Normal,
        msg_cursor: i as int,
        ..m
    }
    &&& p.cursor < p.ranked.len() && !(p.target is Messages) ==> n.focus is Messages && opens(
        m,
        AppModel { fuzzy: m.fuzzy, mode: m.mode, focus: m.focus, ..n },
        i as int,
    )
}

/// Enter takes the highlighted row.
pub proof fn enter_goes_to_the_highlighted_row(
    m: AppModel,
    p: FuzzyView,
    key: KeyEvent,
    now: u64,
    typed: ComposerView,
)
    requires
        m.image_viewer is None,
        m.mode is Search,
        m.fuzzy == Some(p),
        key.code == KeyCode::Enter,
    ensures
        takes_highlighted(m, p, m.key_pressed(key, now, typed)),
{
    let i = p.ranked[p.cursor as int].0;
    chats_are_opened(m, i as int);
    let n = m.key_pressed(key, now, typed);
    if p.cursor < p.ranked.len() && !(p.target is Messages) {
        assert(AppModel { fuzzy: m.fuzzy, mode: m.mode, focus: m.focus, ..n } =~= m.chat_opened(
            i as int,
        ));
    }
}

// ---- The same without the keys ----

/// What the keys do by mode and pane, the actions do in every state.
pub proof fn actions_do_what_their_keys_do(m: AppModel, at: int)
    requires
        m.chat_cursor >= 0,
        m.msg_cursor >= 0,
    ensures
        begins_or_ends_an_answer(m, m.reply_toggled()),
        begins_or_ends_an_edit(m, m.edit_toggled()),
        shows_media(m, m.selected_viewed()),
        deletes_selected(m, m.selected_deleted()),
        selects_what_is_answered(m, m.reply_target_selected(), at),
        sends(m, m.input_sent()),
        asks_for_older(m, m.older_requested()),
        goes_to_next_pane(m, m.focus_cycled()),
{
    lemma_edit(m);
    let text = join_lines(m.input.lines);
    assert(only_white_space(text) <==> crate::text::blank(text));
    if m.msg_cursor < m.messages.len() {
        if let Some(id) = m.messages[m.msg_cursor].reply_to_id {
            if first_message(m.messages, id, at) {
                lemma_message_found(m.messages, id, at);
            }
            if no_message(m.messages, id) {
                lemma_message_missing(m.messages, id);
            }
        }
    }
}

/// Quitting, the help, the composer and the pickers can be had in every state,
/// and change nothing beside.
pub proof fn modes_change_alone(m: AppModel, target: FuzzyTarget)
    requires
        m.fits(),
    ensures
        m.quitting() == (AppModel {
            should_quit: true,
            sent: m.sent.push(CommandView::Shutdown),
            ..m
        }),
        m.help_toggled() == (AppModel {
            mode: if m.mode is Help {
                Mode::Normal
            } else {
                Mode::Help
            },
            ..m
        }),
        m.inserting() == (AppModel { focus: Focus::Input, mode: Mode::Insert, ..m }),
        m.back_to_normal() == (AppModel {
            mode: Mode::Normal,
            focus: if m.focus is Input {
                Focus::Messages
            } else {
                m.focus
            },
            ..m
        }),
        m.fuzzy_closed() == (AppModel { fuzzy: None, mode: Mode::Normal, ..m }),
        ({
            let n = m.fuzzy_opened(target);
            &&& n == AppModel { mode: Mode::Search, fuzzy: n.fuzzy, ..m }
            &&& n.fuzzy is Some
            &&& target is Messages ==> is_fresh(n.fuzzy->0, target, message_rows(m))
            &&& !(target is Messages) ==> is_fresh(n.fuzzy->0, target, chat_rows(m))
        }),
{
    assert(m.rows(target) =~= (if target is Messages {
        message_rows(m)
    } else {
        chat_rows(m)
    }));
    ranking_of_nothing(message_rows(m));
    ranking_of_nothing(chat_rows(m));
}

/// The highlighted row can be taken in every mode; without a picker there is
/// none.
pub proof fn highlighted_row_is_taken(m: AppModel, p: FuzzyView)
    ensures
        m.fuzzy == Some(p) ==> takes_highlighted(m, p, m.fuzzy_confirmed()),
        m.fuzzy is None ==> m.fuzzy_confirmed() == m,
{
    if m.fuzzy == Some(p) && p.cursor < p.ranked.len() {
        let i = p.ranked[p.cursor as int].0;
        chats_are_opened(m, i as int);
        let n = m.fuzzy_confirmed();
        if !(p.target is Messages) {
            assert(AppModel { fuzzy: m.fuzzy, mode: m.mode, focus: m.focus, ..n }
                =~= m.chat_opened(i as int));
        }
    }
}

} // verus!
