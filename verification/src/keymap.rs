//! What the keys do, by mode and by pane.

use crate::app::{App, Focus, Mode};
use crate::fuzzy::FuzzyTarget;
use crate::input::{after_key, KeyCode, KeyEvent};
use vstd::prelude::*;

verus! {

/// Gives a key to whatever takes the keys at the moment.
pub fn dispatch(app: &mut App, key: KeyEvent, now: u64)
    ensures
        final(app)@ == old(app)@.key_pressed(key, now, old(app).input.typed(key)),
        old(app)@.leaves_composer(key) ==> final(app).input == old(app).input,
        old(app)@.types(key) ==> final(app).input.area() == after_key(old(app).input.area(), key),
{
    if app.image_viewer.is_some() {
        match key.code {
            KeyCode::Esc | KeyCode::Char('q') | KeyCode::Char('v') => app.close_image_viewer(),
            _ => {},
        }
        return;
    }
    match app.mode {
        Mode::Normal => handle_normal(app, key),
        Mode::Insert => handle_insert(app, key, now),
        Mode::Search => handle_search(app, key),
        Mode::Help => handle_help(app, key),
    }
}

/// A key in normal mode.
pub fn handle_normal(app: &mut App, key: KeyEvent)
    ensures
        final(app)@ == old(app)@.normal_key(key),
        final(app).chat_cursor == old(app).chat_cursor && final(app).editing == old(app).editing
            ==> final(app).input == old(app).input,
{
    if app.pending_key == Some('g') {
        app.pending_key = None;
        match key.code {
            KeyCode::Char('g') => {
                app.go_top();
                return;
            },
            KeyCode::Char('d') if app.focus == Focus::Messages => {
                app.jump_to_reply_target();
                return;
            },
            _ => {},
        }
    }
    if app.pending_key == Some('d') {
        app.pending_key = None;
        if key.code == KeyCode::Char('d') && app.focus == Focus::Messages {
            app.delete_selected();
            return;
        }
    }
    handle_single(app, key);
}

/// A key in normal mode that does not complete a sequence.
fn handle_single(app: &mut App, key: KeyEvent)
    ensures
        final(app)@ == old(app)@.single_key(key),
        final(app).chat_cursor == old(app).chat_cursor && final(app).editing == old(app).editing
            ==> final(app).input == old(app).input,
{
    let k = key.code;
    let on_messages = app.focus == Focus::Messages;
    if k == KeyCode::Char('q') {
        app.quit();
    } else if k == KeyCode::Char('?') {
        app.toggle_help();
    } else if k == KeyCode::Tab || (k == KeyCode::Char('w') && key.ctrl) {
        app.cycle_focus();
    } else if k == KeyCode::Char('j') || k == KeyCode::Down {
        app.move_down(1);
    } else if k == KeyCode::Char('k') || k == KeyCode::Up {
        app.move_up(1);
    } else if k == KeyCode::Char('h') || k == KeyCode::Left {
        if on_messages {
            app.focus = Focus::ChatList;
        }
    } else if k == KeyCode::Char('l') || k == KeyCode::Right {
        if app.focus == Focus::ChatList {
            app.focus = Focus::Messages;
        }
    } else if k == KeyCode::Char('d') && key.ctrl {
        app.move_down(10);
    } else if k == KeyCode::Char('d') && on_messages {
        app.pending_key = Some('d');
    } else if k == KeyCode::Char('u') && key.ctrl {
        app.move_up(10);
    } else if k == KeyCode::Char('f') && key.ctrl {
        app.move_down(20);
    } else if k == KeyCode::Char('b') && key.ctrl {
        app.move_up(20);
    } else if k == KeyCode::Char('G') {
        app.go_bottom();
    } else if k == KeyCode::Char('g') {
        app.pending_key = Some('g');
    } else if k == KeyCode::Char('i') || k == KeyCode::Enter {
        app.enter_insert();
    } else if k == KeyCode::Char('r') && on_messages {
        app.toggle_reply();
    } else if k == KeyCode::Char('e') && on_messages {
        app.toggle_edit();
    } else if k == KeyCode::Char('v') && on_messages {
        app.view_selected();
    } else if k == KeyCode::Char('/') {
        if on_messages {
            app.open_fuzzy(FuzzyTarget::Messages);
        } else {
            app.open_fuzzy(FuzzyTarget::ChatList);
        }
    } else if k == KeyCode::Char('p') && key.ctrl {
        app.open_fuzzy(FuzzyTarget::GlobalSwitcher);
    }
}

/// A key in insert mode.
pub fn handle_insert(app: &mut App, key: KeyEvent, now: u64)
    ensures
        final(app)@ == old(app)@.insert_key(key, now, old(app).input.typed(key)),
        old(app)@.insert_leaves_composer(key) ==> final(app).input == old(app).input,
        old(app)@.insert_types(key) ==> final(app).input.area() == after_key(
            old(app).input.area(),
            key,
        ),
{
    match key.code {
        KeyCode::Esc => app.enter_normal(),
        KeyCode::Enter if !key.ctrl => app.send_input(),
        KeyCode::Char('w') if key.ctrl => app.cycle_focus(),
        _ => {
            app.input.press(key);
            app.maybe_send_typing(now);
        },
    }
}

/// A key in search mode.
pub fn handle_search(app: &mut App, key: KeyEvent)
    ensures
        final(app)@ == old(app)@.search_key(key),
        final(app).chat_cursor == old(app).chat_cursor ==> final(app).input == old(app).input,
{
    let mut picker = match app.fuzzy.take() {
        Some(picker) => picker,
        None => {
            app.mode = Mode::Normal;
            return;
        },
    };
    match key.code {
        KeyCode::Esc => {
            app.close_fuzzy();
            return;
        },
        KeyCode::Enter => {
            app.fuzzy = Some(picker);
            app.confirm_fuzzy();
            return;
        },
        KeyCode::Down => picker.move_cursor(1),
        KeyCode::Up => picker.move_cursor(-1),
        KeyCode::Char('n') if key.ctrl => picker.move_cursor(1),
        KeyCode::Char('p') if key.ctrl => picker.move_cursor(-1),
        KeyCode::Char('j') if key.ctrl => picker.move_cursor(1),
        KeyCode::Char('k') if key.ctrl => picker.move_cursor(-1),
        KeyCode::Backspace => picker.pop_char(),
        KeyCode::Char(c) => picker.push_char(c),
        _ => {},
    }
    app.fuzzy = Some(picker);
}

/// A key while the help is on show.
pub fn handle_help(app: &mut App, key: KeyEvent)
    ensures
        final(app)@ == old(app)@.help_key(key),
        final(app).input == old(app).input,
{
    match key.code {
        KeyCode::Esc | KeyCode::Char('q') | KeyCode::Char('?') => app.toggle_help(),
        _ => {},
    }
}

/// The keys and what they do, as the help shows them.
pub open spec fn bindings() -> Seq<(Seq<char>, Seq<char>)> {
    seq![
        ("q"@, "Quit"@),
        ("?"@, "Toggle help"@),
        ("Tab / Ctrl-w"@, "Cycle focus between panes"@),
        ("h j k l"@, "Move left/down/up/right"@),
        ("gg / G"@, "Jump to top / bottom"@),
        ("gd"@, "Jump to reply target (in messages pane)"@),
        ("Ctrl-d / Ctrl-u"@, "Half page down / up"@),
        ("Ctrl-f / Ctrl-b"@, "Full page down / up"@),
        ("i / Enter"@, "Enter insert mode"@),
        ("Esc"@, "Leave insert mode (back to messages)"@),
        ("/"@, "Fuzzy search (context-aware)"@),
        ("Ctrl-p"@, "Global chat switcher"@),
        ("r"@, "Reply to selected message (toggle)"@),
        ("e"@, "Edit selected outgoing message (toggle)"@),
        ("v"@, "View attached photo (opens image modal)"@),
        ("dd"@, "Delete selected message"@),
        ("Enter (insert)"@, "Send message"@),
    ]
}

/// The keys and what they do, for the help.
pub fn bindings_help() -> (list: &'static [(&'static str, &'static str)])
    ensures
        list@.len() == bindings().len(),
        forall|i: int|
            0 <= i < list@.len() ==> (#[trigger] list@[i]).0@ == bindings()[i].0 && list@[i].1@
                == bindings()[i].1,
{
    &[
        ("q", "Quit"),
        ("?", "Toggle help"),
        ("Tab / Ctrl-w", "Cycle focus between panes"),
        ("h j k l", "Move left/down/up/right"),
        ("gg / G", "Jump to top / bottom"),
        ("gd", "Jump to reply target (in messages pane)"),
        ("Ctrl-d / Ctrl-u", "Half page down / up"),
        ("Ctrl-f / Ctrl-b", "Full page down / up"),
        ("i / Enter", "Enter insert mode"),
        ("Esc", "Leave insert mode (back to messages)"),
        ("/", "Fuzzy search (context-aware)"),
        ("Ctrl-p", "Global chat switcher"),
        ("r", "Reply to selected message (toggle)"),
        ("e", "Edit selected outgoing message (toggle)"),
        ("v", "View attached photo (opens image modal)"),
        ("dd", "Delete selected message"),
        ("Enter (insert)", "Send message"),
    ]
}

} // verus!
