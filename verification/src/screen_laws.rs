//! What is to be seen of the state: which lines there are, what they say and
//! how they look.

use crate::app::{Focus, Mode};
use crate::event_laws::{first_message, lemma_message_found, lemma_message_missing, no_message};
use crate::fuzzy::{FuzzyTarget, FuzzyView};
use crate::keymap::bindings;
use crate::model::AppModel;
use crate::telegram::{ChatView, MediaKind, MessageView};
use crate::text::{decimal, first_line};
use crate::ui::{
    banner_line, border, chat_items, colored, focus_label, header_line, help_lines, match_lines,
    media_badge, message_items, message_lines, mode_style, padded, plain, query_line, quote_line,
    slanted, status_line, strong, strong_on, text_width, title_of_messages, Color, Look, SpanView,
    Window,
};
use crate::wrap::wrapped;
use vstd::prelude::*;
use vstd::utf8::encode_utf8;

verus! {

/// Whether a piece says this in this color, upright and not bold, on the
/// background of the terminal.
pub open spec fn says(s: SpanView, text: Seq<char>, color: Option<Color>) -> bool {
    s.text == text && s.style == (Look { fg: color, bg: None, bold: false, italic: false })
}

/// The same in bold type.
pub open spec fn says_loudly(s: SpanView, text: Seq<char>, color: Option<Color>) -> bool {
    s.text == text && s.style == (Look { fg: color, bg: None, bold: true, italic: false })
}

/// The same in italic type.
pub open spec fn says_aside(s: SpanView, text: Seq<char>, color: Option<Color>) -> bool {
    s.text == text && s.style == (Look { fg: color, bg: None, bold: false, italic: true })
}

/// Each look is what its name says.
pub proof fn looks_are_as_named(c: Color, d: Color)
    ensures
        plain() == (Look { fg: None, bg: None, bold: false, italic: false }),
        colored(c) == (Look { fg: Some(c), bg: None, bold: false, italic: false }),
        strong(c) == (Look { fg: Some(c), bg: None, bold: true, italic: false }),
        slanted(c) == (Look { fg: Some(c), bg: None, bold: false, italic: true }),
        strong_on(c, d) == (Look { fg: Some(c), bg: Some(d), bold: true, italic: false }),
{
}

/// The border of the pane with the focus stands out.
pub proof fn focus_stands_out()
    ensures
        border(true) == (Look { fg: Some(Color::Cyan), bg: None, bold: true, italic: false }),
        border(false) == (Look {
            fg: Some(Color::DarkGray),
            bg: None,
            bold: false,
            italic: false,
        }),
{
}

/// Whether a chat is marked as typing at a time.
pub open spec fn types_now(m: AppModel, id: Seq<char>, now: u64) -> bool {
    m.typing_until.contains_key(id) && m.typing_until[id] > now
}

/// Every chat is listed in its place, with its name, the number of its unread
/// messages if there are any, and its preview, or a note while someone types.
pub proof fn every_chat_is_listed(m: AppModel, now: u64, i: int)
    requires
        0 <= i < m.chats.len(),
    ensures
        chat_items(m, now).len() == m.chats.len(),
        ({
            let c = m.chats[i];
            let item = chat_items(m, now)[i];
            &&& item.len() == 2 && item[0].len() == 2 && item[1].len() == 1
            &&& says_loudly(item[0][0], c.name, None)
            &&& c.unread > 0 ==> says(
                item[0][1],
                " ("@ + decimal(c.unread as nat) + ")"@,
                Some(Color::Yellow),
            )
            &&& c.unread == 0 ==> item[0][1].text.len() == 0
            &&& types_now(m, c.id, now) ==> says_aside(item[1][0], "typing…"@, Some(Color::Cyan))
            &&& !types_now(m, c.id, now) ==> says(
                item[1][0],
                c.last_preview,
                Some(Color::DarkGray),
            )
        }),
{
    reveal_strlit("");
}

/// The title of the messages names the open chat, and tells while someone types
/// in it.
pub proof fn title_names_the_open_chat(m: AppModel, now: u64)
    requires
        m.chat_cursor >= 0,
    ensures
        m.chat_cursor >= m.chats.len() ==> title_of_messages(m, now) == " — "@,
        m.chat_cursor < m.chats.len() ==> ({
            let c = m.chats[m.chat_cursor];
            &&& types_now(m, c.id, now) ==> title_of_messages(m, now) == " "@ + c.name
                + "  · typing… "@
            &&& !types_now(m, c.id, now) ==> title_of_messages(m, now) == " "@ + c.name + " "@
        }),
{
}

/// The text of a message has the pane's width without its border, and at least
/// one column.
pub proof fn text_fits_into_the_pane(width: u16)
    ensures
        width >= 3 ==> text_width(width) == width - 2,
        width < 3 ==> text_width(width) == 1,
{
}

/// Every message is listed in its place, as its lines in the width of the text.
pub proof fn every_message_is_listed(
    m: AppModel,
    clocks: Seq<Seq<char>>,
    width: nat,
    i: int,
)
    requires
        0 <= i < m.messages.len(),
    ensures
        message_items(m, clocks, width).len() == m.messages.len(),
        message_items(m, clocks, width)[i] == message_lines(
            m.messages,
            m.messages[i],
            clocks[i],
            width,
        ),
{
}

/// How many lines come before the text of a message: the header, and the quote
/// if it is an answer.
pub open spec fn lines_before_text(m: MessageView) -> int {
    if m.reply_to_id is Some {
        2
    } else {
        1
    }
}

/// A message shows its header, then what it answers, then its text, wrapped,
/// then its media, whatever the text, and at last an empty line; and no other
/// line.
pub proof fn message_shows_all_of_its_parts(
    messages: Seq<MessageView>,
    m: MessageView,
    clock: Seq<char>,
    width: nat,
    i: int,
)
    ensures
        ({
            let lines = message_lines(messages, m, clock, width);
            let text = wrapped(m.text, width);
            let start = lines_before_text(m);
            &&& lines.len() == start + text.len() + (if m.media_kind is Some {
                2int
            } else {
                1
            })
            &&& lines[0] == header_line(m, clock)
            &&& m.reply_to_id is Some ==> lines[1] == quote_line(messages, m.reply_to_id->0, width)
            &&& 0 <= i < text.len() ==> lines[start + i].len() == 1 && says(
                lines[start + i][0],
                text[i],
                None,
            )
            &&& m.media_kind is Some ==> lines[lines.len() - 2].len() == 1 && says_loudly(
                lines[lines.len() - 2][0],
                media_badge(m.media_kind->0),
                Some(Color::Cyan),
            )
            &&& lines.last().len() == 0
        }),
{
}

/// The header tells the sender, the user's own messages apart from others', the
/// time, and whether the message was edited.
pub proof fn header_tells_who_and_when(m: MessageView, clock: Seq<char>)
    ensures
        ({
            let l = header_line(m, clock);
            &&& l.len() == (if m.edited {
                3int
            } else {
                2
            })
            &&& m.outgoing ==> says_loudly(l[0], m.sender + " "@, Some(Color::Green))
            &&& !m.outgoing ==> says_loudly(l[0], m.sender + " "@, Some(Color::Magenta))
            &&& says(l[1], clock, Some(Color::DarkGray))
            &&& m.edited ==> says_aside(l[2], " (edited)"@, Some(Color::DarkGray))
        }),
{
}

/// An answer quotes the sender of the message with that id and as much of its
/// first line as there is room for, or says that it is one if the message is
/// not there.
pub proof fn answers_quote_what_they_answer(
    messages: Seq<MessageView>,
    rid: u64,
    width: nat,
    at: int,
)
    ensures
        first_message(messages, rid, at) ==> ({
            let l = quote_line(messages, rid, width);
            let target = messages[at];
            let line = first_line(target.text);
            let room = width - encode_utf8(target.sender).len() - 4;
            &&& l.len() == 3
            &&& says(l[0], "↳ "@, Some(Color::Cyan))
            &&& says_loudly(l[1], target.sender + ": "@, Some(Color::Cyan))
            &&& room <= 0 ==> l[2].text.len() == 0
            &&& 0 < room < line.len() ==> says(l[2], line.take(room), Some(Color::DarkGray))
            &&& room >= line.len() ==> says(l[2], line, Some(Color::DarkGray))
        }),
        no_message(messages, rid) ==> ({
            let l = quote_line(messages, rid, width);
            &&& l.len() == 2
            &&& says(l[0], "↳ "@, Some(Color::Cyan))
            &&& says_aside(l[1], "reply"@, Some(Color::DarkGray))
        }),
{
    if first_message(messages, rid, at) {
        lemma_message_found(messages, rid, at);
        assert(first_line(messages[at].text).take(0).len() == 0);
    }
    if no_message(messages, rid) {
        lemma_message_missing(messages, rid);
    }
}

/// Every kind of media has its own badge, and those that can be shown name the
/// key for it.
pub proof fn badges_tell_the_media()
    ensures
        media_badge(MediaKind::Photo) == "[📷 photo  — press v]"@,
        media_badge(MediaKind::Video) == "[🎬 video  — press v]"@,
        media_badge(MediaKind::Document) == "[📄 document]"@,
        media_badge(MediaKind::Sticker) == "[🪄 sticker  — press v]"@,
        media_badge(MediaKind::Other) == "[media]"@,
{
}

/// The line above the composer is there exactly while a message is edited or
/// answered. An edit is shown before an answer, which names the sender and the
/// preview.
pub proof fn banner_tells_what_is_written(m: AppModel)
    ensures
        banner_line(m) is Some <==> m.editing is Some || m.replying_to is Some,
        m.editing is Some ==> ({
            let l = banner_line(m)->0;
            &&& l.len() == 3
            &&& says_loudly(l[0], "┃ "@, Some(Color::Green))
            &&& says_loudly(l[1], "editing message"@, Some(Color::Green))
            &&& says(l[2], "   (e to cancel)"@, Some(Color::DarkGray))
        }),
        m.editing is None && m.replying_to is Some ==> ({
            let l = banner_line(m)->0;
            &&& l.len() == 6
            &&& says_loudly(l[0], "┃ "@, Some(Color::Cyan))
            &&& says(l[1], "replying to "@, Some(Color::DarkGray))
            &&& says_loudly(l[2], m.replying_to->0.sender, Some(Color::Cyan))
            &&& says(l[3], ": "@, Some(Color::DarkGray))
            &&& says(l[4], m.replying_to->0.preview, None)
            &&& says(l[5], "   (r to cancel)"@, Some(Color::DarkGray))
        }),
{
}

/// The status line tells the mode, the pane with the focus and the last report,
/// in this order.
pub proof fn status_tells_mode_and_pane(m: AppModel)
    ensures
        ({
            let l = status_line(m);
            &&& l.len() == 5
            &&& l[0].style.bold && !l[0].style.italic
            &&& m.mode is Normal ==> l[0].text == " NORMAL "@ && l[0].style.fg == Some(Color::White)
                && l[0].style.bg == Some(Color::Blue)
            &&& m.mode is Insert ==> l[0].text == " INSERT "@ && l[0].style.fg == Some(Color::Black)
                && l[0].style.bg == Some(Color::Green)
            &&& m.mode is Search ==> l[0].text == " SEARCH "@ && l[0].style.fg == Some(Color::White)
                && l[0].style.bg == Some(Color::Magenta)
            &&& m.mode is Help ==> l[0].text == " HELP "@ && l[0].style.fg == Some(Color::Black)
                && l[0].style.bg == Some(Color::Yellow)
            &&& says(l[1], " "@, None)
            &&& m.focus is ChatList ==> says(l[2], "[chats]"@, Some(Color::Cyan))
            &&& m.focus is Messages ==> says(l[2], "[messages]"@, Some(Color::Cyan))
            &&& m.focus is Input ==> says(l[2], "[input]"@, Some(Color::Cyan))
            &&& says(l[3], "  "@, None)
            &&& says(l[4], m.status, Some(Color::DarkGray))
        }),
{
}

/// The line of a picker shows all that was typed, behind the words for what is
/// searched.
pub proof fn prompt_shows_the_query(p: FuzzyView)
    ensures
        ({
            let l = query_line(p);
            &&& l.len() == 3
            &&& p.target is ChatList ==> says_loudly(l[0], "chat> "@, Some(Color::Magenta))
            &&& p.target is Messages ==> says_loudly(l[0], "msg> "@, Some(Color::Magenta))
            &&& p.target is GlobalSwitcher ==> says_loudly(l[0], "> "@, Some(Color::Magenta))
            &&& says(l[1], p.query, None)
            &&& says(l[2], "▏"@, Some(Color::Cyan))
        }),
{
}

/// Every row that a picker lists is shown in its place, with its score if that
/// is not zero.
pub proof fn every_match_is_shown(p: FuzzyView, k: int)
    requires
        0 <= k < p.ranked.len(),
        p.ranked[k].0 < p.sources.len(),
    ensures
        match_lines(p).len() == p.ranked.len(),
        ({
            let l = match_lines(p)[k];
            &&& says(l[0], p.sources[p.ranked[k].0 as int], None)
            &&& p.ranked[k].1 == 0 ==> l.len() == 1
            &&& p.ranked[k].1 > 0 ==> l.len() == 2 && says(
                l[1],
                "  ·"@ + decimal(p.ranked[k].1 as nat),
                Some(Color::DarkGray),
            )
        }),
{
}

/// A text is padded with spaces behind it, and never cut.
pub proof fn padding_only_adds_spaces(s: Seq<char>, n: nat, i: int)
    ensures
        padded(s, n).len() == (if s.len() < n {
            n
        } else {
            s.len()
        }),
        0 <= i < s.len() ==> padded(s, n)[i] == s[i],
        s.len() <= i < padded(s, n).len() ==> padded(s, n)[i] == ' ',
{
}

/// The help shows every binding in its place: the keys in a column of twenty
/// characters, and what they do.
pub proof fn help_shows_every_binding(i: int)
    requires
        0 <= i < bindings().len(),
    ensures
        help_lines().len() == bindings().len(),
        help_lines()[i].len() == 2,
        says_loudly(help_lines()[i][0], "  "@ + padded(bindings()[i].0, 18), Some(Color::Cyan)),
        says(help_lines()[i][1], bindings()[i].1, None),
{
}

/// Whether the help tells these keys with these words.
pub open spec fn tells(keys: Seq<char>, what: Seq<char>) -> bool {
    bindings().contains((keys, what))
}

/// The help tells every key, and what it does.
pub proof fn help_tells_every_key()
    ensures
        bindings().len() == 17,
        tells("q"@, "Quit"@) && tells("?"@, "Toggle help"@),
        tells("Tab / Ctrl-w"@, "Cycle focus between panes"@),
        tells("h j k l"@, "Move left/down/up/right"@),
        tells("gg / G"@, "Jump to top / bottom"@),
        tells("gd"@, "Jump to reply target (in messages pane)"@),
        tells("Ctrl-d / Ctrl-u"@, "Half page down / up"@),
        tells("Ctrl-f / Ctrl-b"@, "Full page down / up"@),
        tells("i / Enter"@, "Enter insert mode"@),
        tells("Esc"@, "Leave insert mode (back to messages)"@),
        tells("/"@, "Fuzzy search (context-aware)"@),
        tells("Ctrl-p"@, "Global chat switcher"@),
        tells("r"@, "Reply to selected message (toggle)"@),
        tells("e"@, "Edit selected outgoing message (toggle)"@),
        tells("v"@, "View attached photo (opens image modal)"@),
        tells("dd"@, "Delete selected message"@),
        tells("Enter (insert)"@, "Send message"@),
{
    let b = bindings();
    assert(b[0] == ("q"@, "Quit"@));
    assert(b[1] == ("?"@, "Toggle help"@));
    assert(b[2] == ("Tab / Ctrl-w"@, "Cycle focus between panes"@));
    assert(b[3] == ("h j k l"@, "Move left/down/up/right"@));
    assert(b[4] == ("gg / G"@, "Jump to top / bottom"@));
    assert(b[5] == ("gd"@, "Jump to reply target (in messages pane)"@));
    assert(b[6] == ("Ctrl-d / Ctrl-u"@, "Half page down / up"@));
    assert(b[7] == ("Ctrl-f / Ctrl-b"@, "Full page down / up"@));
    assert(b[8] == ("i / Enter"@, "Enter insert mode"@));
    assert(b[9] == ("Esc"@, "Leave insert mode (back to messages)"@));
    assert(b[10] == ("/"@, "Fuzzy search (context-aware)"@));
    assert(b[11] == ("Ctrl-p"@, "Global chat switcher"@));
    assert(b[12] == ("r"@, "Reply to selected message (toggle)"@));
    assert(b[13] == ("e"@, "Edit selected outgoing message (toggle)"@));
    assert(b[14] == ("v"@, "View attached photo (opens image modal)"@));
    assert(b[15] == ("dd"@, "Delete selected message"@));
    assert(b[16] == ("Enter (insert)"@, "Send message"@));
}

/// No window covers the whole screen, and each leaves as much on one side as on
/// the other.
pub proof fn windows_lie_in_the_middle(w: Window)
    ensures
        0 < w.size().0 < 100 && 0 < w.size().1 < 100,
        w.size().0 % 2 == 0 && w.size().1 % 2 == 0,
        w is Help ==> w.size() == (60u16, 70u16),
        w is Picker ==> w.size() == (70u16, 70u16),
        w is Viewer ==> w.size() == (80u16, 80u16),
{
}

/// The names of the panes and the looks of the modes differ from each other.
pub proof fn modes_and_panes_look_different(a: Mode, b: Mode, f: Focus, g: Focus)
    ensures
        a != b ==> mode_style(a) != mode_style(b),
        f != g ==> focus_label(f) != focus_label(g),
{
    reveal_strlit("[chats]");
    reveal_strlit("[messages]");
    reveal_strlit("[input]");
    assert("[chats]"@.len() == 7);
    assert("[messages]"@.len() == 10);
    assert("[input]"@[1] == 'i');
    assert("[chats]"@[1] == 'c');
}

} // verus!
