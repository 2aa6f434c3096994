//! What is on the screen: styled lines for every pane and every window.
//!
//! Nothing here draws. Each function turns the state into lines, titles and
//! selections, and whoever has the terminal puts them there.

use crate::app::{App, Focus, Mode};
use crate::fuzzy::{FuzzyPicker, FuzzyView};
use crate::keymap::{bindings, bindings_help};
use crate::model::AppModel;
use crate::telegram::{
    find_message, message_is, message_views, Chat, ChatView, MediaKind, Message,
    MessageView,
};
use crate::text::{
    chars_of, decimal, decimal_of, first_chars, first_index, first_line, first_line_of, shortened,
    texts,
};
use crate::wrap::{wrap_text, wrapped};
use vstd::prelude::*;
use vstd::utf8::encode_utf8;

verus! {

/// The colors in use.
#[derive(Debug, Clone, Copy, PartialEq, Eq, Structural)]
pub enum Color {
    Black,
    Blue,
    Cyan,
    DarkGray,
    Green,
    Magenta,
    White,
    Yellow,
}

/// How a piece of text looks; `None` is the color of the terminal.
#[derive(Debug, Clone, Copy, PartialEq, Eq, Structural)]
pub struct Look {
    pub fg: Option<Color>,
    pub bg: Option<Color>,
    pub bold: bool,
    pub italic: bool,
}

/// No style.
#[verifier::allow_in_spec]
pub fn plain() -> Look
    returns
        (Look { fg: None, bg: None, bold: false, italic: false }),
{
    Look { fg: None, bg: None, bold: false, italic: false }
}

/// A color.
#[verifier::allow_in_spec]
pub fn colored(c: Color) -> Look
    returns
        (Look { fg: Some(c), bg: None, bold: false, italic: false }),
{
    Look { fg: Some(c), bg: None, bold: false, italic: false }
}

/// A color, in bold type.
#[verifier::allow_in_spec]
pub fn strong(c: Color) -> Look
    returns
        (Look { fg: Some(c), bg: None, bold: true, italic: false }),
{
    Look { fg: Some(c), bg: None, bold: true, italic: false }
}

/// A color, in italic type.
#[verifier::allow_in_spec]
pub fn slanted(c: Color) -> Look
    returns
        (Look { fg: Some(c), bg: None, bold: false, italic: true }),
{
    Look { fg: Some(c), bg: None, bold: false, italic: true }
}

/// One color on another, in bold type.
#[verifier::allow_in_spec]
pub fn strong_on(fg: Color, bg: Color) -> Look
    returns
        (Look { fg: Some(fg), bg: Some(bg), bold: true, italic: false }),
{
    Look { fg: Some(fg), bg: Some(bg), bold: true, italic: false }
}

/// A piece of text in one style.
#[derive(Debug)]
pub struct Span {
    pub text: String,
    pub style: Look,
}

/// The contents of a [`Span`].
#[verifier::ext_equal]
pub struct SpanView {
    pub text: Seq<char>,
    pub style: Look,
}

impl View for Span {
    type V = SpanView;

    open spec fn view(&self) -> SpanView {
        SpanView { text: self.text@, style: self.style }
    }
}

/// A line of the screen.
#[derive(Debug)]
pub struct Line {
    pub spans: Vec<Span>,
}

impl View for Line {
    type V = Seq<SpanView>;

    open spec fn view(&self) -> Seq<SpanView> {
        self.spans@.map_values(|s: Span| s@)
    }
}

/// The contents of a list of lines.
pub open spec fn line_views(v: Seq<Line>) -> Seq<Seq<SpanView>> {
    v.map_values(|l: Line| l@)
}

/// The contents of a list of items of several lines each.
pub open spec fn item_views(v: Seq<Vec<Line>>) -> Seq<Seq<Seq<SpanView>>> {
    v.map_values(|l: Vec<Line>| line_views(l@))
}

/// A piece of text in one style.
pub open spec fn piece(text: Seq<char>, style: Look) -> SpanView {
    SpanView { text, style }
}

impl Line {
    /// An empty line.
    pub fn new() -> (l: Line)
        ensures
            l@ == Seq::<SpanView>::empty(),
    {
        let l = Line { spans: Vec::new() };
        assert(l@ =~= Seq::<SpanView>::empty());
        l
    }

    /// The line with one more piece at its end.
    pub fn with(self, text: &str, style: Look) -> (l: Line)
        ensures
            l@ == self@.push(piece(text@, style)),
    {
        let mut spans = self.spans;
        spans.push(Span { text: text.to_string(), style });
        let l = Line { spans };
        assert(l@ =~= self@.push(piece(text@, style)));
        l
    }
}

/// Text between two others.
fn between(before: &str, text: &str, after: &str) -> (s: String)
    ensures
        s@ == before@ + text@ + after@,
{
    let mut s = before.to_string();
    s.append(text);
    s.append(after);
    s
}

/// How the border of a pane looks.
pub open spec fn border(focused: bool) -> Look {
    if focused {
        strong(Color::Cyan)
    } else {
        colored(Color::DarkGray)
    }
}

/// How the border of a pane looks.
pub fn pane_style(focused: bool) -> (s: Look)
    ensures
        s == border(focused),
{
    if focused {
        strong(Color::Cyan)
    } else {
        colored(Color::DarkGray)
    }
}

// ---- Chats ----

impl AppModel {
    /// Whether someone is typing in a chat.
    pub open spec fn is_typing(self, chat_id: Seq<char>, now: u64) -> bool {
        self.typing_until.contains_key(chat_id) && self.typing_until[chat_id] > now
    }
}

/// Whether someone is typing in a chat.
fn is_typing(app: &App, chat_id: &String, now: u64) -> (b: bool)
    ensures
        b == app@.is_typing(chat_id@, now),
{
    match app.typing_until.get(chat_id) {
        Some(until) => *until > now,
        None => false,
    }
}

/// The two lines of a chat: its name with the number of unread messages, and
/// its preview, or a note that someone is typing.
pub open spec fn chat_lines(c: ChatView, typing: bool) -> Seq<Seq<SpanView>> {
    seq![
        seq![
            piece(c.name, Look { fg: None, bg: None, bold: true, italic: false }),
            piece(
                if c.unread > 0 {
                    " ("@ + decimal(c.unread as nat) + ")"@
                } else {
                    ""@
                },
                colored(Color::Yellow),
            ),
        ],
        seq![
            if typing {
                piece("typing…"@, slanted(Color::Cyan))
            } else {
                piece(c.last_preview, colored(Color::DarkGray))
            },
        ],
    ]
}

/// The items of the chat list.
pub open spec fn chat_items(m: AppModel, now: u64) -> Seq<Seq<Seq<SpanView>>> {
    m.chats.map_values(|c: ChatView| chat_lines(c, m.is_typing(c.id, now)))
}

fn chat_item(c: &Chat, typing: bool) -> (lines: Vec<Line>)
    ensures
        line_views(lines@) == chat_lines(c@, typing),
{
    let unread = if c.unread > 0 {
        between(" (", decimal_of(c.unread as u64).as_str(), ")")
    } else {
        "".to_string()
    };
    let title = Line::new().with(
        c.name.as_str(),
        Look { fg: None, bg: None, bold: true, italic: false },
    ).with(unread.as_str(), colored(Color::Yellow));
    let preview = if typing {
        Line::new().with("typing…", slanted(Color::Cyan))
    } else {
        Line::new().with(c.last_preview.as_str(), colored(Color::DarkGray))
    };
    let mut lines: Vec<Line> = Vec::new();
    lines.push(title);
    lines.push(preview);
    proof {
        let want = chat_lines(c@, typing);
        assert(title@ =~= want[0]);
        assert(preview@ =~= want[1]);
        assert(line_views(lines@) =~= want);
    }
    lines
}

/// The items of the chat list.
pub fn draw_chat_list(app: &App, now: u64) -> (items: Vec<Vec<Line>>)
    ensures
        item_views(items@) == chat_items(app@, now),
{
    let mut items: Vec<Vec<Line>> = Vec::new();
    let mut i: usize = 0;
    while i < app.chats.len()
        invariant
            i <= app.chats@.len(),
            items@.len() == i,
            forall|j: int|
                0 <= j < i ==> line_views((#[trigger] items@[j])@) == chat_lines(
                    app.chats@[j]@,
                    app@.is_typing(app.chats@[j]@.id, now),
                ),
        decreases app.chats.len() - i,
    {
        let typing = is_typing(app, &app.chats[i].id, now);
        items.push(chat_item(&app.chats[i], typing));
        i = i + 1;
    }
    assert(item_views(items@) =~= chat_items(app@, now));
    items
}

// ---- Messages ----

/// The title of the messages: the name of the open chat.
pub open spec fn title_of_messages(m: AppModel, now: u64) -> Seq<char> {
    if 0 <= m.chat_cursor < m.chats.len() {
        let c = m.chats[m.chat_cursor];
        if m.is_typing(c.id, now) {
            " "@ + c.name + "  · typing… "@
        } else {
            " "@ + c.name + " "@
        }
    } else {
        " — "@
    }
}

/// The title of the messages.
pub fn messages_title(app: &App, now: u64) -> (title: String)
    ensures
        title@ == title_of_messages(app@, now),
{
    if app.chat_cursor >= app.chats.len() {
        return " — ".to_string();
    }
    let c = &app.chats[app.chat_cursor];
    if is_typing(app, &c.id, now) {
        between(" ", c.name.as_str(), "  · typing… ")
    } else {
        between(" ", c.name.as_str(), " ")
    }
}

/// The columns for text in a pane of this width: all but the border, and at
/// least one.
pub open spec fn text_width(width: u16) -> nat {
    if width <= 3 {
        1
    } else {
        (width - 2) as nat
    }
}

/// The first line of a message: who, when, and whether it was edited.
pub open spec fn header_line(m: MessageView, clock: Seq<char>) -> Seq<SpanView> {
    let sender = piece(
        m.sender + " "@,
        if m.outgoing {
            strong(Color::Green)
        } else {
            strong(Color::Magenta)
        },
    );
    let time = piece(clock, colored(Color::DarkGray));
    if m.edited {
        seq![sender, time, piece(" (edited)"@, slanted(Color::DarkGray))]
    } else {
        seq![sender, time]
    }
}

/// The line that quotes what a message answers: as much of its first line as
/// there is room for, counting the sender by bytes.
pub open spec fn quote_line(messages: Seq<MessageView>, rid: u64, width: nat) -> Seq<SpanView> {
    let at = first_index(messages, message_is(rid));
    if at < messages.len() {
        let target = messages[at];
        let taken = encode_utf8(target.sender).len() + 4;
        let room = if taken <= width {
            (width - taken) as nat
        } else {
            0
        };
        seq![
            piece("↳ "@, colored(Color::Cyan)),
            piece(target.sender + ": "@, strong(Color::Cyan)),
            piece(shortened(first_line(target.text), room), colored(Color::DarkGray)),
        ]
    } else {
        seq![
            piece("↳ "@, colored(Color::Cyan)),
            piece("reply"@, slanted(Color::DarkGray)),
        ]
    }
}

/// What a message shows for its media.
pub open spec fn media_badge(kind: MediaKind) -> Seq<char> {
    match kind {
        MediaKind::Photo => "[📷 photo  — press v]"@,
        MediaKind::Video => "[🎬 video  — press v]"@,
        MediaKind::Document => "[📄 document]"@,
        MediaKind::Sticker => "[🪄 sticker  — press v]"@,
        MediaKind::Other => "[media]"@,
    }
}

/// The lines of text of a message.
pub open spec fn body_lines(text: Seq<char>, width: nat) -> Seq<Seq<SpanView>> {
    wrapped(text, width).map_values(|l: Seq<char>| seq![piece(l, plain())])
}

/// The lines of a message: header, quote, text, media and an empty line.
pub open spec fn message_lines(
    messages: Seq<MessageView>,
    m: MessageView,
    clock: Seq<char>,
    width: nat,
) -> Seq<Seq<SpanView>> {
    let quote = match m.reply_to_id {
        Some(rid) => seq![quote_line(messages, rid, width)],
        None => Seq::empty(),
    };
    let badge = match m.media_kind {
        Some(kind) => seq![seq![piece(media_badge(kind), strong(Color::Cyan))]],
        None => Seq::empty(),
    };
    seq![header_line(m, clock)] + quote + body_lines(m.text, width) + badge + seq![Seq::empty()]
}

/// The items of the message list.
pub open spec fn message_items(
    m: AppModel,
    clocks: Seq<Seq<char>>,
    width: nat,
) -> Seq<Seq<Seq<SpanView>>> {
    Seq::new(
        m.messages.len(),
        |i: int| message_lines(m.messages, m.messages[i], clocks[i], width),
    )
}

fn header_of(m: &Message, clock: &str) -> (l: Line)
    ensures
        l@ == header_line(m@, clock@),
{
    let sender = between("", m.sender.as_str(), " ");
    let style = if m.outgoing {
        strong(Color::Green)
    } else {
        strong(Color::Magenta)
    };
    let l = Line::new().with(sender.as_str(), style).with(clock, colored(Color::DarkGray));
    proof {
        reveal_strlit("");
        assert(sender@ =~= m@.sender + " "@);
    }
    if m.edited {
        let l = l.with(" (edited)", slanted(Color::DarkGray));
        assert(l@ =~= header_line(m@, clock@));
        l
    } else {
        assert(l@ =~= header_line(m@, clock@));
        l
    }
}

fn quote_of(messages: &Vec<Message>, rid: u64, width: usize) -> (l: Line)
    ensures
        l@ == quote_line(message_views(messages@), rid, width as nat),
{
    let at = find_message(messages, rid);
    if at >= messages.len() {
        let l = Line::new().with("↳ ", colored(Color::Cyan)).with(
            "reply",
            slanted(Color::DarkGray),
        );
        assert(l@ =~= quote_line(message_views(messages@), rid, width as nat));
        return l;
    }
    let target = &messages[at];
    let bytes = target.sender.as_str().as_bytes().len();
    let room = width.saturating_sub(bytes).saturating_sub(4);
    let line = first_line_of(target.text.as_str());
    let sender = between("", target.sender.as_str(), ": ");
    proof {
        reveal_strlit("");
        assert(sender@ =~= target@.sender + ": "@);
    }
    let l = Line::new().with("↳ ", colored(Color::Cyan)).with(
        sender.as_str(),
        strong(Color::Cyan),
    ).with(first_chars(line.as_str(), room).as_str(), colored(Color::DarkGray));
    assert(l@ =~= quote_line(message_views(messages@), rid, width as nat));
    l
}

fn badge_of(kind: MediaKind) -> (t: &'static str)
    ensures
        t@ == media_badge(kind),
{
    match kind {
        MediaKind::Photo => "[📷 photo  — press v]",
        MediaKind::Video => "[🎬 video  — press v]",
        MediaKind::Document => "[📄 document]",
        MediaKind::Sticker => "[🪄 sticker  — press v]",
        MediaKind::Other => "[media]",
    }
}

fn message_item(messages: &Vec<Message>, m: &Message, clock: &str, width: usize) -> (lines: Vec<
    Line,
>)
    ensures
        line_views(lines@) == message_lines(message_views(messages@), m@, clock@, width as nat),
{
    let ghost all = message_views(messages@);
    let mut lines: Vec<Line> = Vec::new();
    lines.push(header_of(m, clock));
    assert(line_views(lines@) =~= seq![header_line(m@, clock@)]);
    if let Some(rid) = m.reply_to_id {
        let ghost before = line_views(lines@);
        lines.push(quote_of(messages, rid, width));
        assert(line_views(lines@) =~= before + seq![quote_line(all, rid, width as nat)]);
    }
    let ghost head = line_views(lines@);
    let body = wrap_text(m.text.as_str(), width);
    let ghost want = body_lines(m@.text, width as nat);
    let mut i: usize = 0;
    assert(head + want.take(0) =~= head);
    while i < body.len()
        invariant
            i <= body@.len(),
            texts(body@) == wrapped(m@.text, width as nat),
            want == body_lines(m@.text, width as nat),
            line_views(lines@) == head + want.take(i as int),
        decreases body.len() - i,
    {
        let ghost before = line_views(lines@);
        let l = Line::new().with(body[i].as_str(), plain());
        proof {
            assert(texts(body@)[i as int] == body@[i as int]@);
            assert(l@ =~= want[i as int]);
            assert(want.take(i + 1) =~= want.take(i as int).push(want[i as int]));
        }
        lines.push(l);
        assert(line_views(lines@) =~= before.push(want[i as int]));
        assert(line_views(lines@) =~= head + want.take(i + 1));
        i = i + 1;
    }
    assert(want.take(body@.len() as int) =~= want);
    if let Some(kind) = m.media_kind {
        let ghost before = line_views(lines@);
        let l = Line::new().with(badge_of(kind), strong(Color::Cyan));
        assert(l@ =~= seq![piece(media_badge(kind), strong(Color::Cyan))]);
        lines.push(l);
        assert(line_views(lines@) =~= before + seq![
            seq![piece(media_badge(kind), strong(Color::Cyan))],
        ]);
    }
    let ghost before = line_views(lines@);
    lines.push(Line::new());
    proof {
        assert(line_views(lines@) =~= before + seq![Seq::<SpanView>::empty()]);
        assert(line_views(lines@) =~= message_lines(all, m@, clock@, width as nat));
    }
    lines
}

/// The items of the message list in a pane of this width. `clocks` holds the
/// time of day of every message.
pub fn draw_messages(app: &App, clocks: &Vec<String>, width: u16) -> (items: Vec<Vec<Line>>)
    requires
        clocks@.len() == app@.messages.len(),
    ensures
        item_views(items@) == message_items(app@, texts(clocks@), text_width(width)),
{
    let columns: usize = if width <= 3 {
        1
    } else {
        (width - 2) as usize
    };
    let mut items: Vec<Vec<Line>> = Vec::new();
    let mut i: usize = 0;
    while i < app.messages.len()
        invariant
            i <= app.messages@.len(),
            clocks@.len() == app.messages@.len(),
            columns == text_width(width),
            items@.len() == i,
            forall|j: int|
                0 <= j < i ==> line_views((#[trigger] items@[j])@) == message_lines(
                    app@.messages,
                    app@.messages[j],
                    texts(clocks@)[j],
                    columns as nat,
                ),
        decreases app.messages.len() - i,
    {
        items.push(message_item(&app.messages, &app.messages[i], clocks[i].as_str(), columns));
        i = i + 1;
    }
    assert(item_views(items@) =~= message_items(app@, texts(clocks@), text_width(width)));
    items
}

/// Which message is highlighted: the selected one, if there is any message.
pub fn selected_message(app: &App) -> (i: Option<usize>)
    ensures
        app@.messages.len() == 0 ==> i is None,
        app@.messages.len() > 0 ==> i == Some(app.msg_cursor),
{
    if app.messages.len() == 0 {
        None
    } else {
        Some(app.msg_cursor)
    }
}

// ---- Composer ----

/// The line above the composer that says what is being edited or answered.
pub open spec fn banner_line(m: AppModel) -> Option<Seq<SpanView>> {
    if m.editing is Some {
        Some(
            seq![
                piece("┃ "@, strong(Color::Green)),
                piece("editing message"@, strong(Color::Green)),
                piece("   (e to cancel)"@, colored(Color::DarkGray)),
            ],
        )
    } else {
        match m.replying_to {
            Some(r) => Some(
                seq![
                    piece("┃ "@, strong(Color::Cyan)),
                    piece("replying to "@, colored(Color::DarkGray)),
                    piece(r.sender, strong(Color::Cyan)),
                    piece(": "@, colored(Color::DarkGray)),
                    piece(r.preview, plain()),
                    piece("   (r to cancel)"@, colored(Color::DarkGray)),
                ],
            ),
            None => None,
        }
    }
}

/// The line above the composer, if there is one.
pub fn draw_compose_banner(app: &App) -> (l: Option<Line>)
    ensures
        l is Some <==> banner_line(app@) is Some,
        l matches Some(line) ==> line@ == banner_line(app@)->0,
{
    if app.editing.is_some() {
        let l = Line::new().with("┃ ", strong(Color::Green)).with(
            "editing message",
            strong(Color::Green),
        ).with("   (e to cancel)", colored(Color::DarkGray));
        assert(l@ =~= banner_line(app@)->0);
        return Some(l);
    }
    match &app.replying_to {
        Some(r) => {
            let l = Line::new().with("┃ ", strong(Color::Cyan)).with(
                "replying to ",
                colored(Color::DarkGray),
            ).with(r.sender.as_str(), strong(Color::Cyan)).with(
                ": ",
                colored(Color::DarkGray),
            ).with(r.preview.as_str(), plain()).with(
                "   (r to cancel)",
                colored(Color::DarkGray),
            );
            assert(l@ =~= banner_line(app@)->0);
            Some(l)
        },
        None => None,
    }
}

// ---- Status ----

/// How the name of a mode looks.
pub open spec fn mode_style(mode: Mode) -> Look {
    match mode {
        Mode::Normal => strong_on(Color::White, Color::Blue),
        Mode::Insert => strong_on(Color::Black, Color::Green),
        Mode::Search => strong_on(Color::White, Color::Magenta),
        Mode::Help => strong_on(Color::Black, Color::Yellow),
    }
}

/// The name of a pane.
pub open spec fn focus_label(focus: Focus) -> Seq<char> {
    match focus {
        Focus::ChatList => "[chats]"@,
        Focus::Messages => "[messages]"@,
        Focus::Input => "[input]"@,
    }
}

/// The status line: mode, pane and what was last reported.
pub open spec fn status_line(m: AppModel) -> Seq<SpanView> {
    seq![
        piece(m.mode.name(), mode_style(m.mode)),
        piece(" "@, plain()),
        piece(focus_label(m.focus), colored(Color::Cyan)),
        piece("  "@, plain()),
        piece(m.status, colored(Color::DarkGray)),
    ]
}

/// The status line.
pub fn draw_status(app: &App) -> (l: Line)
    ensures
        l@ == status_line(app@),
{
    let style = match app.mode {
        Mode::Normal => strong_on(Color::White, Color::Blue),
        Mode::Insert => strong_on(Color::Black, Color::Green),
        Mode::Search => strong_on(Color::White, Color::Magenta),
        Mode::Help => strong_on(Color::Black, Color::Yellow),
    };
    let focus = match app.focus {
        Focus::ChatList => "[chats]",
        Focus::Messages => "[messages]",
        Focus::Input => "[input]",
    };
    let l = Line::new().with(app.mode.label(), style).with(" ", plain()).with(
        focus,
        colored(Color::Cyan),
    ).with("  ", plain()).with(app.status.as_str(), colored(Color::DarkGray));
    assert(l@ =~= status_line(app@));
    l
}

// ---- The whole screen ----

/// The width of the chat list.
pub const CHAT_LIST_WIDTH: u16 = 32;

/// The height of the composer, with its border.
pub const INPUT_HEIGHT: u16 = 5;

/// The height of the line above the composer.
pub const BANNER_HEIGHT: u16 = 1;

/// The height of the status line.
pub const STATUS_HEIGHT: u16 = 1;

/// What a part of a divided area asks for, in rows or columns.
#[derive(Debug, Clone, Copy, PartialEq, Eq, Structural)]
pub enum Limit {
    /// So many.
    Length(u16),
    /// So many at least.
    Min(u16),
    /// So many of a hundred of the whole.
    Percentage(u16),
}

/// The screen, from top to bottom: the panes, and the status line.
pub fn screen_rows() -> (limits: Vec<Limit>)
    ensures
        limits@ == seq![Limit::Min(1), Limit::Length(STATUS_HEIGHT)],
{
    vec![Limit::Min(1), Limit::Length(STATUS_HEIGHT)]
}

/// The panes, from left to right: the chats, and the open chat.
pub fn pane_columns() -> (limits: Vec<Limit>)
    ensures
        limits@ == seq![Limit::Length(CHAT_LIST_WIDTH), Limit::Min(1)],
{
    vec![Limit::Length(CHAT_LIST_WIDTH), Limit::Min(1)]
}

/// The open chat, from top to bottom: its messages, the line above the
/// composer if there is one, and the composer.
pub fn chat_rows(banner: bool) -> (limits: Vec<Limit>)
    ensures
        banner ==> limits@ == seq![
            Limit::Min(1),
            Limit::Length(BANNER_HEIGHT),
            Limit::Length(INPUT_HEIGHT),
        ],
        !banner ==> limits@ == seq![Limit::Min(1), Limit::Length(INPUT_HEIGHT)],
{
    if banner {
        vec![Limit::Min(1), Limit::Length(BANNER_HEIGHT), Limit::Length(INPUT_HEIGHT)]
    } else {
        vec![Limit::Min(1), Limit::Length(INPUT_HEIGHT)]
    }
}

/// The picker, from top to bottom: the query, and the rows.
pub fn picker_rows() -> (limits: Vec<Limit>)
    ensures
        limits@ == seq![Limit::Length(3), Limit::Min(1)],
{
    vec![Limit::Length(3), Limit::Min(1)]
}

/// The image viewer, from top to bottom: the image.
pub fn viewer_rows() -> (limits: Vec<Limit>)
    ensures
        limits@ == seq![Limit::Min(1)],
{
    vec![Limit::Min(1)]
}

/// A window over the panes.
#[derive(Debug, Clone, Copy, PartialEq, Eq, Structural)]
pub enum Window {
    Help,
    Picker,
    Viewer,
}

impl Window {
    /// The width and the height, in percent of the screen.
    pub open spec fn size(self) -> (u16, u16) {
        match self {
            Window::Help => (60, 70),
            Window::Picker => (70, 70),
            Window::Viewer => (80, 80),
        }
    }

    /// The width and the height, in percent of the screen.
    pub fn percent(self) -> (size: (u16, u16))
        ensures
            size == self.size(),
            size.0 <= 100 && size.1 <= 100,
    {
        match self {
            Window::Help => (60, 70),
            Window::Picker => (70, 70),
            Window::Viewer => (80, 80),
        }
    }
}

/// An area of which the middle takes so many percent.
pub fn around_middle(percent: u16) -> (limits: Vec<Limit>)
    requires
        percent <= 100,
    ensures
        limits@ == seq![
            Limit::Percentage(((100 - percent) / 2) as u16),
            Limit::Percentage(percent),
            Limit::Percentage(((100 - percent) / 2) as u16),
        ],
{
    let side = (100 - percent) / 2;
    vec![Limit::Percentage(side), Limit::Percentage(percent), Limit::Percentage(side)]
}

/// Which parts of the screen there are besides the three panes and the status
/// line. The windows lie over the panes, the later over the earlier.
#[derive(Debug, Clone, Copy, PartialEq, Eq, Structural)]
pub struct Frame {
    /// The line above the composer.
    pub banner: bool,
    pub help: bool,
    pub picker: bool,
    pub viewer: bool,
}

/// The parts of the screen.
pub fn draw(app: &App) -> (f: Frame)
    ensures
        f.banner <==> app@.replying_to is Some || app@.editing is Some,
        f.banner <==> banner_line(app@) is Some,
        f.help <==> app@.mode == Mode::Help,
        f.picker <==> app@.fuzzy is Some,
        f.viewer <==> app@.image_viewer is Some,
{
    Frame {
        banner: app.replying_to.is_some() || app.editing.is_some(),
        help: app.mode == Mode::Help,
        picker: app.fuzzy.is_some(),
        viewer: app.image_viewer.is_some(),
    }
}

// ---- Windows ----

/// The line in which the query is typed.
pub open spec fn query_line(p: FuzzyView) -> Seq<SpanView> {
    seq![
        piece(p.target.prompt_text(), strong(Color::Magenta)),
        piece(p.query, plain()),
        piece("▏"@, colored(Color::Cyan)),
    ]
}

/// A listed row, with its score if it has one.
pub open spec fn match_line(p: FuzzyView, k: int) -> Seq<SpanView> {
    let (i, score) = p.ranked[k];
    let row = piece(
        if i < p.sources.len() {
            p.sources[i as int]
        } else {
            ""@
        },
        plain(),
    );
    if score > 0 {
        seq![row, piece("  ·"@ + decimal(score as nat), colored(Color::DarkGray))]
    } else {
        seq![row]
    }
}

/// The listed rows.
pub open spec fn match_lines(p: FuzzyView) -> Seq<Seq<SpanView>> {
    Seq::new(p.ranked.len(), |k: int| match_line(p, k))
}

/// The line in which the query is typed.
pub fn picker_prompt(p: &FuzzyPicker) -> (l: Line)
    ensures
        l@ == query_line(p@),
{
    let l = Line::new().with(p.target().prompt(), strong(Color::Magenta)).with(
        p.query(),
        plain(),
    ).with("▏", colored(Color::Cyan));
    assert(l@ =~= query_line(p@));
    l
}

/// The listed rows.
pub fn picker_lines(p: &FuzzyPicker) -> (lines: Vec<Line>)
    ensures
        line_views(lines@) == match_lines(p@),
{
    let ranked = p.ranked();
    let mut lines: Vec<Line> = Vec::new();
    let mut k: usize = 0;
    while k < ranked.len()
        invariant
            ranked@ == p@.ranked,
            k <= ranked@.len(),
            lines@.len() == k,
            forall|j: int| 0 <= j < k ==> (#[trigger] lines@[j])@ == match_line(p@, j),
        decreases ranked.len() - k,
    {
        let (i, score) = ranked[k];
        let text = match p.source(i) {
            Some(t) => t,
            None => "",
        };
        let mut l = Line::new().with(text, plain());
        if score > 0 {
            let mut note = "  ·".to_string();
            note.append(decimal_of(score as u64).as_str());
            l = l.with(note.as_str(), colored(Color::DarkGray));
        }
        assert(l@ =~= match_line(p@, k as int));
        lines.push(l);
        k = k + 1;
    }
    assert(line_views(lines@) =~= match_lines(p@));
    lines
}

/// The title above the listed rows.
pub fn picker_title(p: &FuzzyPicker) -> (t: String)
    ensures
        t@ == " "@ + decimal(p@.ranked.len()) + " matches "@,
{
    between(" ", decimal_of(p.ranked().len() as u64).as_str(), " matches ")
}

/// Which listed row is highlighted, if there is any.
pub fn picker_selection(p: &FuzzyPicker) -> (i: Option<usize>)
    ensures
        p@.ranked.len() == 0 ==> i is None,
        p@.ranked.len() > 0 ==> i == Some(p@.cursor),
{
    if p.ranked().len() == 0 {
        None
    } else {
        Some(p.cursor())
    }
}

/// `s` with spaces behind it up to `n` characters.
pub open spec fn padded(s: Seq<char>, n: nat) -> Seq<char> {
    if s.len() >= n {
        s
    } else {
        s + Seq::new((n - s.len()) as nat, |i: int| ' ')
    }
}

/// The lines of the help.
pub open spec fn help_lines() -> Seq<Seq<SpanView>> {
    bindings().map_values(
        |b: (Seq<char>, Seq<char>)|
            seq![piece("  "@ + padded(b.0, 18), strong(Color::Cyan)), piece(b.1, plain())],
    )
}

fn pad(s: &str, n: usize) -> (t: String)
    ensures
        t@ == padded(s@, n as nat),
{
    let mut t = s.to_string();
    let mut len: usize = chars_of(s).len();
    let ghost start = len as nat;
    assert(s@ + Seq::new(0, |i: int| ' ') =~= s@);
    while len < n
        invariant
            start == s@.len(),
            start <= len,
            start <= n ==> len <= n,
            start > n ==> len == start,
            t@ == s@ + Seq::new((len - start) as nat, |i: int| ' '),
        decreases n - len,
    {
        t.push(' ');
        assert(t@ =~= s@ + Seq::new((len + 1 - start) as nat, |i: int| ' '));
        len = len + 1;
    }
    t
}

/// The lines of the help.
pub fn draw_help() -> (lines: Vec<Line>)
    ensures
        line_views(lines@) == help_lines(),
{
    let list = bindings_help();
    let mut lines: Vec<Line> = Vec::new();
    let mut i: usize = 0;
    while i < list.len()
        invariant
            i <= list@.len() == bindings().len(),
            forall|j: int|
                0 <= j < list@.len() ==> (#[trigger] list@[j]).0@ == bindings()[j].0 && list@[j].1@
                    == bindings()[j].1,
            lines@.len() == i,
            forall|j: int| 0 <= j < i ==> (#[trigger] lines@[j])@ == help_lines()[j],
        decreases list.len() - i,
    {
        let (key, what) = list[i];
        let mut left = "  ".to_string();
        left.append(pad(key, 18).as_str());
        let l = Line::new().with(left.as_str(), strong(Color::Cyan)).with(what, plain());
        assert(l@ =~= help_lines()[i as int]);
        lines.push(l);
        i = i + 1;
    }
    assert(line_views(lines@) =~= help_lines());
    lines
}

/// The title of the image viewer: the name of the file, or a plain word for a
/// file whose name is no text.
pub fn image_title(file_name: Option<&str>) -> (t: String)
    ensures
        t@ == " "@ + (match file_name {
            Some(name) => name@,
            None => "image"@,
        }) + "   (v/Esc/q to close) "@,
{
    let name = match file_name {
        Some(name) => name,
        None => "image",
    };
    between(" ", name, "   (v/Esc/q to close) ")
}

} // verus!
