//! Keys, and the box in which messages are written.

use crate::text::{all_feedless, texts};
use ratatui::buffer::Buffer;
use ratatui::layout::Rect;
use ratatui::style::Style;
use ratatui::widgets::{Block, Borders, Widget};
use tui_textarea::{CursorMove, Input, Key, TextArea};
use vstd::prelude::*;

verus! {

/// A key of the keyboard.
#[derive(Debug, Clone, Copy, PartialEq, Eq, Structural)]
pub enum KeyCode {
    Char(char),
    Backspace,
    Enter,
    Left,
    Right,
    Up,
    Down,
    Tab,
    Delete,
    Home,
    End,
    PageUp,
    PageDown,
    Esc,
    /// Any other key.
    Other,
}

/// A key that was pressed, and the modifiers that were held.
#[derive(Debug, Clone, Copy, PartialEq, Eq, Structural)]
pub struct KeyEvent {
    pub code: KeyCode,
    pub ctrl: bool,
    pub alt: bool,
    pub shift: bool,
}

/// A rendered part of the screen, carried but never looked into.
#[verifier::external_type_specification]
#[verifier::external_body]
pub struct ExBuffer(Buffer);

/// The looks of a frame, carried but never looked into.
#[verifier::external_type_specification]
#[verifier::external_body]
pub struct ExStyle(Style);

/// The editor of the `tui-textarea` crate, a `TextArea`.
#[verifier::external_body]
pub struct TextBox {
    area: TextArea<'static>,
}

/// The lines that `TextArea::lines` shows.
pub uninterp spec fn area_lines(a: TextBox) -> Seq<Seq<char>>;

/// The row and the column of the cursor, in characters, as
/// `TextArea::cursor` gives them.
pub uninterp spec fn area_cursor(a: TextBox) -> (int, int);

/// What a `TextArea` keeps of how it was drawn: the first row and the first
/// column on show, and the number of rows.
pub uninterp spec fn on_show(a: TextBox) -> (int, int, int);

/// The editor after `TextArea::input` has taken a key.
pub uninterp spec fn after_key(a: TextBox, key: KeyEvent) -> TextBox;

/// The editor after `TextArea` was drawn as a widget inside a frame with this
/// title and this border, on the area at `x` and `y` of this size, and what it
/// drew there.
pub uninterp spec fn drawn(
    a: TextBox,
    title: Seq<char>,
    border: Style,
    x: u16,
    y: u16,
    width: u16,
    height: u16,
) -> (TextBox, Buffer);

/// What a [`Composer`] holds.
#[verifier::ext_equal]
pub struct ComposerView {
    pub lines: Seq<Seq<char>>,
    pub cursor: (int, int),
}

impl ComposerView {
    /// A composer in which nothing has been written: one empty line.
    pub open spec fn empty() -> ComposerView {
        ComposerView { lines: seq![Seq::empty()], cursor: (0, 0) }
    }

    /// These lines, with the cursor behind the last character.
    pub open spec fn at_end(lines: Seq<Seq<char>>) -> ComposerView {
        ComposerView { lines, cursor: (lines.len() - 1, lines.last().len() as int) }
    }

    /// Where the cursor is after a jump.
    pub open spec fn jumped(self, to: Jump) -> (int, int) {
        match to {
            Jump::Bottom => (
                self.lines.len() - 1,
                if self.cursor.1 < self.lines.last().len() {
                    self.cursor.1
                } else {
                    self.lines.last().len() as int
                },
            ),
            Jump::End => (self.cursor.0, self.lines[self.cursor.0].len() as int),
        }
    }

    /// Whether no line holds a line feed.
    pub open spec fn feedless(self) -> bool {
        all_feedless(self.lines)
    }

    /// Whether nothing has been written.
    pub open spec fn is_empty(self) -> bool {
        forall|i: int| 0 <= i < self.lines.len() ==> (#[trigger] self.lines[i]).len() == 0
    }
}

/// What an editor holds.
pub open spec fn area_view(a: TextBox) -> ComposerView {
    ComposerView { lines: area_lines(a), cursor: area_cursor(a) }
}

/// Where [`jump`] moves the cursor.
#[derive(Debug, Clone, Copy, PartialEq, Eq, Structural)]
pub enum Jump {
    /// To the last line, in the same column or at the end of a shorter line.
    Bottom,
    /// To the end of the line.
    End,
}

/// What a screen counted in 16 bits leaves of a width or height that begins
/// at `at`.
pub open spec fn clipped(at: u16, n: u16) -> int {
    if at + n <= 0xffff {
        n as int
    } else {
        0xffff - at
    }
}

/// What a frame leaves of a width or height.
pub open spec fn inside(n: int) -> int {
    if n >= 2 {
        n - 2
    } else {
        0
    }
}

/// The first row (or column) on show once the one at `at` is among the `len`
/// on show, if `top` was the first before.
pub open spec fn next_top(top: int, at: int, len: int) -> int {
    if at < top {
        at
    } else if top + len <= at {
        at + 1 - len
    } else {
        top
    }
}

/// The row (or column) of the cursor is among those on show, and what is on show
/// moves no further than it has to.
pub proof fn cursor_is_on_show(top: int, at: int, len: int)
    requires
        0 <= top,
        0 <= at,
        len > 0,
    ensures
        next_top(top, at, len) <= at < next_top(top, at, len) + len,
        top <= at < top + len ==> next_top(top, at, len) == top,
        at < top ==> next_top(top, at, len) == at,
        at >= top + len ==> next_top(top, at, len) + len == at + 1,
{
}

/// Whether [`next_top`] can be found in 16 bits.
pub open spec fn can_scroll(top: int, at: int, len: int) -> bool {
    at < top || (top + len <= 0xffff && (at < top + len || at < 0xffff))
}

/// What is on show after a drawing.
pub open spec fn shown_after(
    shown: (int, int, int),
    cursor: (int, int),
    x: u16,
    y: u16,
    width: u16,
    height: u16,
) -> (int, int, int) {
    let columns = inside(clipped(x, width));
    let rows = inside(clipped(y, height));
    (
        next_top(shown.0, cursor.0 % 0x1_0000, rows),
        next_top(shown.1, cursor.1 % 0x1_0000, columns),
        rows,
    )
}

/// Whether an editor can be drawn with this on show and its cursor there: it
/// finds the rows and columns to show in 16 bits, and keys scroll it on by a
/// signed number of rows.
pub open spec fn drawable(
    shown: (int, int, int),
    cursor: (int, int),
    x: u16,
    y: u16,
    width: u16,
    height: u16,
) -> bool {
    let columns = inside(clipped(x, width));
    let rows = inside(clipped(y, height));
    &&& columns <= 0x7fff
    &&& rows <= 0x7fff
    &&& can_scroll(shown.0, cursor.0 % 0x1_0000, rows)
    &&& can_scroll(shown.1, cursor.1 % 0x1_0000, columns)
}

impl KeyEvent {
    /// Whether the editor goes on by a page.
    pub open spec fn pages_down(self) -> bool {
        self.code == KeyCode::PageDown || (self.code == KeyCode::Char('v') && self.ctrl
            && !self.alt)
    }

    /// Whether the editor goes back by a page.
    pub open spec fn pages_up(self) -> bool {
        self.code == KeyCode::PageUp || (self.code == KeyCode::Char('v') && self.alt && !self.ctrl)
    }
}

/// What is on show after a key: only the keys that page move it, and not
/// beyond 16 bits.
pub open spec fn paged(shown: (int, int, int), key: KeyEvent) -> (int, int, int) {
    let row = if key.pages_down() {
        if shown.0 + shown.2 <= 0xffff {
            shown.0 + shown.2
        } else {
            0xffff
        }
    } else if key.pages_up() {
        if shown.0 >= shown.2 {
            shown.0 - shown.2
        } else {
            0
        }
    } else {
        shown.0
    };
    (row, shown.1, shown.2)
}

/// `TextArea::default`: one empty line, with the cursor at its start.
#[verifier::external_body]
fn empty_area() -> (a: TextBox)
    ensures
        area_view(a) == ComposerView::empty(),
        on_show(a) == (0int, 0int, 0int),
{
    TextBox { area: TextArea::default() }
}

/// `TextArea::new`: the lines as given, or one empty line for none, with the
/// cursor at the start.
#[verifier::external_body]
fn area_of(lines: Vec<String>) -> (a: TextBox)
    requires
        all_feedless(texts(lines@)),
    ensures
        lines@.len() > 0 ==> area_lines(a) == texts(lines@),
        lines@.len() == 0 ==> area_lines(a) == seq![Seq::<char>::empty()],
        area_cursor(a) == (0int, 0int),
        on_show(a) == (0int, 0int, 0int),
{
    TextBox { area: TextArea::new(lines) }
}

/// `TextArea::move_cursor`, which leaves everything but the cursor alone where
/// nothing is selected.
#[verifier::external_body]
fn jump(area: &mut TextBox, to: Jump)
    requires
        0 <= area_cursor(*old(area)).0 < area_lines(*old(area)).len(),
    ensures
        area_lines(*final(area)) == area_lines(*old(area)),
        area_cursor(*final(area)) == area_view(*old(area)).jumped(to),
        on_show(*final(area)) == on_show(*old(area)),
{
    area.area.move_cursor(match to {
        Jump::Bottom => CursorMove::Bottom,
        Jump::End => CursorMove::End,
    });
}

/// `TextArea::lines`, copied; there is always at least one.
#[verifier::external_body]
fn lines_in(area: &TextBox) -> (lines: Vec<String>)
    ensures
        texts(lines@) == area_lines(*area),
        lines@.len() > 0,
{
    area.area.lines().to_vec()
}

/// `TextArea::cursor`.
#[verifier::external_body]
fn cursor_in(area: &TextBox) -> (at: (usize, usize))
    ensures
        (at.0 as int, at.1 as int) == area_cursor(*area),
{
    area.area.cursor()
}

/// `TextArea::input`: what a key makes of the editor depends on the key and on
/// what the editor holds, its undo history, selection, yanked text and last
/// drawn size among it. No key puts a line feed into a line. A yanked piece of
/// a line with a line feed in it could not be pasted, and a page of more than
/// 0x7fff rows could not be turned.
#[verifier::external_body]
fn press(area: &mut TextBox, key: KeyEvent)
    requires
        all_feedless(area_lines(*old(area))),
        on_show(*old(area)).2 <= 0x7fff,
    ensures
        *final(area) == after_key(*old(area), key),
        all_feedless(area_lines(*final(area))),
        on_show(*final(area)) == paged(on_show(*old(area)), key),
{
    let code = match key.code {
        KeyCode::Char(c) => Key::Char(c), KeyCode::Other => Key::Null,
        KeyCode::Backspace => Key::Backspace, KeyCode::Enter => Key::Enter,
        KeyCode::Left => Key::Left, KeyCode::Right => Key::Right,
        KeyCode::Up => Key::Up, KeyCode::Down => Key::Down,
        KeyCode::Tab => Key::Tab, KeyCode::Delete => Key::Delete,
        KeyCode::Home => Key::Home, KeyCode::End => Key::End,
        KeyCode::PageUp => Key::PageUp, KeyCode::PageDown => Key::PageDown,
        KeyCode::Esc => Key::Esc,
    };
    area.area.input(Input { key: code, ctrl: key.ctrl, alt: key.alt, shift: key.shift });
}

/// `TextArea` drawn as a widget inside a bordered `Block`, on a buffer of its
/// own. The cells depend on the frame, the place and the size, and on what the
/// editor holds, its selection and what was on show among it. The text and the
/// cursor stay; what is on show now is kept for the next time and for the keys
/// that page.
#[verifier::external_body]
fn draw(
    area: &mut TextBox,
    title: &'static str,
    border: Style,
    x: u16,
    y: u16,
    width: u16,
    height: u16,
) -> (b: Buffer)
    requires
        title@.len() <= 0xff,
        drawable(on_show(*old(area)), area_cursor(*old(area)), x, y, width, height),
    ensures
        (*final(area), b) == drawn(*old(area), title@, border, x, y, width, height),
        area_view(*final(area)) == area_view(*old(area)),
        on_show(*final(area)) == shown_after(
            on_show(*old(area)),
            area_cursor(*old(area)),
            x,
            y,
            width,
            height,
        ),
{
    let rect = Rect::new(x, y, width, height);
    let mut b = Buffer::empty(rect);
    let block = Block::default().borders(Borders::ALL).border_style(border).title(title);
    area.area.set_block(block);
    area.area.set_cursor_line_style(Style::default());
    (&area.area).render(rect, &mut b);
    b
}

/// An editor, with a record of what it has on show.
struct Editor {
    area: TextBox,
    row: u16,
    column: u16,
    height: u16,
}

impl Editor {
    /// Whether no line holds a line feed, and the record is right.
    spec fn sound(self) -> bool {
        &&& all_feedless(area_lines(self.area))
        &&& on_show(self.area) == (self.row as int, self.column as int, self.height as int)
        &&& self.height <= 0x7fff
    }

    fn press(&mut self, key: KeyEvent)
        requires
            old(self).sound(),
        ensures
            final(self).sound(),
            final(self).area == after_key(old(self).area, key),
    {
        press(&mut self.area, key);
        let turns = key.code == KeyCode::Char('v');
        if key.code == KeyCode::PageDown || (turns && key.ctrl && !key.alt) {
            self.row = self.row.saturating_add(self.height);
        } else if key.code == KeyCode::PageUp || (turns && key.alt && !key.ctrl) {
            self.row = self.row.saturating_sub(self.height);
        }
    }

    fn can_draw(&self, x: u16, y: u16, width: u16, height: u16) -> (b: bool)
        requires
            self.sound(),
        ensures
            b == drawable(on_show(self.area), area_cursor(self.area), x, y, width, height),
    {
        let columns = room(x, width);
        let rows = room(y, height);
        let at = cursor_in(&self.area);
        columns <= 0x7fff && rows <= 0x7fff && scrolls(self.row, low_bits(at.0), rows) && scrolls(
            self.column,
            low_bits(at.1),
            columns,
        )
    }

    fn draw(
        &mut self,
        title: &'static str,
        border: Style,
        x: u16,
        y: u16,
        width: u16,
        height: u16,
    ) -> (b: Buffer)
        requires
            old(self).sound(),
            title@.len() <= 0xff,
            drawable(on_show(old(self).area), area_cursor(old(self).area), x, y, width, height),
        ensures
            final(self).sound(),
            (final(self).area, b) == drawn(old(self).area, title@, border, x, y, width, height),
            area_view(final(self).area) == area_view(old(self).area),
    {
        let columns = room(x, width);
        let rows = room(y, height);
        let at = cursor_in(&self.area);
        let b = draw(&mut self.area, title, border, x, y, width, height);
        self.row = top_after(self.row, low_bits(at.0), rows);
        self.column = top_after(self.column, low_bits(at.1), columns);
        self.height = rows;
        b
    }
}

/// The lower 16 bits.
fn low_bits(n: usize) -> (m: u16)
    ensures
        m == n % 0x1_0000,
{
    (n % 0x1_0000) as u16
}

/// What is left of a width or height on the screen and inside of a frame.
fn room(at: u16, n: u16) -> (m: u16)
    ensures
        m == inside(clipped(at, n)),
{
    let most: u16 = 0xffff - at;
    if n <= most {
        n.saturating_sub(2)
    } else {
        most.saturating_sub(2)
    }
}

fn scrolls(top: u16, at: u16, len: u16) -> (b: bool)
    ensures
        b == can_scroll(top as int, at as int, len as int),
{
    at < top || (len <= 0xffff - top && (at < top + len || at < 0xffff))
}

fn top_after(top: u16, at: u16, len: u16) -> (new: u16)
    requires
        can_scroll(top as int, at as int, len as int),
    ensures
        new == next_top(top as int, at as int, len as int),
{
    if at < top {
        at
    } else if top + len <= at {
        at + 1 - len
    } else {
        top
    }
}

/// The box in which a message is written: a `TextArea` of the `tui-textarea`
/// crate, in which no line holds a line feed.
pub struct Composer {
    editor: Editor,
}

impl View for Composer {
    type V = ComposerView;

    open spec fn view(&self) -> ComposerView {
        area_view(self.area())
    }
}

impl Composer {
    #[verifier::type_invariant]
    pub(crate) closed spec fn sound(self) -> bool {
        self.editor.sound()
    }

    /// No line of a composer holds a line feed.
    pub(crate) proof fn lemma_sound(self)
        requires
            self.sound(),
        ensures
            self@.feedless(),
    {
    }

    /// The editor.
    pub closed spec fn area(self) -> TextBox {
        self.editor.area
    }

    /// What a key would make of it.
    pub open spec fn typed(self, key: KeyEvent) -> ComposerView {
        area_view(after_key(self.area(), key))
    }

    /// A composer in which nothing has been written.
    pub(crate) fn empty() -> (c: Composer)
        ensures
            c@ == ComposerView::empty(),
    {
        Composer { editor: Editor { area: empty_area(), row: 0, column: 0, height: 0 } }
    }

    /// A composer that holds `lines`, with the cursor behind the last
    /// character.
    pub(crate) fn prefilled(lines: Vec<String>) -> (c: Composer)
        requires
            lines@.len() > 0,
            all_feedless(texts(lines@)),
        ensures
            c@ == ComposerView::at_end(texts(lines@)),
    {
        let mut area = area_of(lines);
        jump(&mut area, Jump::Bottom);
        jump(&mut area, Jump::End);
        Composer { editor: Editor { area, row: 0, column: 0, height: 0 } }
    }

    /// The lines.
    pub(crate) fn lines(&self) -> (lines: Vec<String>)
        ensures
            texts(lines@) == self@.lines,
            lines@.len() > 0,
            self@.feedless(),
    {
        proof {
            use_type_invariant(self);
        }
        lines_in(&self.editor.area)
    }

    /// Lends the editor out; an empty one stands in for it.
    fn lend(&mut self) -> (editor: Editor)
        ensures
            editor.sound(),
            editor.area == old(self).area(),
    {
        let mut c = Composer::empty();
        std::mem::swap(self, &mut c);
        proof {
            use_type_invariant(&c);
        }
        c.editor
    }

    /// Takes a key in.
    pub(crate) fn press(&mut self, key: KeyEvent)
        ensures
            final(self).area() == after_key(old(self).area(), key),
    {
        let mut editor = self.lend();
        editor.press(key);
        *self = Composer { editor };
    }

    /// Whether it can be drawn there.
    pub(crate) fn can_draw(&self, x: u16, y: u16, width: u16, height: u16) -> (b: bool)
        ensures
            b == drawable(on_show(self.area()), self@.cursor, x, y, width, height),
    {
        proof {
            use_type_invariant(self);
        }
        self.editor.can_draw(x, y, width, height)
    }

    /// Draws it there, inside a frame.
    pub(crate) fn draw(
        &mut self,
        title: &'static str,
        border: Style,
        x: u16,
        y: u16,
        width: u16,
        height: u16,
    ) -> (b: Buffer)
        requires
            title@.len() <= 0xff,
            drawable(on_show(old(self).area()), old(self)@.cursor, x, y, width, height),
        ensures
            (final(self).area(), b) == drawn(old(self).area(), title@, border, x, y, width, height),
            final(self)@ == old(self)@,
    {
        let mut editor = self.lend();
        let b = editor.draw(title, border, x, y, width, height);
        *self = Composer { editor };
        b
    }
}

} // verus!
