use ratatui::style::{Color as Paint, Style as Looks};
use std::path::PathBuf;
use vim_telegam::app::{App, EditTarget, Focus, ImageViewer, Mode, ReplyTarget};
use vim_telegam::clock::time_of_day;
use vim_telegam::fuzzy::{FuzzyPicker, FuzzyTarget};
use vim_telegam::input::{KeyCode, KeyEvent};
use vim_telegam::telegram::{Chat, MediaKind, Message, TgEvent, TgHandle};
use vim_telegam::ui::{
    around_middle, chat_rows, colored, draw, draw_chat_list, draw_compose_banner, draw_help,
    draw_messages, draw_status, image_title, messages_title, pane_columns, pane_style,
    picker_lines, picker_prompt, picker_rows, picker_selection, picker_title, plain, screen_rows,
    selected_message, slanted, strong, strong_on, viewer_rows, Color, Limit, Line, Window,
};

fn chat(id: &str, name: &str, unread: u32) -> Chat {
    Chat {
        id: id.to_string(),
        name: name.to_string(),
        username: None,
        last_preview: "see you".to_string(),
        unread,
    }
}

fn message(id: u64, sender: &str, text: &str) -> Message {
    Message {
        id,
        sender: sender.to_string(),
        text: text.to_string(),
        timestamp: 0,
        outgoing: false,
        reply_to_id: None,
        edited: false,
        media_kind: None,
        media_path: None,
    }
}

fn app_with(messages: Vec<Message>) -> App {
    let mut app = App::new(TgHandle::new(), vec![]);
    app.apply_event(TgEvent::ChatsLoaded(vec![chat("a", "Ann", 0), chat("b", "Bob", 12)]), 0);
    app.apply_event(TgEvent::MessagesLoaded { chat_id: "a".to_string(), messages }, 0);
    app
}

fn text(line: &Line) -> String {
    line.spans.iter().map(|s| s.text.as_str()).collect()
}

fn texts(lines: &[Line]) -> Vec<String> {
    lines.iter().map(text).collect()
}

#[test]
fn borders_show_the_focus() {
    assert_eq!(pane_style(true), strong(Color::Cyan));
    assert_eq!(pane_style(false), colored(Color::DarkGray));
}

#[test]
fn chats_show_unread_and_typing() {
    let mut app = app_with(vec![]);
    app.apply_event(TgEvent::Typing { chat_id: "b".to_string(), active: true }, 10);
    let items = draw_chat_list(&app, 11);
    assert_eq!(texts(&items[0]), ["Ann", "see you"]);
    assert_eq!(texts(&items[1]), ["Bob (12)", "typing…"]);
    assert!(items[1][0].spans[0].style.bold);
    assert_eq!(items[1][0].spans[1].style, colored(Color::Yellow));
    assert_eq!(items[1][1].spans[0].style, slanted(Color::Cyan));
    let items = draw_chat_list(&app, 6_000_000_010);
    assert_eq!(texts(&items[1]), ["Bob (12)", "see you"]);
}

#[test]
fn the_title_names_the_open_chat() {
    let mut app = app_with(vec![]);
    assert_eq!(messages_title(&app, 0), " Ann ");
    app.apply_event(TgEvent::Typing { chat_id: "a".to_string(), active: true }, 0);
    assert_eq!(messages_title(&app, 1), " Ann  · typing… ");
    app.chats.clear();
    assert_eq!(messages_title(&app, 0), " — ");
}

#[test]
fn a_message_has_header_text_and_gap() {
    let mut m = message(1, "Ann", "hello big world");
    m.edited = true;
    let app = app_with(vec![m]);
    let items = draw_messages(&app, &vec!["12:34".to_string()], 11);
    assert_eq!(texts(&items[0]), ["Ann 12:34 (edited)", "hello big", "world", ""]);
    assert_eq!(items[0][0].spans[0].style, strong(Color::Magenta));
    assert_eq!(items[0][0].spans[1].style, colored(Color::DarkGray));
    assert_eq!(items[0][0].spans[2].style, slanted(Color::DarkGray));
    assert_eq!(items[0][1].spans[0].style, plain());
    assert_eq!(selected_message(&app), Some(0));
}

#[test]
fn narrow_panes_have_one_column() {
    let app = app_with(vec![message(1, "A", "ab")]);
    for width in [0, 1, 2, 3] {
        let items = draw_messages(&app, &vec!["".to_string()], width);
        assert_eq!(texts(&items[0]), ["A ", "a", "b", ""]);
    }
}

#[test]
fn replies_quote_their_target() {
    let target = message(1, "Zoë", "the first line\nthe second");
    let mut m = message(2, "Ann", "yes");
    m.reply_to_id = Some(1);
    m.outgoing = true;
    let mut lost = message(3, "Ann", "no");
    lost.reply_to_id = Some(77);
    let app = app_with(vec![target, m, lost]);
    let clocks = vec!["1".to_string(), "2".to_string(), "3".to_string()];
    let items = draw_messages(&app, &clocks, 20);
    assert_eq!(texts(&items[1]), ["Ann 2", "↳ Zoë: the first ", "yes", ""]);
    assert_eq!(items[1][0].spans[0].style, strong(Color::Green));
    assert_eq!(texts(&items[2]), ["Ann 3", "↳ reply", "no", ""]);
    let items = draw_messages(&app, &clocks, 5);
    assert_eq!(text(&items[1][1]), "↳ Zoë: ");
}

#[test]
fn media_has_a_badge() {
    let kinds = [
        (MediaKind::Photo, "[📷 photo  — press v]"),
        (MediaKind::Video, "[🎬 video  — press v]"),
        (MediaKind::Document, "[📄 document]"),
        (MediaKind::Sticker, "[🪄 sticker  — press v]"),
        (MediaKind::Other, "[media]"),
    ];
    for (kind, badge) in kinds {
        let mut m = message(1, "Ann", "");
        m.media_kind = Some(kind);
        let app = app_with(vec![m]);
        let items = draw_messages(&app, &vec!["t".to_string()], 40);
        assert_eq!(texts(&items[0]), ["Ann t", "", badge, ""]);
        assert_eq!(items[0][2].spans[0].style, strong(Color::Cyan));
    }
}

#[test]
fn nothing_is_selected_among_no_messages() {
    let app = app_with(vec![]);
    assert_eq!(selected_message(&app), None);
}

#[test]
fn the_banner_says_what_is_written() {
    let mut app = app_with(vec![]);
    assert!(draw_compose_banner(&app).is_none());
    app.replying_to = Some(ReplyTarget {
        msg_id: 1,
        sender: "Ann".to_string(),
        preview: "hello".to_string(),
    });
    assert_eq!(text(&draw_compose_banner(&app).unwrap()), "┃ replying to Ann: hello   (r to cancel)");
    app.editing = Some(EditTarget { msg_id: 1 });
    assert_eq!(text(&draw_compose_banner(&app).unwrap()), "┃ editing message   (e to cancel)");
}

#[test]
fn the_status_line_names_mode_and_pane() {
    let mut app = app_with(vec![]);
    app.status = "fine".to_string();
    let line = draw_status(&app);
    assert_eq!(text(&line), " NORMAL  [chats]  fine");
    assert_eq!(line.spans[0].style, strong_on(Color::White, Color::Blue));
    app.mode = Mode::Insert;
    app.focus = Focus::Input;
    let line = draw_status(&app);
    assert_eq!(text(&line), " INSERT  [input]  fine");
    assert_eq!(line.spans[0].style, strong_on(Color::Black, Color::Green));
    app.mode = Mode::Search;
    app.focus = Focus::Messages;
    let line = draw_status(&app);
    assert_eq!(text(&line), " SEARCH  [messages]  fine");
    assert_eq!(line.spans[0].style, strong_on(Color::White, Color::Magenta));
    app.mode = Mode::Help;
    assert_eq!(draw_status(&app).spans[0].style, strong_on(Color::Black, Color::Yellow));
}

#[test]
fn the_frame_has_what_is_open() {
    let mut app = app_with(vec![]);
    let f = draw(&app);
    assert!(!f.banner && !f.help && !f.picker && !f.viewer);
    app.editing = Some(EditTarget { msg_id: 1 });
    app.mode = Mode::Help;
    app.image_viewer = Some(ImageViewer { path: PathBuf::from("/x") });
    let f = draw(&app);
    assert!(f.banner && f.help && !f.picker && f.viewer);
    app.open_fuzzy(FuzzyTarget::ChatList);
    assert!(draw(&app).picker);
}

#[test]
fn the_picker_shows_rows_and_scores() {
    let mut p = FuzzyPicker::new(
        FuzzyTarget::Messages,
        vec!["alpha".to_string(), "beta".to_string()],
    );
    assert_eq!(text(&picker_prompt(&p)), "msg> ▏");
    assert_eq!(texts(&picker_lines(&p)), ["alpha", "beta"]);
    assert_eq!(picker_title(&p), " 2 matches ");
    assert_eq!(picker_selection(&p), Some(0));
    p.push_char('l');
    assert_eq!(text(&picker_prompt(&p)), "msg> l▏");
    let lines = picker_lines(&p);
    let score = p.ranked()[0].1;
    assert_eq!(texts(&lines), [format!("alpha  ·{}", score)]);
    assert_eq!(lines[0].spans[1].style, colored(Color::DarkGray));
    p.push_char('z');
    assert_eq!(picker_title(&p), " 0 matches ");
    assert_eq!(picker_selection(&p), None);
}

#[test]
fn the_rows_of_chats_and_messages() {
    let mut app = app_with(vec![message(1, "Ann", "hi\nthere")]);
    app.open_fuzzy(FuzzyTarget::ChatList);
    assert_eq!(app.fuzzy.as_ref().unwrap().source(1), Some("Bob  —  see you"));
    app.open_fuzzy(FuzzyTarget::Messages);
    assert_eq!(app.fuzzy.as_ref().unwrap().source(0), Some("Ann: hi\nthere"));
}

#[test]
fn the_help_is_padded() {
    let lines = draw_help();
    assert_eq!(lines.len(), 17);
    assert_eq!(text(&lines[0]), "  q                 Quit");
    assert_eq!(lines[0].spans[0].text.len(), 20);
    assert_eq!(lines[0].spans[0].style, strong(Color::Cyan));
}

#[test]
fn the_image_title_names_the_file() {
    assert_eq!(image_title(Some("a_1")), " a_1   (v/Esc/q to close) ");
    assert_eq!(image_title(None), " image   (v/Esc/q to close) ");
}

#[test]
fn the_composer_is_drawn() {
    let mut app = app_with(vec![]);
    for c in "ihey".chars() {
        let key = KeyEvent { code: KeyCode::Char(c), ctrl: false, alt: false, shift: false };
        app.on_key(key, 0);
    }
    assert!(app.can_draw_input(2, 1, 10, 3));
    let buf = app.draw_input(Looks::default().fg(Paint::Red), 2, 1, 10, 3);
    assert_eq!((buf.area.x, buf.area.y, buf.area.width, buf.area.height), (2, 1, 10, 3));
    let row: String = (2..12).map(|x| buf[(x, 2)].symbol()).collect();
    assert_eq!(row, "│hey     │");
    assert_eq!(buf[(4, 1)].symbol(), "M");
    assert_eq!(buf[(2, 2)].fg, Paint::Red);
    assert!(app.can_draw_input(0, 0, 10, 0x8001));
    assert!(!app.can_draw_input(0, 0, 10, 0x8002));
    assert!(app.can_draw_input(0, 0x8000, 10, 0x8002));
    assert!(!app.can_draw_input(0, 0, u16::MAX, 3));
}

#[test]
fn page_keys_go_by_the_drawn_height() {
    let mut app = app_with(vec![]);
    let plain_key = |code| KeyEvent { code, ctrl: false, alt: false, shift: false };
    app.on_key(plain_key(KeyCode::Char('i')), 0);
    for _ in 0..9 {
        app.on_key(KeyEvent { code: KeyCode::Enter, ctrl: true, alt: false, shift: false }, 0);
    }
    app.draw_input(Looks::default(), 0, 0, 10, 6);
    app.on_key(plain_key(KeyCode::PageUp), 0);
    app.on_key(plain_key(KeyCode::Char('x')), 0);
    app.tg.take();
    app.on_key(plain_key(KeyCode::Enter), 0);
    let sent = app.tg.take();
    let text = sent.iter().find_map(|c| match c {
        vim_telegam::telegram::Command::Send { text, .. } => Some(text.clone()),
        _ => None,
    });
    let at = text.unwrap().split('\n').position(|l| l == "x").unwrap();
    assert!(at < 9);
}

#[test]
fn overlong_messages_are_drawn() {
    let key = |code| KeyEvent { code, ctrl: false, alt: false, shift: false };
    let mut long = message(1, "me", &"x".repeat(70_000));
    long.outgoing = true;
    let mut app = app_with(vec![long]);
    app.focus = Focus::Messages;
    app.on_key(key(KeyCode::Char('e')), 0);
    assert!(app.editing.is_some());
    assert!(app.can_draw_input(0, 0, 10, 5));
    let buf = app.draw_input(Looks::default(), 0, 0, 10, 5);
    assert_eq!(buf[(1, 1)].symbol(), "x");

    let mut near = message(1, "me", &"x".repeat(65_500));
    near.outgoing = true;
    let mut app = app_with(vec![near]);
    app.focus = Focus::Messages;
    app.on_key(key(KeyCode::Char('e')), 0);
    for _ in 0..2 {
        assert!(app.can_draw_input(0, 0, 102, 5));
        let buf = app.draw_input(Looks::default(), 0, 0, 102, 5);
        assert_eq!(buf[(99, 1)].symbol(), "x");
        assert_eq!(buf[(100, 1)].symbol(), " ");
    }
    for _ in 0..34 {
        app.on_key(key(KeyCode::Char('x')), 0);
    }
    assert!(app.can_draw_input(0, 0, 102, 5));
    app.draw_input(Looks::default(), 0, 0, 102, 5);
    app.on_key(key(KeyCode::Char('x')), 0);
    assert!(!app.can_draw_input(0, 0, 102, 5));
    app.on_key(key(KeyCode::Home), 0);
    assert!(app.can_draw_input(0, 0, 102, 5));
    app.draw_input(Looks::default(), 0, 0, 102, 5);

    let mut far = message(1, "me", &"x".repeat(0xffff));
    far.outgoing = true;
    let mut app = app_with(vec![far]);
    app.focus = Focus::Messages;
    app.on_key(key(KeyCode::Char('e')), 0);
    assert!(!app.can_draw_input(0, 0, 10, 5));

    let mut tall = message(1, "me", &"\n".repeat(70_000));
    tall.outgoing = true;
    let mut app = app_with(vec![tall]);
    app.focus = Focus::Messages;
    app.on_key(key(KeyCode::Char('e')), 0);
    assert!(app.can_draw_input(0, 0, 10, 5));
    app.draw_input(Looks::default(), 0, 0, 10, 5);
    for code in [KeyCode::PageUp, KeyCode::PageDown, KeyCode::PageDown, KeyCode::Up] {
        app.on_key(key(code), 0);
        assert!(app.can_draw_input(0, 0, 10, 5));
        app.draw_input(Looks::default(), 0, 0, 10, 5);
    }
}

#[test]
fn the_screen_is_divided() {
    assert_eq!(screen_rows(), [Limit::Min(1), Limit::Length(1)]);
    assert_eq!(pane_columns(), [Limit::Length(32), Limit::Min(1)]);
    assert_eq!(chat_rows(false), [Limit::Min(1), Limit::Length(5)]);
    assert_eq!(chat_rows(true), [Limit::Min(1), Limit::Length(1), Limit::Length(5)]);
    assert_eq!(picker_rows(), [Limit::Length(3), Limit::Min(1)]);
    assert_eq!(viewer_rows(), [Limit::Min(1)]);
    assert_eq!(Window::Help.percent(), (60, 70));
    assert_eq!(Window::Picker.percent(), (70, 70));
    assert_eq!(Window::Viewer.percent(), (80, 80));
    let sides = [Limit::Percentage(15), Limit::Percentage(70), Limit::Percentage(15)];
    assert_eq!(around_middle(70), sides);
}

#[test]
fn times_of_day() {
    assert_eq!(time_of_day(0, 0), "00:00");
    assert_eq!(time_of_day(1_700_000_000, 0), "22:13");
    assert_eq!(time_of_day(1_700_000_000, 7200), "00:13");
    assert_eq!(time_of_day(-1, 0), "23:59");
    assert_eq!(time_of_day(0, -5 * 3600 - 1800), "18:30");
    assert_eq!(time_of_day(8_210_266_876_799, 3600), "00:59");
    assert_eq!(time_of_day(8_210_266_876_800, 0), "");
    assert_eq!(time_of_day(-8_334_601_228_800, 0), "00:00");
    assert_eq!(time_of_day(-8_334_601_228_801, 0), "");
    assert_eq!(time_of_day(0, 86_399), "23:59");
    assert_eq!(time_of_day(0, 86_400), "");
}
