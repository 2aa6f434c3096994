use vim_telegam::wrap::wrap_text;

fn ink(s: &str) -> String {
    s.chars().filter(|c| !c.is_whitespace()).collect()
}

#[test]
fn words_fill_lines() {
    assert_eq!(wrap_text("the quick brown fox", 10), ["the quick", "brown fox"]);
    assert_eq!(wrap_text("the quick brown fox", 9), ["the quick", "brown fox"]);
    assert_eq!(wrap_text("the quick brown fox", 8), ["the", "quick", "brown", "fox"]);
}

#[test]
fn white_space_collapses_and_line_feeds_stay() {
    assert_eq!(wrap_text("a   b\t c", 20), ["a b c"]);
    assert_eq!(wrap_text("a\n\nb\n", 20), ["a", "", "b", ""]);
    assert_eq!(wrap_text("   ", 20), [""]);
    assert_eq!(wrap_text("", 20), [""]);
}

#[test]
fn long_words_are_broken() {
    assert_eq!(wrap_text("abcdefgh", 3), ["abc", "def", "gh"]);
    assert_eq!(wrap_text("hi abcdefgh yo", 3), ["hi", "abc", "def", "gh", "yo"]);
    assert_eq!(wrap_text("hi abcdefg yo", 4), ["hi", "abcd", "efg", "yo"]);
}

#[test]
fn wide_characters_take_two_columns() {
    assert_eq!(wrap_text("你好吗", 4), ["你好", "吗"]);
    assert_eq!(wrap_text("你好", 1), ["你", "好"]);
    assert_eq!(wrap_text("e\u{301}e\u{301}", 2), ["e\u{301}e\u{301}"]);
}

#[test]
fn without_columns_nothing_is_broken() {
    assert_eq!(wrap_text("a b\nc", 0), ["a b\nc"]);
}

#[test]
fn nothing_but_white_space_gets_lost() {
    let text = "Lorem ipsum  dolor\n sit amet, consectetur\tadipiscing 你好 elit";
    for width in 1..30 {
        let lines = wrap_text(text, width);
        assert_eq!(ink(&lines.concat()), ink(text));
        assert!(lines.len() >= 2);
    }
}

#[test]
fn wrapping_again_changes_nothing() {
    let text = "Lorem ipsum  dolor\n\n sit amet,\tconsectetur adipiscing 你好 elit\n";
    for width in 1..30 {
        let lines = wrap_text(text, width);
        assert_eq!(wrap_text(&lines.join("\n"), width), lines);
    }
}

#[test]
fn any_white_space_parts_words() {
    assert_eq!(wrap_text("a\u{a0}b\u{2003}c\u{3000}d\u{85}e", 20), ["a b c d e"]);
    assert_eq!(wrap_text("a\u{200b}b", 20), ["a\u{200b}b"]);
}

#[test]
fn paragraphs_are_wrapped_each_by_itself() {
    let (a, b) = ("the quick brown\nfox", "jumps over");
    for width in 1..12 {
        let both = wrap_text(&format!("{}\n{}", a, b), width);
        assert_eq!(both, [wrap_text(a, width), wrap_text(b, width)].concat());
    }
}

#[test]
fn no_fewer_lines_would_do() {
    assert_eq!(wrap_text("aaa bb cc ddddd", 6).len(), 3);
    for line in wrap_text("a  b\tc d", 3) {
        assert!(line.split(' ').all(|word| !word.is_empty()));
    }
}
