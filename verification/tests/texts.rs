use vim_telegam::text::{
    decimal_of, first_chars, first_line_of, is_blank, join_lines_of, lines_of, parse_i32, trim_of,
    words_of,
};
use vim_telegam::textmap::TextMap;

#[test]
fn lines_join_back() {
    for s in ["", "\n", "a", "a\nb", "a\n\nb\n", "a\r\nb"] {
        assert_eq!(join_lines_of(&lines_of(s)), s);
        let want: Vec<String> = s.split('\n').map(String::from).collect();
        assert_eq!(lines_of(s), want);
    }
}

#[test]
fn first_lines_lose_their_ending() {
    for s in ["", "\n", "a", "a\nb", "a\r\nb", "a\r", "\r\n", "a\rb\nc", "\nx"] {
        assert_eq!(first_line_of(s), s.lines().next().unwrap_or(""));
    }
}

#[test]
fn words_and_blanks() {
    for s in ["", "  ", " a  b\tc\n", "a\u{a0}b", "x"] {
        let want: Vec<String> = s.split_whitespace().map(String::from).collect();
        assert_eq!(words_of(s), want);
        assert_eq!(trim_of(s), s.trim());
        assert_eq!(is_blank(s), s.trim().is_empty());
    }
}

#[test]
fn numbers_are_written_and_read() {
    for n in [0, 7, 10, 99, 100, u64::MAX] {
        assert_eq!(decimal_of(n), n.to_string());
    }
    for s in [
        "0", "-0", "+5", "-5", "007", "2147483647", "2147483648", "-2147483648", "-2147483649",
        "", "+", "-", "1 ", "1a", "٣", "99999999999999999999",
    ] {
        assert_eq!(parse_i32(s), s.parse::<i32>().ok(), "{}", s);
    }
}

#[test]
fn texts_are_cut() {
    assert_eq!(first_chars("añb", 2), "añ");
    assert_eq!(first_chars("añb", 9), "añb");
}

#[test]
fn maps_replace_and_forget() {
    let mut m: TextMap<u64> = TextMap::new();
    m.insert("a".to_string(), 1);
    m.insert("b".to_string(), 2);
    m.insert("a".to_string(), 3);
    assert_eq!(m.len(), 2);
    assert_eq!(m.get(&"a".to_string()), Some(&3));
    assert_eq!(m.get(&"c".to_string()), None);
    m.keep_later(2);
    assert!(m.contains(&"a".to_string()));
    assert!(!m.contains(&"b".to_string()));
    assert_eq!(m.remove(&"a".to_string()), Some(3));
    assert_eq!(m.remove(&"a".to_string()), None);
}

#[test]
fn lines_are_joined_and_split_again() {
    let lines = vec!["one".to_string(), String::new(), "two ".to_string()];
    assert_eq!(join_lines_of(&lines), "one\n\ntwo ");
    assert_eq!(lines_of("one\n\ntwo "), lines);
    assert_eq!(lines_of(""), [""]);
}
