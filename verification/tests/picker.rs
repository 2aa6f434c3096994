use vim_telegam::fuzzy::{FuzzyPicker, FuzzyTarget};
use vim_telegam::score::Units;

fn rows(list: &[&str]) -> Vec<String> {
    list.iter().map(|s| s.to_string()).collect()
}

fn listed(p: &FuzzyPicker) -> Vec<usize> {
    p.ranked().iter().map(|(i, _)| *i).collect()
}

fn type_in(p: &mut FuzzyPicker, text: &str) {
    for c in text.chars() {
        p.push_char(c);
    }
}

#[test]
fn titles_and_prompts() {
    assert_eq!(FuzzyTarget::ChatList.title(), " Search chats ");
    assert_eq!(FuzzyTarget::Messages.title(), " Search messages ");
    assert_eq!(FuzzyTarget::GlobalSwitcher.title(), " Switch to chat ");
    assert_eq!(FuzzyTarget::ChatList.prompt(), "chat> ");
    assert_eq!(FuzzyTarget::Messages.prompt(), "msg> ");
    assert_eq!(FuzzyTarget::GlobalSwitcher.prompt(), "> ");
}

#[test]
fn nothing_typed_lists_everything() {
    let p = FuzzyPicker::new(FuzzyTarget::ChatList, rows(&["b", "a", "c"]));
    assert_eq!(p.ranked()[..], [(0, 0), (1, 0), (2, 0)]);
    assert_eq!(p.selected_source_index(), Some(0));
    assert_eq!(p.target(), FuzzyTarget::ChatList);
    let p = FuzzyPicker::new(FuzzyTarget::Messages, vec![]);
    assert_eq!(p.selected_source_index(), None);
}

#[test]
fn typing_narrows_and_ranks() {
    let mut p = FuzzyPicker::new(
        FuzzyTarget::ChatList,
        rows(&["zaxxlxx", "bob", "alice", "Al"]),
    );
    type_in(&mut p, "al");
    let order = listed(&p);
    assert_eq!(order.len(), 3);
    assert!(!order.contains(&1));
    assert_eq!(order[2], 0);
    let scores: Vec<u32> = p.ranked().iter().map(|(_, s)| *s).collect();
    assert!(scores.windows(2).all(|w| w[0] >= w[1]));
    assert!(scores[2] > 0);
    assert_eq!(p.query(), "al");
    assert_eq!(p.source(1), Some("bob"));
    assert_eq!(p.source(4), None);
}

#[test]
fn equal_scores_keep_their_order() {
    let mut p = FuzzyPicker::new(FuzzyTarget::Messages, rows(&["xq", "aq", "q", "bq"]));
    p.push_char('q');
    assert_eq!(listed(&p), [2, 0, 1, 3]);
}

#[test]
fn erasing_undoes_typing() {
    let mut p = FuzzyPicker::new(FuzzyTarget::ChatList, rows(&["alice", "bob", "carol"]));
    p.push_char('o');
    let before = p.ranked().clone();
    p.push_char('b');
    assert_eq!(listed(&p), [1]);
    p.pop_char();
    assert_eq!(*p.ranked(), before);
    assert_eq!(p.query(), "o");
    p.pop_char();
    p.pop_char();
    assert_eq!(p.query(), "");
    assert_eq!(listed(&p), [0, 1, 2]);
}

#[test]
fn the_highlight_goes_round() {
    let mut p = FuzzyPicker::new(FuzzyTarget::ChatList, rows(&["a", "b", "c"]));
    p.move_cursor(-1);
    assert_eq!(p.selected_source_index(), Some(2));
    p.move_cursor(1);
    assert_eq!(p.selected_source_index(), Some(0));
    p.move_cursor(i32::MIN);
    assert_eq!(p.cursor(), 1);
    p.move_cursor(i32::MAX);
    assert_eq!(p.cursor(), 2);
    let mut p = FuzzyPicker::new(FuzzyTarget::ChatList, vec![]);
    p.move_cursor(5);
    assert_eq!(p.cursor(), 0);
}

#[test]
fn typing_takes_the_highlight_to_the_best_row() {
    let mut p = FuzzyPicker::new(FuzzyTarget::ChatList, rows(&["xa", "a", "b"]));
    p.move_cursor(2);
    p.push_char('a');
    assert_eq!(p.cursor(), 0);
    assert_eq!(p.selected_source_index(), Some(1));
}

#[test]
fn capitals_far_apart_match_nothing() {
    let mut p = FuzzyPicker::new(FuzzyTarget::ChatList, rows(&["Alice and Bob", "xABx", "AB"]));
    type_in(&mut p, "AB");
    assert!(!listed(&p).contains(&0));
    assert!(listed(&p).contains(&1));
}

#[test]
fn small_letters_match_capitals() {
    let mut p = FuzzyPicker::new(FuzzyTarget::ChatList, rows(&["Alice and Bob"]));
    type_in(&mut p, "ab");
    assert_eq!(listed(&p), [0]);
}

#[test]
fn other_scripts_match() {
    let mut p = FuzzyPicker::new(FuzzyTarget::ChatList, rows(&["Привет  —  как дела", "Пока"]));
    type_in(&mut p, "дела");
    assert_eq!(listed(&p), [0]);
}

#[test]
fn a_very_long_query_matches_nothing() {
    let long = "a".repeat(3000);
    let mut p = FuzzyPicker::new(FuzzyTarget::Messages, vec![long.clone()]);
    for _ in 0..2521 {
        p.push_char('a');
    }
    assert!(p.ranked().is_empty());
    p.pop_char();
    assert_eq!(p.ranked().len(), 1);
}

#[test]
fn long_queries_in_other_scripts_match() {
    let query = "日".repeat(900);
    let mut p = FuzzyPicker::new(FuzzyTarget::Messages, vec![format!("me: {}", query)]);
    type_in(&mut p, &query);
    assert_eq!(p.ranked()[..], [(0, 23410)]);
}

#[test]
fn capitals_match_in_very_long_rows() {
    let query = "Abcdefghijklmnopqrstuvwxy";
    let mut row = String::new();
    for c in query.chars() {
        row.push(c);
        row.push_str(&".".repeat(170));
    }
    assert!(row.len() > 4100);
    let mut p = FuzzyPicker::new(FuzzyTarget::Messages, vec![row.clone(), row[..2000].to_string()]);
    type_in(&mut p, query);
    assert_eq!(listed(&p), [0]);
    let mut p = FuzzyPicker::new(FuzzyTarget::Messages, vec![row]);
    type_in(&mut p, "AB");
    assert!(p.ranked().is_empty());
}

#[test]
fn capitals_match_where_the_scratch_memory_ends() {
    for (len, shown) in [(11_093, 0), (11_094, 1)] {
        let row = format!("A{}b", ".".repeat(len - 2));
        let mut p = FuzzyPicker::new(FuzzyTarget::Messages, vec![row]);
        type_in(&mut p, "Ab");
        assert_eq!(p.ranked().len(), shown);
    }
}

#[test]
fn queries_match_as_long_as_the_score_fits() {
    let query = "a".repeat(2600);
    let mut p = FuzzyPicker::new(
        FuzzyTarget::Messages,
        vec![format!("me: x{}", query), query.clone(), "a".repeat(2599)],
    );
    type_in(&mut p, &query);
    assert_eq!(p.ranked()[..], [(0, 51996)]);
}

#[test]
fn queries_in_other_scripts_match_as_long_as_the_score_fits() {
    let query = "я".repeat(2600);
    let rows = vec![format!("me: x{}", query)];
    let mut p = FuzzyPicker::new(FuzzyTarget::Messages, rows);
    type_in(&mut p, &query);
    assert_eq!(p.ranked()[..], [(0, 51996)]);
}

fn units(text: &str) -> Units {
    let bytewise = text.is_ascii();
    Units { chars: text.chars().collect(), bytewise }
}

#[test]
fn scores_fit_up_to_sixteen_bits() {
    let fits = |row: &str, query: &str| units(row).does_score_fit(&units(query));
    // 16 for the first and 20 for each other character.
    assert!(fits(&format!("xx{}", "a".repeat(3276)), &"a".repeat(3276)));
    assert!(!fits(&format!("xx{}", "a".repeat(3277)), &"a".repeat(3277)));
    // 36 for the first and 26 for each other character.
    assert!(fits(&"a".repeat(2520), &"a".repeat(2520)));
    assert!(!fits(&"a".repeat(2521), &"a".repeat(2521)));
    // 3 off for each gap.
    assert!(fits(&"a.".repeat(2600), &"a".repeat(2600)));
    // No match, no score.
    assert!(fits(&"a".repeat(4000), &"b".repeat(4000)));
    assert!(fits(&"a".repeat(4000), &"a".repeat(4001)));
    assert!(fits(&"a".repeat(4000), &"я".repeat(3000)));
    assert!(!fits(&format!("{}я", "a".repeat(4000)), &"a".repeat(3900)));
    assert!(fits(&format!("{}я", "a".repeat(4000)), &"A".repeat(3900)));
    // Accents and capitals of the row are let go.
    assert!(!fits(&format!("x{}", "É".repeat(3300)), &"e".repeat(3300)));
    assert!(!fits(&format!("x{}", "Я".repeat(3300)), &"я".repeat(3300)));
}
