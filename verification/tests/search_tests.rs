use yapper::search::Search;

fn make_lines(lines: &[&str]) -> Vec<String> {
    lines.iter().map(|l| l.to_string()).collect()
}

#[test]
fn test_search_basic() {
    let buf = make_lines(&["hello world", "foo bar", "hello again"]);
    let mut search = Search::new();
    search.query = "hello".to_string();
    search.execute(&buf);

    assert_eq!(search.matches.len(), 2);
    assert_eq!(search.matches[0], 0);
    assert_eq!(search.matches[1], 2);
}

#[test]
fn test_search_case_insensitive() {
    let buf = make_lines(&["Hello World", "HELLO", "hello"]);
    let mut search = Search::new();
    search.query = "hello".to_string();
    search.execute(&buf);

    assert_eq!(search.matches.len(), 3);
}

#[test]
fn test_search_navigation() {
    let buf = make_lines(&["match1", "no", "match2", "no", "match3"]);
    let mut search = Search::new();
    search.query = "match".to_string();
    search.execute(&buf);

    assert_eq!(search.matches.len(), 3);
    // Starts at last match
    assert_eq!(search.current_line(), Some(4));

    // Next wraps to first
    assert_eq!(search.next_match(), Some(0));
    assert_eq!(search.next_match(), Some(2));
    assert_eq!(search.next_match(), Some(4));
    assert_eq!(search.next_match(), Some(0)); // wrap

    // Prev
    assert_eq!(search.prev_match(), Some(4)); // wrap back
    assert_eq!(search.prev_match(), Some(2));
}

#[test]
fn test_search_no_matches() {
    let buf = make_lines(&["hello", "world"]);
    let mut search = Search::new();
    search.query = "xyz".to_string();
    search.execute(&buf);

    assert!(search.matches.is_empty());
    assert_eq!(search.match_status(), "No matches");
}

#[test]
fn test_match_status() {
    let buf = make_lines(&["a", "b", "a"]);
    let mut search = Search::new();
    search.query = "a".to_string();
    search.execute(&buf);

    assert_eq!(search.match_status(), "2/2");
    search.prev_match();
    assert_eq!(search.match_status(), "1/2");
}

#[test]
fn typing_and_deleting_the_query() {
    let mut search = Search::new();
    search.activate();
    assert!(search.is_active);
    search.push_char('o');
    search.push_char('k');
    assert_eq!(search.query, "ok");
    search.pop_char();
    assert_eq!(search.query, "o");
    search.execute(&make_lines(&["ok", "no"]));
    assert!(search.is_match(0) && search.is_match(1));
    assert_eq!(search.match_lines(), vec![0, 1]);
    search.deactivate();
    assert!(!search.is_active);
    assert_eq!(search.match_status(), "2/2");
    search.activate();
    assert_eq!(search.match_status(), "");
}
