use yapper::history::{history_file_text, split_lines, CommandHistory};
use yapper::paths::{default_history_path, expand_with_home, history_path_in};

fn test_history() -> CommandHistory {
    CommandHistory::new_in_memory(10)
}

#[test]
fn test_push_and_navigate() {
    let mut h = test_history();
    h.push("cmd1".to_string());
    h.push("cmd2".to_string());
    h.push("cmd3".to_string());

    assert_eq!(h.previous("").as_deref(), Some("cmd3"));
    assert_eq!(h.previous("").as_deref(), Some("cmd2"));
    assert_eq!(h.previous("").as_deref(), Some("cmd1"));
    // At start, stays at first
    assert_eq!(h.previous("").as_deref(), Some("cmd1"));

    assert_eq!(h.next().as_deref(), Some("cmd2"));
    assert_eq!(h.next().as_deref(), Some("cmd3"));
    // Past end, returns saved input
    assert_eq!(h.next().as_deref(), Some(""));
}

#[test]
fn test_dedup_consecutive() {
    let mut h = test_history();
    h.push("cmd1".to_string());
    h.push("cmd1".to_string());
    h.push("cmd2".to_string());
    assert_eq!(h.len(), 2);
}

#[test]
fn test_empty_not_added() {
    let mut h = test_history();
    h.push("".to_string());
    assert_eq!(h.len(), 0);
}

#[test]
fn test_saves_current_input() {
    let mut h = test_history();
    h.push("cmd1".to_string());
    h.push("cmd2".to_string());

    // User is typing "partial" when they press ↑
    assert_eq!(h.previous("partial").as_deref(), Some("cmd2"));
    assert_eq!(h.previous("partial").as_deref(), Some("cmd1"));
    // Navigate back to get the saved input
    assert_eq!(h.next().as_deref(), Some("cmd2"));
    assert_eq!(h.next().as_deref(), Some("partial"));
}

#[test]
fn test_max_entries() {
    let mut h = CommandHistory::new_in_memory(3);
    for i in 0..5 {
        h.push(format!("cmd{}", i));
    }
    assert_eq!(h.len(), 3);
    assert_eq!(h.previous("").as_deref(), Some("cmd4"));
}

#[test]
fn suggestions_complete_case_insensitively() {
    let mut h = test_history();
    h.push("AT+GMR".to_string());
    h.push("reset".to_string());
    assert_eq!(h.suggest("at").as_deref(), Some("AT+GMR"));
    assert_eq!(h.suggest("reset"), None);
    assert_eq!(h.suggest(""), None);
}

#[test]
fn top_commands_rank_by_use() {
    let mut h = test_history();
    for cmd in ["a", "b", "a", "c", "a", "b"] {
        h.push(cmd.to_string());
    }
    let top = h.top_commands(2);
    assert_eq!(top, vec!["a".to_string(), "b".to_string()]);
}

#[test]
fn loaded_entries_skip_blank_lines_and_keep_newest() {
    let mut h = CommandHistory::new_in_memory(2);
    h.load_entries(vec!["one".to_string(), "".to_string(), "two".to_string(), "three".to_string()]);
    assert_eq!(h.entries(), &vec!["two".to_string(), "three".to_string()]);
}

#[test]
fn configured_history_file() {
    let h = CommandHistory::from_config(42, "/tmp/yapper-history-test");
    assert_eq!(h.max_entries(), 42);
    assert_eq!(h.file_path().map(|s| s.as_str()), Some("/tmp/yapper-history-test"));
    assert_eq!(h.len(), 0);
}

#[test]
fn default_history_file_sits_in_the_data_directory() {
    if let Some(p) = default_history_path() {
        assert!(p.ends_with("yapper/history") || p.ends_with("yapper\\history"));
    }
}

#[test]
fn history_file_round_trip() {
    let mut h = CommandHistory::new_in_memory(10);
    h.push("AT".to_string());
    h.push("AT+GMR".to_string());
    let text = history_file_text(h.entries());
    assert_eq!(text, "AT\nAT+GMR\n");
    let mut back = CommandHistory::new_in_memory(10);
    back.load_entries(split_lines(&text));
    assert_eq!(back.entries(), h.entries());
    assert_eq!(split_lines("a\r\nb\n\nc"), vec!["a", "b", "", "c"]);
    assert_eq!(split_lines(""), Vec::<String>::new());
}

#[test]
fn stepping_back_k_times_then_forward_retraces() {
    let mut h = CommandHistory::new_in_memory(10);
    for c in ["one", "two", "three"] {
        h.push(c.to_string());
    }
    assert_eq!(h.previous("typed"), Some("three".to_string()));
    assert_eq!(h.previous("typed"), Some("two".to_string()));
    assert_eq!(h.next(), Some("three".to_string()));
    assert_eq!(h.next(), Some("typed".to_string()));
    assert_eq!(h.next(), None);
}

#[test]
fn tilde_paths_expand_to_the_home_directory() {
    let home = Some("/home/u".to_string());
    assert_eq!(expand_with_home("~/tmp", home.clone()), Some("/home/u/tmp".to_string()));
    assert_eq!(expand_with_home("~", home.clone()), home.clone());
    assert_eq!(expand_with_home("~/logs", None), None);
    assert_eq!(expand_with_home("  /var/log  ", home.clone()), Some("/var/log".to_string()));
    assert_eq!(expand_with_home("   ", home), None);
    assert_eq!(history_path_in("/data"), "/data/yapper/history");
}
