use yapper::session::Mode;
use yapper::ui::{
    bars, command_label, help_hints, help_prefix, indicators, port_budget, select_segments,
    truncate, width_mode, Bar, WidthMode,
};

#[test]
fn test_width_mode_thresholds() {
    assert_eq!(width_mode(120), WidthMode::Full);
    assert_eq!(width_mode(100), WidthMode::Full);
    assert_eq!(width_mode(99), WidthMode::Compact);
    assert_eq!(width_mode(80), WidthMode::Compact);
    assert_eq!(width_mode(79), WidthMode::Minimal);
    assert_eq!(width_mode(60), WidthMode::Minimal);
}

#[test]
fn test_command_label_truncates_by_display_width() {
    assert_eq!(command_label("abcdef", 4), "abc…");
    assert_eq!(command_label("a界bc", 4), "a界…");
}

#[test]
fn bars_follow_search_and_quick_send() {
    assert_eq!(
        bars(Mode::Normal, true, true, WidthMode::Full),
        vec![Bar::Status, Bar::Terminal, Bar::Input, Bar::Hints]
    );
    assert_eq!(
        bars(Mode::Search, true, false, WidthMode::Compact),
        vec![Bar::Status, Bar::Terminal, Bar::QuickSend, Bar::Search, Bar::Input, Bar::Hints]
    );
    assert_eq!(
        bars(Mode::Input, false, false, WidthMode::Minimal),
        vec![Bar::Status, Bar::Terminal, Bar::Search, Bar::Input, Bar::Hints]
    );
}

#[test]
fn hints_per_mode_and_width() {
    let hints = help_hints(Mode::Normal, WidthMode::Minimal);
    assert_eq!(hints, vec![("i", "input"), ("/", "find"), ("p", "ports"), ("?", "help")]);
    assert_eq!(help_hints(Mode::Input, WidthMode::Full).len(), 9);
    assert_eq!(help_hints(Mode::Help, WidthMode::Minimal), vec![("↑/↓", "scroll"), ("Esc", "close")]);
}

#[test]
fn hint_prefix_texts() {
    assert_eq!(help_prefix("1.0KB", "12B", WidthMode::Full, false), " RX: 1.0KB  TX: 12B │ ");
    assert_eq!(help_prefix("1B", "2B", WidthMode::Compact, true), " RX 1B  TX 2B  ●REC │ ");
    assert_eq!(help_prefix("1B", "2B", WidthMode::Minimal, true), "●REC │ ");
    assert_eq!(help_prefix("1B", "2B", WidthMode::Minimal, false), "");
}

#[test]
fn status_indicators() {
    assert_eq!(indicators(false, false, false, true, false), "");
    assert_eq!(indicators(true, false, true, false, true), "  [HEX|EOL|!TS|FILT]");
    assert_eq!(indicators(false, true, false, true, false), "  [HEX▹]");
}

#[test]
fn port_name_budget_and_truncation() {
    assert_eq!(port_budget(120, WidthMode::Full), 75);
    assert_eq!(port_budget(30, WidthMode::Full), 8);
    assert_eq!(port_budget(90, WidthMode::Compact), 62);
    assert_eq!(truncate("/dev/ttyUSB0", 20), "/dev/ttyUSB0");
    assert_eq!(truncate("/dev/ttyUSB0", 8), "/dev/tt…");
    assert_eq!(truncate("abc", 0), "…");
}

#[test]
fn selection_cuts_spans_at_selected_columns() {
    let spans = vec![" ".to_string(), "hello".to_string()];
    // Row 2 selected from column 3 to column 4 (area starting at column 0).
    let segments = select_segments(&spans, 2, 0, Some((2, 3, 2, 4))).unwrap();
    let parts: Vec<(&str, usize, bool)> =
        segments.iter().map(|s| (s.text.as_str(), s.span, s.selected)).collect();
    assert_eq!(parts, vec![(" ", 0, false), ("he", 1, false), ("ll", 1, true), ("o", 1, false)]);
    assert!(select_segments(&spans, 5, 0, Some((2, 3, 2, 4))).is_none());
    assert!(select_segments(&spans, 2, 0, None).is_none());
    // A middle row of a multi-row selection is selected whole.
    let whole = select_segments(&spans, 3, 0, Some((2, 0, 4, 0))).unwrap();
    assert!(whole.iter().all(|s| s.selected));
}
