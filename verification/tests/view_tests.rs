use yapper::highlight::{highlight_line, HighlightKind};
use yapper::keys::{key_action, step_down, step_up, Action, InputContext, KeyCode, KeyPress};
use yapper::logging::LogFormat;
use yapper::mouse::{
    click_target, mouse_action, port_click, selected_lines, settings_click, ClickAction,
    LayoutRegions, MouseAction, MouseKind, TextSelection,
};
use yapper::filter::LineFilter;
use yapper::scroll::{visible_range, Scroll};
use yapper::serial::config::{DataBits, SerialConfig};
use yapper::session::Mode;
use yapper::settings::{baud_rates, cycle_value, data_bits_str, flow_control_str, parity_str};
use yapper::theme::{LineLevel, Theme};
use yapper::transport::RealTransport;

fn key(code: KeyCode) -> KeyPress {
    KeyPress { code, ctrl: false }
}

#[test]
fn keys_in_normal_and_input_mode() {
    let ctx = InputContext { cursor_at_end: true, has_suggestion: true };
    assert_eq!(key_action(Mode::Normal, key(KeyCode::Char('q')), ctx), Action::Quit);
    assert_eq!(key_action(Mode::Normal, key(KeyCode::Char('z')), ctx), Action::TypeInInput('z'));
    assert_eq!(
        key_action(Mode::Normal, KeyPress { code: KeyCode::Char('d'), ctrl: true }, ctx),
        Action::ScrollDown(10)
    );
    assert_eq!(key_action(Mode::Input, key(KeyCode::F(3)), ctx), Action::QuickSend(2));
    assert_eq!(key_action(Mode::Input, key(KeyCode::Right), ctx), Action::AcceptSuggestion);
    let mid = InputContext { cursor_at_end: false, has_suggestion: true };
    assert_eq!(key_action(Mode::Input, key(KeyCode::Right), mid), Action::CursorRight);
    assert_eq!(
        key_action(Mode::Settings, KeyPress { code: KeyCode::Char('c'), ctrl: true }, ctx),
        Action::ReturnToInput
    );
    assert_eq!(
        key_action(Mode::Search, KeyPress { code: KeyCode::Char('l'), ctrl: true }, ctx),
        Action::SearchChar('l')
    );
    assert_eq!(key_action(Mode::Filter, key(KeyCode::Char('k')), ctx), Action::SelectionUp);
    assert_eq!(step_up(0), 0);
    assert_eq!(step_down(4, 6), 5);
    assert_eq!(step_down(5, 6), 5);
}

#[test]
fn text_selection_is_normalized() {
    let mut sel = TextSelection::new();
    sel.drag_to(10, 5);
    sel.drag_to(2, 3);
    assert_eq!(sel.range(), (3, 2, 5, 10));
    assert!(sel.contains(2, 3));
    assert!(sel.contains(0, 4));
    assert!(!sel.contains(11, 5));
    assert!(!sel.contains(1, 3));
    sel.clear();
    assert!(!sel.contains(0, 4));
}

#[test]
fn clicks_and_wheel() {
    let regions = LayoutRegions {
        status_bar: (0, 0, 80, 1),
        terminal_view: (0, 1, 80, 20),
        input_bar: (0, 22, 80, 1),
    };
    assert_eq!(click_target(&regions, 10, 0), ClickAction::ToggleConnection);
    assert_eq!(click_target(&regions, 50, 0), ClickAction::OpenSettings);
    assert_eq!(click_target(&regions, 9, 22), ClickAction::FocusInput { cursor: 5 });
    assert_eq!(click_target(&regions, 2, 22), ClickAction::FocusInput { cursor: 0 });
    assert_eq!(click_target(&regions, 5, 10), ClickAction::StartSelection);
    assert_eq!(click_target(&regions, 5, 23), ClickAction::Nothing);
    assert_eq!(mouse_action(Mode::Settings, MouseKind::ScrollDown), MouseAction::SelectionDown);
    assert_eq!(mouse_action(Mode::Normal, MouseKind::ScrollUp), MouseAction::ScrollUp(3));
    assert_eq!(mouse_action(Mode::Help, MouseKind::LeftDown), MouseAction::Nothing);
    let _ = LayoutRegions::default();
}

#[test]
fn popup_clicks() {
    // 20-row view: screen 24 rows; 2 ports → popup 8 rows at row 8, items from row 11.
    assert_eq!(port_click(20, 2, 11), Some(0));
    assert_eq!(port_click(20, 2, 12), Some(1));
    assert_eq!(port_click(20, 2, 13), None);
    assert_eq!(port_click(20, 2, 5), None);
    // Settings popup 16 rows at row 4; fields from row 6, every other row.
    assert_eq!(settings_click(20, 6), Some(0));
    assert_eq!(settings_click(20, 7), None);
    assert_eq!(settings_click(20, 16), Some(5));
    assert_eq!(settings_click(20, 18), None);
}

#[test]
fn copied_rows_map_to_visible_lines() {
    assert_eq!(selected_lines(1, 3, 1, 10, 5, 20), vec![5, 6, 7]);
    assert_eq!(selected_lines(0, 2, 1, 10, 5, 6), vec![5]);
    assert_eq!(selected_lines(3, 1, 1, 10, 5, 20), Vec::<usize>::new());
}

#[test]
fn scrolling() {
    let mut s = Scroll::new(true);
    s.up(5, 100, 20);
    assert_eq!(s.offset, 5);
    assert!(!s.follow);
    s.up(1000, 100, 20);
    assert_eq!(s.offset, 80);
    s.down(30);
    assert_eq!(s.offset, 50);
    s.down(100);
    assert_eq!(s.offset, 0);
    assert!(s.follow);
    s.to_top(100);
    assert_eq!(s.offset, 99);
    s.to_line(10, 100);
    assert_eq!(s.offset, 89);
    s.to_bottom();
    assert_eq!((s.offset, s.follow), (0, true));
    assert_eq!(visible_range(100, 10, 20), (70, 90));
    assert_eq!(visible_range(5, 10, 20), (0, 0));
}

#[test]
fn highlighted_ranges() {
    let spans = highlight_line("AT+GMR OK 0xFF 192.168.1.1 \"hi\" 42");
    let kinds: Vec<HighlightKind> = spans.iter().map(|s| s.2).collect();
    assert_eq!(
        kinds,
        vec![
            HighlightKind::AtCommand,
            HighlightKind::Success,
            HighlightKind::HexValue,
            HighlightKind::IpAddress,
            HighlightKind::Quoted,
            HighlightKind::Number
        ]
    );
    assert_eq!((spans[0].0, spans[0].1), (0, 6));
    for w in spans.windows(2) {
        assert!(w[0].1 <= w[1].0);
    }
    assert!(highlight_line("plain text").is_empty());
}

#[test]
fn log_levels() {
    assert_eq!(Theme::style_for_line("[error] boom", true), LineLevel::Error);
    assert_eq!(Theme::style_for_line("warning: low", true), LineLevel::Warn);
    assert_eq!(Theme::style_for_line("INFO: up", true), LineLevel::Info);
    assert_eq!(Theme::style_for_line("[TRACE] x", true), LineLevel::Debug);
    assert_eq!(Theme::style_for_line("[ERROR] x", false), LineLevel::Plain);
    assert_eq!(Theme::style_for_line("hello", true), LineLevel::Plain);
}

#[test]
fn settings_values_cycle() {
    let mut config = SerialConfig::default();
    let mut ending = "\r\n".to_string();
    cycle_value(0, true, &mut config, &mut ending);
    assert_eq!(config.baud_rate, 230400);
    cycle_value(0, false, &mut config, &mut ending);
    assert_eq!(config.baud_rate, 115200);
    config.baud_rate = 12345;
    cycle_value(0, false, &mut config, &mut ending);
    assert_eq!(config.baud_rate, 921600);
    cycle_value(0, true, &mut config, &mut ending);
    assert_eq!(config.baud_rate, 300);
    cycle_value(1, true, &mut config, &mut ending);
    assert_eq!(config.data_bits, DataBits::Five);
    cycle_value(5, true, &mut config, &mut ending);
    assert_eq!(ending, "\n");
    cycle_value(5, false, &mut config, &mut ending);
    assert_eq!(ending, "\r\n");
    cycle_value(9, true, &mut config, &mut ending);
    assert_eq!(ending, "\r\n");
    assert_eq!(baud_rates().len(), 12);
    assert_eq!(data_bits_str(DataBits::Seven), "7");
    assert_eq!(parity_str(config.parity), "None");
    assert_eq!(flow_control_str(config.flow_control), "None");
}

#[test]
fn regular_expressions() {
    let mut filter = LineFilter::new();
    let err = filter.add_include("[a-").unwrap_err();
    assert!(err.starts_with("Invalid regex: "));
    assert!(err.len() > "Invalid regex: ".len());
    assert_eq!(filter.count(), 0);
    assert!(filter.add_include("b+").is_ok());
    assert!(filter.should_display("abbc"));
    assert!(!filter.should_display("xyz"));
    assert_eq!(
        highlight_line("ERROR at 0x1F"),
        vec![
            (0, 5, HighlightKind::Failure),
            (6, 8, HighlightKind::AtCommand),
            (9, 13, HighlightKind::HexValue),
        ]
    );
    assert!(highlight_line("plain words").is_empty());
}

#[test]
fn log_format_and_transport() {
    assert_eq!(LogFormat::from_config("raw"), LogFormat::Raw);
    assert_eq!(LogFormat::from_config("timestamped"), LogFormat::Timestamped);
    assert_eq!(LogFormat::from_config("RAW"), LogFormat::Timestamped);
    let _ = RealTransport::new();
}
