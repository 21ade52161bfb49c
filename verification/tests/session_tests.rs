use yapper::filter::LineFilter;
use yapper::keys::{filter_index_after_remove, key_action, step_up, Action, InputContext, KeyCode, KeyPress};
use yapper::macros::{Macro, MacroCommand, MacroManager};
use yapper::serial::config::{DataBits, FlowControl, Parity, SerialConfig, StopBits};
use yapper::session::{connection_after_loss, ConnectionState, MacroQueue, Mode, ModeState, Reconnect};
use yapper::settings::{cycle_value, settings_require_reconnect};

fn key(code: KeyCode) -> KeyPress {
    KeyPress { code, ctrl: false }
}

fn ctrl(c: char) -> KeyPress {
    KeyPress { code: KeyCode::Char(c), ctrl: true }
}

fn ctx() -> InputContext {
    InputContext { cursor_at_end: true, has_suggestion: false }
}

#[test]
fn test_port_selector_restore_mode_on_escape() {
    let mut modes = ModeState::new(Mode::Input);
    modes.mode = Mode::PortSelect;

    assert_eq!(key_action(modes.mode, key(KeyCode::Esc), ctx()), Action::RestoreMode);
    modes.restore_mode();

    assert_eq!(modes.mode, Mode::Input);
}

#[test]
fn test_settings_cancel_restores_input_mode_and_values() {
    let mut modes = ModeState::new(Mode::Input);
    let mut config = SerialConfig::default();
    let mut line_ending = "\r\n".to_string();
    // Opening the settings takes a snapshot.
    let snapshot = (config, line_ending.clone());
    modes.open_overlay(Mode::Settings);
    cycle_value(0, true, &mut config, &mut line_ending);
    line_ending = "\n".to_string();

    assert_eq!(key_action(modes.mode, key(KeyCode::Esc), ctx()), Action::CancelSettings);
    config = snapshot.0;
    line_ending = snapshot.1;
    modes.restore_mode();

    assert_eq!(modes.mode, Mode::Input);
    assert_eq!(config, SerialConfig::default());
    assert_eq!(line_ending, "\r\n");
}

#[test]
fn test_help_and_filter_popups_restore_previous_mode() {
    let mut modes = ModeState::new(Mode::Normal);
    modes.open_overlay(Mode::Help);
    assert_eq!(key_action(modes.mode, key(KeyCode::Esc), ctx()), Action::RestoreMode);
    modes.restore_mode();
    assert_eq!(modes.mode, Mode::Normal);

    let mut filter = LineFilter::new();
    let mut filter_input = String::new();
    modes.open_overlay(Mode::Filter);
    for c in ['E', 'R', 'R'] {
        match key_action(modes.mode, key(KeyCode::Char(c)), ctx()) {
            Action::FilterChar(ch) => filter_input.push(ch),
            other => panic!("unexpected {:?}", other),
        }
    }
    assert_eq!(key_action(modes.mode, key(KeyCode::Enter), ctx()), Action::SubmitFilter);
    filter.add_include(&filter_input).unwrap();
    modes.restore_mode();
    assert_eq!(modes.mode, Mode::Normal);
    assert_eq!(filter.count(), 1);
}

#[test]
fn test_search_and_macro_popups_restore_previous_mode() {
    let mut modes = ModeState::new(Mode::Normal);
    modes.open_overlay(Mode::Search);
    assert_eq!(key_action(modes.mode, key(KeyCode::Enter), ctx()), Action::RestoreMode);
    modes.restore_mode();
    assert_eq!(modes.mode, Mode::Normal);

    let mut macros = MacroManager::new_in_memory();
    macros.save_macro(Macro {
        name: "reset".to_string(),
        description: "Reset".to_string(),
        commands: vec![MacroCommand { text: "AT+RST".to_string(), delay_ms: 0 }],
    });
    modes.open_overlay(Mode::MacroSelect);
    assert_eq!(key_action(modes.mode, key(KeyCode::Enter), ctx()), Action::RunSelectedMacro);
    modes.restore_mode();
    assert_eq!(modes.mode, Mode::Normal);
}

#[test]
fn test_settings_reconnect_only_for_transport_changes() {
    let config = SerialConfig::default();
    assert!(!settings_require_reconnect(&config, &config, "\r\n", "\n"));

    let changed = SerialConfig {
        baud_rate: 9600,
        data_bits: DataBits::Seven,
        parity: Parity::Even,
        stop_bits: StopBits::Two,
        flow_control: FlowControl::Hardware,
    };
    assert!(settings_require_reconnect(&config, &changed, "\r\n", "\r\n"));
}

#[test]
fn test_filter_navigation_and_delete_work_while_typing() {
    let mut filter = LineFilter::new();
    filter.add_include("ERROR").unwrap();
    filter.add_exclude("DEBUG").unwrap();
    let mode = Mode::Filter;
    let mut select = 1usize;

    assert_eq!(key_action(mode, key(KeyCode::Up), ctx()), Action::SelectionUp);
    select = step_up(select);
    assert_eq!(select, 0);

    assert_eq!(key_action(mode, key(KeyCode::Delete), ctx()), Action::RemoveSelectedFilter);
    filter.remove(select);
    select = filter_index_after_remove(select, filter.count());
    assert_eq!(filter.count(), 1);

    select = 0;
    assert_eq!(key_action(mode, ctrl('d'), ctx()), Action::RemoveSelectedFilter);
    filter.remove(select);
    assert_eq!(filter.count(), 0);
}

#[test]
fn test_macro_scheduler_runs_commands_over_multiple_ticks() {
    let commands = vec![
        MacroCommand { text: "AT+CWMODE=1".to_string(), delay_ms: 0 },
        MacroCommand { text: "AT+CWJAP".to_string(), delay_ms: 500 },
    ];
    let mut queue = MacroQueue::new();
    queue.start("wifi".to_string(), &commands, 10_000);

    assert_eq!(queue.len(), 2);
    assert_eq!(queue.active().map(|s| s.as_str()), Some("wifi"));

    let first_ready = queue.next_ready().unwrap();
    let drained = queue.drain(first_ready);
    assert_eq!(drained.to_send, vec!["AT+CWMODE=1".to_string()]);
    assert_eq!(queue.len(), 1);
    assert_eq!(queue.active().map(|s| s.as_str()), Some("wifi"));

    let second_ready = queue.next_ready().unwrap();
    assert!(queue.drain(second_ready - 1).to_send.is_empty());
    let drained = queue.drain(second_ready);
    assert_eq!(drained.to_send, vec!["AT+CWJAP".to_string()]);
    assert_eq!(drained.finished.as_deref(), Some("wifi"));
    assert_eq!(queue.len(), 0);
    assert!(queue.active().is_none());
}

#[test]
fn overlays_return_to_the_mode_they_were_opened_from() {
    let mut modes = ModeState::new(Mode::Input);
    modes.open_overlay(Mode::Settings);
    modes.open_overlay(Mode::Help);
    modes.restore_mode();
    assert_eq!(modes.mode, Mode::Input);
    assert!(Mode::Filter.is_overlay());
    assert!(!Mode::Normal.is_overlay());
}

#[test]
fn reconnect_backoff_doubles_up_to_the_maximum() {
    let mut r = Reconnect::new(1_000, 3_000);
    r.schedule("/dev/ttyUSB0".to_string(), 0);
    assert_eq!(r.next_attempt_ms, Some(1_000));
    assert!(!r.is_due(999));
    assert!(r.is_due(1_000));
    r.record_failure(1_000);
    assert_eq!(r.current_delay_ms, 2_000);
    assert_eq!(r.next_attempt_ms, Some(3_000));
    r.record_failure(3_000);
    assert_eq!(r.current_delay_ms, 3_000);
    assert_eq!(r.status(true, 4_000), Some((3, 2_000)));
    assert_eq!(r.status(false, 4_000), None);
    r.reset();
    assert!(r.port.is_none());
    assert_eq!(r.attempts, 0);
}

#[test]
fn losing_the_connection() {
    assert_eq!(
        connection_after_loss("COM3".to_string(), true, "Port disconnected".to_string()),
        ConnectionState::Reconnecting("COM3".to_string())
    );
    assert_eq!(
        connection_after_loss("COM3".to_string(), false, "Port disconnected".to_string()),
        ConnectionState::Error("Port disconnected".to_string())
    );
    assert_eq!(
        connection_after_loss(String::new(), true, "Reader thread died".to_string()),
        ConnectionState::Error("Reader thread died".to_string())
    );
    assert_eq!(ConnectionState::Reconnecting("x".to_string()).current_port(), "x");
    assert!(ConnectionState::Connected("x".to_string()).is_connected());
}
