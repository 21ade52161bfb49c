use yapper::config::{
    line_ending_from_config, line_ending_to_config, resolve_effective_defaults,
    resolve_startup_port, AppConfig, CliOverrides, ConfigLoad, ConfigSource, DefaultsConfig,
};
use yapper::paths::expand_path;
use yapper::serial::config::{DataBits, FlowControl, Parity, SerialConfig, StopBits};

fn cli() -> CliOverrides {
    CliOverrides {
        port: None,
        baud: None,
        data_bits: None,
        parity: None,
        stop_bits: None,
        flow_control: None,
        line_ending: None,
        no_auto: false,
    }
}

fn profile() -> DefaultsConfig {
    DefaultsConfig {
        baud_rate: 9600,
        data_bits: 7,
        parity: "even".to_string(),
        stop_bits: 2,
        flow_control: "hardware".to_string(),
        line_ending: "lf".to_string(),
    }
}

#[test]
fn test_default_config() {
    let config = AppConfig::default();
    assert_eq!(config.defaults.baud_rate, 115200);
    assert_eq!(config.defaults.data_bits, 8);
    assert_eq!(config.behavior.scrollback_lines, 10000);
    assert!(config.display.timestamps);
    assert!(!config.display.hex_mode);
}

#[test]
fn test_expand_path_with_tilde() {
    let expanded = expand_path("~/tmp").unwrap();
    assert!(std::path::Path::new(&expanded).ends_with("tmp"));
    assert!(std::path::Path::new(&expanded).is_absolute());
}

#[test]
fn test_expand_path_empty_is_none() {
    assert!(expand_path("   ").is_none());
}

#[test]
fn expand_path_keeps_plain_paths_trimmed() {
    assert_eq!(expand_path("  /tmp/yapper-history  ").as_deref(), Some("/tmp/yapper-history"));
}

#[test]
fn test_resolve_effective_defaults_prefers_port_profile_for_auto_connect() {
    let mut config = AppConfig::default();
    config.connection.last_port = Some("/dev/ttyUSB0".to_string());
    config.connection.port_profiles.insert("/dev/ttyUSB0".to_string(), profile());

    let cli = cli();
    let startup_port = resolve_startup_port(&cli, &config);
    let resolved = resolve_effective_defaults(&cli, &config, startup_port.as_deref());

    assert_eq!(startup_port.as_deref(), Some("/dev/ttyUSB0"));
    assert_eq!(resolved.baud_rate, 9600);
    assert_eq!(resolved.line_ending, "lf");
}

#[test]
fn test_resolve_effective_defaults_applies_cli_overrides_over_port_profile() {
    let mut config = AppConfig::default();
    config.connection.port_profiles.insert("/dev/ttyUSB1".to_string(), profile());

    let mut cli = cli();
    cli.port = Some("/dev/ttyUSB1".to_string());
    cli.baud = Some(230400);
    cli.parity = Some("none".to_string());
    cli.line_ending = Some("crlf".to_string());

    let startup_port = resolve_startup_port(&cli, &config);
    let resolved = resolve_effective_defaults(&cli, &config, startup_port.as_deref());

    assert_eq!(resolved.baud_rate, 230400);
    assert_eq!(resolved.parity, "none");
    assert_eq!(resolved.data_bits, 7);
    assert_eq!(resolved.line_ending, "crlf");
}

#[test]
fn startup_port_respects_no_auto() {
    let mut config = AppConfig::default();
    config.connection.last_port = Some("COM3".to_string());
    let mut cli = cli();
    cli.no_auto = true;
    assert_eq!(resolve_startup_port(&cli, &config), None);
    cli.no_auto = false;
    config.connection.auto_connect = false;
    assert_eq!(resolve_startup_port(&cli, &config), None);
}

#[test]
fn stored_settings_convert_to_runtime_settings() {
    let serial = profile().to_serial_config();
    assert_eq!(
        serial,
        SerialConfig {
            baud_rate: 9600,
            data_bits: DataBits::Seven,
            parity: Parity::Even,
            stop_bits: StopBits::Two,
            flow_control: FlowControl::Hardware,
        }
    );
    assert_eq!(profile().to_line_ending(), "\n");
    let mut odd = profile();
    odd.parity = "ODD".to_string();
    odd.flow_control = "XON".to_string();
    odd.data_bits = 9;
    odd.stop_bits = 3;
    let serial = odd.to_serial_config();
    assert_eq!(serial.parity, Parity::Odd);
    assert_eq!(serial.flow_control, FlowControl::Software);
    assert_eq!(serial.data_bits, DataBits::Eight);
    assert_eq!(serial.stop_bits, StopBits::One);
}

#[test]
fn line_endings_round_trip_through_their_names() {
    for ending in ["\n", "\r", "\r\n"] {
        assert_eq!(line_ending_from_config(&line_ending_to_config(ending)), ending);
    }
    assert_eq!(line_ending_from_config("bogus"), "\r\n");
    assert_eq!(line_ending_to_config("x"), "crlf");
}

#[test]
fn runtime_settings_round_trip_through_stored_settings() {
    let runtime = SerialConfig {
        baud_rate: 57600,
        data_bits: DataBits::Five,
        parity: Parity::Odd,
        stop_bits: StopBits::Two,
        flow_control: FlowControl::Software,
    };
    let stored = DefaultsConfig::from_runtime(&runtime, "\r");
    assert_eq!(stored.data_bits, 5);
    assert_eq!(stored.parity, "odd");
    assert_eq!(stored.flow_control, "software");
    assert_eq!(stored.line_ending, "cr");
    assert_eq!(stored.to_serial_config(), runtime);
}

#[test]
fn config_load_warns_on_broken_files() {
    let load = ConfigLoad::from_source(ConfigSource::Failed("bad toml".to_string()));
    assert_eq!(load.warning.as_deref(), Some("Config warning: bad toml; using defaults"));
    assert_eq!(load.config.defaults.baud_rate, 115200);
    let load = ConfigLoad::from_source(ConfigSource::NoConfigDir);
    assert_eq!(
        load.warning.as_deref(),
        Some("Config warning: could not determine config directory")
    );
    let load = ConfigLoad::from_source(ConfigSource::Missing);
    assert!(load.warning.is_none());
    let mut custom = AppConfig::default();
    custom.defaults.baud_rate = 9600;
    let loaded = AppConfig::load(ConfigSource::Loaded(custom));
    assert_eq!(loaded.defaults.baud_rate, 9600);
}
