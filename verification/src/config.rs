//! Application configuration values and their defaults.
//!
//! Reading and writing the TOML file is the caller's part; here are the values, their
//! defaults, and the conversions between stored settings and runtime settings.
use vstd::prelude::*;

use crate::keyed::KeyedList;
use crate::serial::config::{DataBits, FlowControl, Parity, SerialConfig, StopBits};
use crate::text::{ascii_lower, chars_of, lower_text, to_lowercase};

verus! {

/// Stored serial defaults (also used for the per-port profiles).
#[derive(Debug)]
pub struct DefaultsConfig {
    pub baud_rate: u32,
    pub data_bits: u8,
    pub parity: String,
    pub stop_bits: u8,
    pub flow_control: String,
    pub line_ending: String,
}

impl Clone for DefaultsConfig {
    fn clone(&self) -> (c: Self)
        ensures
            c == *self,
    {
        DefaultsConfig {
            baud_rate: self.baud_rate,
            data_bits: self.data_bits,
            parity: self.parity.clone(),
            stop_bits: self.stop_bits,
            flow_control: self.flow_control.clone(),
            line_ending: self.line_ending.clone(),
        }
    }
}

#[derive(Debug)]
pub struct DisplayConfig {
    pub timestamps: bool,
    pub timestamp_format: String,
    pub color_log_levels: bool,
    pub show_line_endings: bool,
    pub hex_mode: bool,
}

#[derive(Debug)]
pub struct BehaviorConfig {
    pub auto_reconnect: bool,
    pub reconnect_delay_ms: u64,
    pub scrollback_lines: usize,
    pub follow_output: bool,
}

#[derive(Debug)]
pub struct LoggingConfig {
    pub auto_log: bool,
    pub log_directory: String,
    pub log_format: String,
}

#[derive(Debug)]
pub struct HistoryConfig {
    pub max_entries: usize,
    pub file: String,
}

#[derive(Debug)]
pub struct QuicksendConfig {
    pub recent: Vec<String>,
}

pub struct ConnectionConfig {
    /// Last connected port name (e.g. "COM3" or "/dev/ttyUSB0").
    pub last_port: Option<String>,
    /// Whether to auto-connect to `last_port` on startup.
    pub auto_connect: bool,
    /// Per-port remembered serial settings keyed by exact port identifier.
    pub port_profiles: KeyedList<DefaultsConfig>,
}

/// Application configuration.
pub struct AppConfig {
    pub defaults: DefaultsConfig,
    pub display: DisplayConfig,
    pub behavior: BehaviorConfig,
    pub logging: LoggingConfig,
    pub history: HistoryConfig,
    pub quicksend: QuicksendConfig,
    pub connection: ConnectionConfig,
}

/// A loaded configuration and the warning to show, if loading fell back to defaults.
pub struct ConfigLoad {
    pub config: AppConfig,
    pub warning: Option<String>,
}

/// 115200 baud, 8N1, no flow control, CRLF line endings.
pub open spec fn is_default_defaults(c: DefaultsConfig) -> bool {
    &&& c.baud_rate == 115200
    &&& c.data_bits == 8
    &&& c.parity@ == "none"@
    &&& c.stop_bits == 1
    &&& c.flow_control@ == "none"@
    &&& c.line_ending@ == "crlf"@
}

impl Default for DefaultsConfig {
    fn default() -> (c: Self)
        ensures
            is_default_defaults(c),
    {
        DefaultsConfig {
            baud_rate: 115200,
            data_bits: 8,
            parity: String::from_str("none"),
            stop_bits: 1,
            flow_control: String::from_str("none"),
            line_ending: String::from_str("crlf"),
        }
    }
}

impl Default for DisplayConfig {
    fn default() -> (c: Self)
        ensures
            c.timestamps,
            c.timestamp_format@ == "%H:%M:%S%.3f"@,
            c.color_log_levels,
            !c.show_line_endings,
            !c.hex_mode,
    {
        DisplayConfig {
            timestamps: true,
            timestamp_format: String::from_str("%H:%M:%S%.3f"),
            color_log_levels: true,
            show_line_endings: false,
            hex_mode: false,
        }
    }
}

impl Default for BehaviorConfig {
    fn default() -> (c: Self)
        ensures
            c.auto_reconnect,
            c.reconnect_delay_ms == 1000,
            c.scrollback_lines == 10000,
            c.follow_output,
    {
        BehaviorConfig {
            auto_reconnect: true,
            reconnect_delay_ms: 1000,
            scrollback_lines: 10000,
            follow_output: true,
        }
    }
}

impl Default for LoggingConfig {
    fn default() -> (c: Self)
        ensures
            !c.auto_log,
            c.log_directory@ == "~/.local/share/yapper/logs"@,
            c.log_format@ == "timestamped"@,
    {
        LoggingConfig {
            auto_log: false,
            log_directory: String::from_str("~/.local/share/yapper/logs"),
            log_format: String::from_str("timestamped"),
        }
    }
}

impl Default for HistoryConfig {
    fn default() -> (c: Self)
        ensures
            c.max_entries == 500,
            c.file@ == "~/.local/share/yapper/history"@,
    {
        HistoryConfig { max_entries: 500, file: String::from_str("~/.local/share/yapper/history") }
    }
}

impl Default for QuicksendConfig {
    fn default() -> (c: Self)
        ensures
            c.recent@.len() == 0,
    {
        QuicksendConfig { recent: Vec::new() }
    }
}

impl Default for ConnectionConfig {
    fn default() -> (c: Self)
        ensures
            c.last_port is None,
            c.auto_connect,
            c.port_profiles.wf(),
            c.port_profiles.as_map() == Map::<Seq<char>, DefaultsConfig>::empty(),
    {
        let c = ConnectionConfig { last_port: None, auto_connect: true, port_profiles: KeyedList::new() };
        assert(c.port_profiles.as_map() =~= Map::<Seq<char>, DefaultsConfig>::empty());
        c
    }
}

/// Every section at its default.
pub open spec fn is_default_config(c: AppConfig) -> bool {
    &&& is_default_defaults(c.defaults)
    &&& c.display.timestamps
    &&& c.display.timestamp_format@ == "%H:%M:%S%.3f"@
    &&& c.display.color_log_levels
    &&& !c.display.show_line_endings
    &&& !c.display.hex_mode
    &&& c.behavior.auto_reconnect
    &&& c.behavior.reconnect_delay_ms == 1000
    &&& c.behavior.scrollback_lines == 10000
    &&& c.behavior.follow_output
    &&& !c.logging.auto_log
    &&& c.logging.log_directory@ == "~/.local/share/yapper/logs"@
    &&& c.logging.log_format@ == "timestamped"@
    &&& c.history.max_entries == 500
    &&& c.history.file@ == "~/.local/share/yapper/history"@
    &&& c.quicksend.recent@.len() == 0
    &&& c.connection.last_port is None
    &&& c.connection.auto_connect
    &&& c.connection.port_profiles.wf()
    &&& c.connection.port_profiles.as_map() == Map::<Seq<char>, DefaultsConfig>::empty()
}

impl Default for AppConfig {
    fn default() -> (c: Self)
        ensures
            is_default_config(c),
    {
        AppConfig {
            defaults: DefaultsConfig::default(),
            display: DisplayConfig::default(),
            behavior: BehaviorConfig::default(),
            logging: LoggingConfig::default(),
            history: HistoryConfig::default(),
            quicksend: QuicksendConfig::default(),
            connection: ConnectionConfig::default(),
        }
    }
}

/// Data bits from a stored number: 5, 6 and 7 as such, anything else 8.
pub open spec fn data_bits_from(bits: u8) -> DataBits {
    if bits == 5 {
        DataBits::Five
    } else if bits == 6 {
        DataBits::Six
    } else if bits == 7 {
        DataBits::Seven
    } else {
        DataBits::Eight
    }
}

/// Parity from stored text, compared after lower-casing: `odd`, `even`, anything else none.
pub open spec fn parity_from(text: Seq<char>) -> Parity {
    let t = lower_text(text);
    if t == "odd"@ {
        Parity::Odd
    } else if t == "even"@ {
        Parity::Even
    } else {
        Parity::NoParity
    }
}

/// Stop bits from a stored number: 2 as such, anything else 1.
pub open spec fn stop_bits_from(bits: u8) -> StopBits {
    if bits == 2 {
        StopBits::Two
    } else {
        StopBits::One
    }
}

/// Flow control from stored text, compared after lower-casing: `software`/`sw`/`xon`,
/// `hardware`/`hw`/`rts`, anything else none.
pub open spec fn flow_control_from(text: Seq<char>) -> FlowControl {
    let t = lower_text(text);
    if t == "software"@ || t == "sw"@ || t == "xon"@ {
        FlowControl::Software
    } else if t == "hardware"@ || t == "hw"@ || t == "rts"@ {
        FlowControl::Hardware
    } else {
        FlowControl::NoFlow
    }
}

/// The line ending a stored name stands for: `lf`, `cr`, anything else CRLF.
pub open spec fn line_ending_for(name: Seq<char>) -> Seq<char> {
    if name == "lf"@ {
        "\n"@
    } else if name == "cr"@ {
        "\r"@
    } else {
        "\r\n"@
    }
}

/// The stored name of a line ending: `lf`, `cr`, anything else `crlf`.
pub open spec fn line_ending_name(value: Seq<char>) -> Seq<char> {
    if value == "\n"@ {
        "lf"@
    } else if value == "\r"@ {
        "cr"@
    } else {
        "crlf"@
    }
}

/// Stored number of data bits.
pub open spec fn data_bits_number(d: DataBits) -> u8 {
    match d {
        DataBits::Five => 5,
        DataBits::Six => 6,
        DataBits::Seven => 7,
        DataBits::Eight => 8,
    }
}

/// Stored parity text.
pub open spec fn parity_name(p: Parity) -> Seq<char> {
    match p {
        Parity::NoParity => "none"@,
        Parity::Odd => "odd"@,
        Parity::Even => "even"@,
    }
}

/// Stored number of stop bits.
pub open spec fn stop_bits_number(s: StopBits) -> u8 {
    match s {
        StopBits::One => 1,
        StopBits::Two => 2,
    }
}

/// Stored flow control text.
pub open spec fn flow_control_name(f: FlowControl) -> Seq<char> {
    match f {
        FlowControl::NoFlow => "none"@,
        FlowControl::Software => "software"@,
        FlowControl::Hardware => "hardware"@,
    }
}

/// Whether `a` holds exactly the characters of `b`.
fn is_text(a: &Vec<char>, b: &str) -> (r: bool)
    ensures
        r == (a@ == b@),
{
    let bv = chars_of(b);
    if a.len() != bv.len() {
        return false;
    }
    let mut i: usize = 0;
    while i < a.len()
        invariant
            a@.len() == bv@.len(),
            bv@ == b@,
            i <= a@.len(),
            forall|j: int| 0 <= j < i ==> a@[j] == bv@[j],
        decreases a.len() - i,
    {
        if a[i] != bv[i] {
            return false;
        }
        i = i + 1;
    }
    assert(a@ =~= bv@);
    true
}

fn parse_data_bits(bits: u8) -> (d: DataBits)
    ensures
        d == data_bits_from(bits),
{
    match bits {
        5 => DataBits::Five,
        6 => DataBits::Six,
        7 => DataBits::Seven,
        _ => DataBits::Eight,
    }
}

fn parse_parity(parity: &str) -> (p: Parity)
    ensures
        p == parity_from(parity@),
{
    let lower = chars_of(to_lowercase(parity).as_str());
    if is_text(&lower, "odd") {
        Parity::Odd
    } else if is_text(&lower, "even") {
        Parity::Even
    } else {
        Parity::NoParity
    }
}

fn parse_stop_bits(bits: u8) -> (s: StopBits)
    ensures
        s == stop_bits_from(bits),
{
    match bits {
        2 => StopBits::Two,
        _ => StopBits::One,
    }
}

fn parse_flow_control(fc: &str) -> (f: FlowControl)
    ensures
        f == flow_control_from(fc@),
{
    let lower = chars_of(to_lowercase(fc).as_str());
    if is_text(&lower, "software") || is_text(&lower, "sw") || is_text(&lower, "xon") {
        FlowControl::Software
    } else if is_text(&lower, "hardware") || is_text(&lower, "hw") || is_text(&lower, "rts") {
        FlowControl::Hardware
    } else {
        FlowControl::NoFlow
    }
}

/// The line ending a stored name stands for (`lf`, `cr`, otherwise CRLF).
pub fn line_ending_from_config(value: &str) -> (s: String)
    ensures
        s@ == line_ending_for(value@),
{
    let v = chars_of(value);
    if is_text(&v, "lf") {
        String::from_str("\n")
    } else if is_text(&v, "cr") {
        String::from_str("\r")
    } else {
        String::from_str("\r\n")
    }
}

/// The stored name of a line ending (`lf`, `cr`, otherwise `crlf`).
pub fn line_ending_to_config(value: &str) -> (s: String)
    ensures
        s@ == line_ending_name(value@),
{
    let v = chars_of(value);
    if is_text(&v, "\n") {
        String::from_str("lf")
    } else if is_text(&v, "\r") {
        String::from_str("cr")
    } else {
        String::from_str("crlf")
    }
}

/// The runtime serial settings stored settings stand for.
pub open spec fn serial_from_defaults(d: DefaultsConfig) -> SerialConfig {
    SerialConfig {
        baud_rate: d.baud_rate,
        data_bits: data_bits_from(d.data_bits),
        parity: parity_from(d.parity@),
        stop_bits: stop_bits_from(d.stop_bits),
        flow_control: flow_control_from(d.flow_control@),
    }
}

/// The stored settings for runtime settings and a line ending.
pub open spec fn defaults_from_runtime(c: SerialConfig, line_ending: Seq<char>) -> (u32, u8, Seq<char>, u8, Seq<char>, Seq<char>) {
    (
        c.baud_rate,
        data_bits_number(c.data_bits),
        parity_name(c.parity),
        stop_bits_number(c.stop_bits),
        flow_control_name(c.flow_control),
        line_ending_name(line_ending),
    )
}

impl DefaultsConfig {
    /// The runtime serial settings these stored settings stand for.
    pub fn to_serial_config(&self) -> (c: SerialConfig)
        ensures
            c == serial_from_defaults(*self),
    {
        SerialConfig {
            baud_rate: self.baud_rate,
            data_bits: parse_data_bits(self.data_bits),
            parity: parse_parity(self.parity.as_str()),
            stop_bits: parse_stop_bits(self.stop_bits),
            flow_control: parse_flow_control(self.flow_control.as_str()),
        }
    }

    /// The line ending these settings send.
    pub fn to_line_ending(&self) -> (s: String)
        ensures
            s@ == line_ending_for(self.line_ending@),
    {
        line_ending_from_config(self.line_ending.as_str())
    }

    /// Stored settings for the runtime settings and line ending.
    pub fn from_runtime(serial_config: &SerialConfig, line_ending: &str) -> (d: Self)
        ensures
            (d.baud_rate, d.data_bits, d.parity@, d.stop_bits, d.flow_control@, d.line_ending@)
                == defaults_from_runtime(*serial_config, line_ending@),
    {
        DefaultsConfig {
            baud_rate: serial_config.baud_rate,
            data_bits: match serial_config.data_bits {
                DataBits::Five => 5,
                DataBits::Six => 6,
                DataBits::Seven => 7,
                DataBits::Eight => 8,
            },
            parity: match serial_config.parity {
                Parity::NoParity => String::from_str("none"),
                Parity::Odd => String::from_str("odd"),
                Parity::Even => String::from_str("even"),
            },
            stop_bits: match serial_config.stop_bits {
                StopBits::One => 1,
                StopBits::Two => 2,
            },
            flow_control: match serial_config.flow_control {
                FlowControl::NoFlow => String::from_str("none"),
                FlowControl::Software => String::from_str("software"),
                FlowControl::Hardware => String::from_str("hardware"),
            },
            line_ending: line_ending_to_config(line_ending),
        }
    }
}

/// Text with no upper-case ASCII letter and only ASCII characters is its own lower-casing.
proof fn lemma_lower_fixed(s: Seq<char>)
    requires
        forall|i: int| 0 <= i < s.len() ==> '\0' <= #[trigger] s[i] <= '\u{7f}' && !('A' <= s[i] <= 'Z'),
    ensures
        lower_text(s) == s,
{
    assert(vstd::utf8::is_ascii_chars(s));
    assert(crate::text::ascii_lower(s) =~= s);
}

/// Storing a line ending and reading it back gives the same line ending, for each of the three
/// line endings the application sends.
pub proof fn law_line_ending_round_trip(value: Seq<char>)
    requires
        value == "\n"@ || value == "\r"@ || value == "\r\n"@,
    ensures
        line_ending_for(line_ending_name(value)) == value,
{
    reveal_strlit("\n");
    reveal_strlit("\r");
    reveal_strlit("\r\n");
    reveal_strlit("lf");
    reveal_strlit("cr");
    reveal_strlit("crlf");
    assert("\n"@[0] != "\r"@[0]);
    assert("\r\n"@.len() != "\n"@.len());
    assert("\r\n"@.len() != "\r"@.len());
    assert("crlf"@.len() != "lf"@.len());
    assert("crlf"@.len() != "cr"@.len());
    assert("cr"@[0] != "lf"@[0]);
}

/// Storing runtime serial settings and reading them back gives the same settings.
pub proof fn law_serial_round_trip(c: SerialConfig)
    ensures
        data_bits_from(data_bits_number(c.data_bits)) == c.data_bits,
        parity_from(parity_name(c.parity)) == c.parity,
        stop_bits_from(stop_bits_number(c.stop_bits)) == c.stop_bits,
        flow_control_from(flow_control_name(c.flow_control)) == c.flow_control,
{
    reveal_strlit("none");
    reveal_strlit("odd");
    reveal_strlit("even");
    reveal_strlit("software");
    reveal_strlit("hardware");
    reveal_strlit("sw");
    reveal_strlit("xon");
    reveal_strlit("hw");
    reveal_strlit("rts");
    lemma_lower_fixed("none"@);
    lemma_lower_fixed("odd"@);
    lemma_lower_fixed("even"@);
    lemma_lower_fixed("software"@);
    lemma_lower_fixed("hardware"@);
    assert("none"@.len() != "odd"@.len());
    assert("none"@[0] != "even"@[0]);
    assert("even"@.len() != "odd"@.len());
    assert("none"@[0] != "software"@[0] && "none"@.len() != "sw"@.len() && "none"@.len() != "xon"@.len());
    assert("none"@[0] != "hardware"@[0] && "none"@.len() != "hw"@.len() && "none"@.len() != "rts"@.len());
    assert("hardware"@[0] != "software"@[0] && "hardware"@.len() != "sw"@.len() && "hardware"@.len() != "xon"@.len());
}

/// Stored flow control is read without regard to ASCII case, and each documented spelling
/// stands for its setting: `hardware`, `hw` and `rts` for hardware flow control, `software`,
/// `sw` and `xon` for software flow control, and `none` for none.
pub proof fn law_flow_control_aliases(s: Seq<char>)
    requires
        vstd::utf8::is_ascii_chars(s),
    ensures
        ascii_lower(s) == "hardware"@ || ascii_lower(s) == "hw"@ || ascii_lower(s) == "rts"@
            ==> flow_control_from(s) == FlowControl::Hardware,
        ascii_lower(s) == "software"@ || ascii_lower(s) == "sw"@ || ascii_lower(s) == "xon"@
            ==> flow_control_from(s) == FlowControl::Software,
        ascii_lower(s) == "none"@ ==> flow_control_from(s) == FlowControl::NoFlow,
{
    reveal_strlit("none");
    reveal_strlit("software");
    reveal_strlit("hardware");
    reveal_strlit("sw");
    reveal_strlit("xon");
    reveal_strlit("hw");
    reveal_strlit("rts");
    assert("hardware"@[0] != "software"@[0] && "hardware"@.len() != "sw"@.len() && "hardware"@.len() != "xon"@.len());
    assert("hw"@.len() != "software"@.len() && "hw"@[0] != "sw"@[0] && "hw"@.len() != "xon"@.len());
    assert("rts"@.len() != "software"@.len() && "rts"@.len() != "sw"@.len() && "rts"@[0] != "xon"@[0]);
    assert("none"@[0] != "software"@[0] && "none"@.len() != "sw"@.len() && "none"@.len() != "xon"@.len());
    assert("none"@[0] != "hardware"@[0] && "none"@.len() != "hw"@.len() && "none"@.len() != "rts"@.len());
}

/// Stored parity is read without regard to ASCII case: `odd` and `even` stand for odd and
/// even parity, `none` for none.
pub proof fn law_parity_names(s: Seq<char>)
    requires
        vstd::utf8::is_ascii_chars(s),
    ensures
        ascii_lower(s) == "odd"@ ==> parity_from(s) == Parity::Odd,
        ascii_lower(s) == "even"@ ==> parity_from(s) == Parity::Even,
        ascii_lower(s) == "none"@ ==> parity_from(s) == Parity::NoParity,
{
    reveal_strlit("none");
    reveal_strlit("odd");
    reveal_strlit("even");
    assert("odd"@.len() != "even"@.len());
    assert("none"@.len() != "odd"@.len() && "none"@[0] != "even"@[0]);
}

/// A stored number of data bits from 5 to 8 is taken as it is; any other number means 8. A
/// stored 2 means two stop bits, any other number one.
pub proof fn law_bit_counts(n: u8)
    ensures
        data_bits_number(data_bits_from(n)) == if 5 <= n <= 8 {
            n
        } else {
            8u8
        },
        stop_bits_number(stop_bits_from(n)) == if n == 2 {
            2u8
        } else {
            1u8
        },
{
}

/// The short summary of settings (`115200 8N1`) agrees with how they are stored: the baud
/// rate in decimal, a space, then the digit of the stored data-bit count, the upper-cased first
/// letter of the stored parity name, and the digit of the stored stop-bit count.
pub proof fn law_summary_matches_stored(c: SerialConfig)
    ensures
        ({
            let t = crate::serial::config::summary_text(c);
            let n = t.len() as int;
            &&& n >= 4
            &&& t.take(n - 4) == crate::text::dec_digits(c.baud_rate as nat)
            &&& t[n - 4] == ' '
            &&& t[n - 3] as u32 == 48 + data_bits_number(c.data_bits)
            &&& t[n - 2] == crate::text::ascii_upper(seq![parity_name(c.parity)[0]])[0]
            &&& t[n - 1] as u32 == 48 + stop_bits_number(c.stop_bits)
        }),
{
    reveal_strlit("none");
    reveal_strlit("odd");
    reveal_strlit("even");
    let t = crate::serial::config::summary_text(c);
    let d = crate::text::dec_digits(c.baud_rate as nat);
    assert(t.take(t.len() - 4) =~= d);
    let up = crate::text::ascii_upper(seq![parity_name(c.parity)[0]])[0];
    match c.parity {
        Parity::NoParity => assert(up as u32 == 'n' as u32 - 32),
        Parity::Odd => assert(up as u32 == 'o' as u32 - 32),
        Parity::Even => assert(up as u32 == 'e' as u32 - 32),
    }
}

/// Settings given on the command line, each overriding the stored one when present.
#[derive(Debug)]
pub struct CliOverrides {
    pub port: Option<String>,
    pub baud: Option<u32>,
    pub data_bits: Option<u8>,
    pub parity: Option<String>,
    pub stop_bits: Option<u8>,
    pub flow_control: Option<String>,
    pub line_ending: Option<String>,
    /// Skip auto-connecting to the last used port.
    pub no_auto: bool,
}

/// The port to open at start: the one given on the command line, else the last one used when
/// auto-connect is on and not switched off on the command line.
pub open spec fn startup_port(cli: CliOverrides, config: AppConfig) -> Option<String> {
    match cli.port {
        Some(p) => Some(p),
        None => if !cli.no_auto && config.connection.auto_connect {
            config.connection.last_port
        } else {
            None
        },
    }
}

/// The port to open at start.
pub fn resolve_startup_port(cli: &CliOverrides, app_config: &AppConfig) -> (r: Option<String>)
    ensures
        r == startup_port(*cli, *app_config),
{
    match &cli.port {
        Some(p) => Some(p.clone()),
        None => if !cli.no_auto && app_config.connection.auto_connect {
            app_config.connection.last_port.clone()
        } else {
            None
        },
    }
}

/// A present value overrides.
pub open spec fn or_keep<T>(o: Option<T>, keep: T) -> T {
    match o {
        Some(v) => v,
        None => keep,
    }
}

/// The serial settings to start with: the remembered profile of the start port when there is
/// one, else the stored defaults, with each setting given on the command line put over it.
pub fn resolve_effective_defaults(
    cli: &CliOverrides,
    app_config: &AppConfig,
    startup_port: Option<&str>,
) -> (d: DefaultsConfig)
    requires
        app_config.connection.port_profiles.wf(),
    ensures
        ({
            let base = match startup_port {
                Some(p) => if app_config.connection.port_profiles.as_map().dom().contains(p@) {
                    app_config.connection.port_profiles.as_map()[p@]
                } else {
                    app_config.defaults
                },
                None => app_config.defaults,
            };
            &&& d.baud_rate == or_keep(cli.baud, base.baud_rate)
            &&& d.data_bits == or_keep(cli.data_bits, base.data_bits)
            &&& d.parity == or_keep(cli.parity, base.parity)
            &&& d.stop_bits == or_keep(cli.stop_bits, base.stop_bits)
            &&& d.flow_control == or_keep(cli.flow_control, base.flow_control)
            &&& d.line_ending == or_keep(cli.line_ending, base.line_ending)
        }),
{
    let profile = match startup_port {
        Some(port) => app_config.connection.port_profiles.get(port),
        None => None,
    };
    let mut d = match profile {
        Some(p) => p.clone(),
        None => app_config.defaults.clone(),
    };
    if let Some(baud_rate) = cli.baud {
        d.baud_rate = baud_rate;
    }
    if let Some(data_bits) = cli.data_bits {
        d.data_bits = data_bits;
    }
    if let Some(parity) = &cli.parity {
        d.parity = parity.clone();
    }
    if let Some(stop_bits) = cli.stop_bits {
        d.stop_bits = stop_bits;
    }
    if let Some(flow_control) = &cli.flow_control {
        d.flow_control = flow_control.clone();
    }
    if let Some(line_ending) = &cli.line_ending {
        d.line_ending = line_ending.clone();
    }
    d
}

/// What reading the configuration file came to.
pub enum ConfigSource {
    /// The configuration directory is unknown on this system.
    NoConfigDir,
    /// There is no configuration file yet.
    Missing,
    /// The file was read and parsed.
    Loaded(AppConfig),
    /// Reading or parsing failed with this message.
    Failed(String),
}

impl AppConfig {
    /// The configuration to run with, given what reading the configuration file came to:
    /// its contents when it was read, otherwise the defaults.
    pub fn load(source: ConfigSource) -> (c: Self)
        ensures
            match source {
                ConfigSource::Loaded(loaded) => c == loaded,
                _ => is_default_config(c),
            },
    {
        ConfigLoad::from_source(source).config
    }
}

impl ConfigLoad {
    /// The configuration to run with, and the warning to show: defaults (with a warning when
    /// the directory is unknown or the file is broken) unless the file was read.
    pub fn from_source(source: ConfigSource) -> (l: Self)
        ensures
            match source {
                ConfigSource::NoConfigDir => is_default_config(l.config) && (l.warning matches Some(w)
                    && w@ == "Config warning: could not determine config directory"@),
                ConfigSource::Missing => is_default_config(l.config) && l.warning is None,
                ConfigSource::Loaded(c) => l.config == c && l.warning is None,
                ConfigSource::Failed(e) => is_default_config(l.config) && (l.warning matches Some(w)
                    && w@ == "Config warning: "@ + e@ + "; using defaults"@),
            },
    {
        match source {
            ConfigSource::NoConfigDir => ConfigLoad {
                config: AppConfig::default(),
                warning: Some(String::from_str("Config warning: could not determine config directory")),
            },
            ConfigSource::Missing => ConfigLoad { config: AppConfig::default(), warning: None },
            ConfigSource::Loaded(config) => ConfigLoad { config, warning: None },
            ConfigSource::Failed(err) => {
                let mut w = String::from_str("Config warning: ");
                crate::text::push_str(&mut w, err.as_str());
                crate::text::push_str(&mut w, "; using defaults");
                ConfigLoad { config: AppConfig::default(), warning: Some(w) }
            },
        }
    }
}

} // verus!
