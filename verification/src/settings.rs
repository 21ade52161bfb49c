//! The serial settings popup: its six fields, how each value cycles, and how a value is shown.
use vstd::prelude::*;

use crate::serial::config::{DataBits, FlowControl, Parity, SerialConfig, StopBits};
use crate::config::data_bits_number;
use crate::text::chars_of;

verus! {

/// Number of common baud rates offered.
pub const BAUD_RATE_COUNT: usize = 12;

/// Number of settings fields: baud rate, data bits, parity, stop bits, flow control, line
/// ending.
pub const SETTINGS_FIELDS: usize = 6;

/// The common baud rates, in increasing order.
pub open spec fn baud_table() -> Seq<u32> {
    seq![300, 1200, 2400, 4800, 9600, 19200, 38400, 57600, 115200, 230400, 460800, 921600]
}

/// Common baud rates for quick selection.
pub fn baud_rates() -> (v: Vec<u32>)
    ensures
        v@ == baud_table(),
        v@.len() == BAUD_RATE_COUNT,
{
    let v: Vec<u32> = vec![300, 1200, 2400, 4800, 9600, 19200, 38400, 57600, 115200, 230400, 460800, 921600];
    assert(v@ =~= baud_table());
    v
}

/// Position of `rate` among the common rates.
pub open spec fn rate_index(rate: u32) -> Option<int> {
    if exists|i: int| 0 <= i < baud_table().len() && baud_table()[i] == rate {
        Some(choose|i: int| 0 <= i < baud_table().len() && baud_table()[i] == rate)
    } else {
        None
    }
}

/// The next common rate after `rate`, wrapping around; the first when `rate` is not one.
pub open spec fn next_rate(rate: u32) -> u32 {
    match rate_index(rate) {
        Some(i) => baud_table()[(i + 1) % 12],
        None => baud_table()[0],
    }
}

/// The common rate before `rate`, wrapping around; the last when `rate` is not one.
pub open spec fn prev_rate(rate: u32) -> u32 {
    match rate_index(rate) {
        Some(i) => if i == 0 {
            baud_table()[11]
        } else {
            baud_table()[i - 1]
        },
        None => baud_table()[11],
    }
}

pub open spec fn next_data_bits(d: DataBits) -> DataBits {
    match d {
        DataBits::Five => DataBits::Six,
        DataBits::Six => DataBits::Seven,
        DataBits::Seven => DataBits::Eight,
        DataBits::Eight => DataBits::Five,
    }
}

pub open spec fn prev_data_bits(d: DataBits) -> DataBits {
    match d {
        DataBits::Five => DataBits::Eight,
        DataBits::Six => DataBits::Five,
        DataBits::Seven => DataBits::Six,
        DataBits::Eight => DataBits::Seven,
    }
}

pub open spec fn next_parity(p: Parity) -> Parity {
    match p {
        Parity::NoParity => Parity::Odd,
        Parity::Odd => Parity::Even,
        Parity::Even => Parity::NoParity,
    }
}

pub open spec fn prev_parity(p: Parity) -> Parity {
    match p {
        Parity::NoParity => Parity::Even,
        Parity::Odd => Parity::NoParity,
        Parity::Even => Parity::Odd,
    }
}

pub open spec fn other_stop_bits(s: StopBits) -> StopBits {
    match s {
        StopBits::One => StopBits::Two,
        StopBits::Two => StopBits::One,
    }
}

pub open spec fn next_flow(f: FlowControl) -> FlowControl {
    match f {
        FlowControl::NoFlow => FlowControl::Software,
        FlowControl::Software => FlowControl::Hardware,
        FlowControl::Hardware => FlowControl::NoFlow,
    }
}

pub open spec fn prev_flow(f: FlowControl) -> FlowControl {
    match f {
        FlowControl::NoFlow => FlowControl::Hardware,
        FlowControl::Software => FlowControl::NoFlow,
        FlowControl::Hardware => FlowControl::Software,
    }
}

/// Line endings cycle CRLF, LF, CR; anything else goes to CRLF.
pub open spec fn next_ending(e: Seq<char>) -> Seq<char> {
    if e == "\r\n"@ {
        "\n"@
    } else if e == "\n"@ {
        "\r"@
    } else {
        "\r\n"@
    }
}

/// Backwards: CRLF, CR, LF; anything else goes to CRLF.
pub open spec fn prev_ending(e: Seq<char>) -> Seq<char> {
    if e == "\r\n"@ {
        "\r"@
    } else if e == "\n"@ {
        "\r\n"@
    } else if e == "\r"@ {
        "\n"@
    } else {
        "\r\n"@
    }
}

/// The settings after cycling field `field` forward (`forward`) or backward.
pub open spec fn cycled(field: int, forward: bool, c: SerialConfig, e: Seq<char>) -> (SerialConfig, Seq<char>) {
    if field == 0 {
        (SerialConfig { baud_rate: if forward { next_rate(c.baud_rate) } else { prev_rate(c.baud_rate) }, ..c }, e)
    } else if field == 1 {
        (SerialConfig { data_bits: if forward { next_data_bits(c.data_bits) } else { prev_data_bits(c.data_bits) }, ..c }, e)
    } else if field == 2 {
        (SerialConfig { parity: if forward { next_parity(c.parity) } else { prev_parity(c.parity) }, ..c }, e)
    } else if field == 3 {
        (SerialConfig { stop_bits: other_stop_bits(c.stop_bits), ..c }, e)
    } else if field == 4 {
        (SerialConfig { flow_control: if forward { next_flow(c.flow_control) } else { prev_flow(c.flow_control) }, ..c }, e)
    } else if field == 5 {
        (c, if forward { next_ending(e) } else { prev_ending(e) })
    } else {
        (c, e)
    }
}

/// Position of `rate` in the table: the first one equal to it.
fn find_rate(rate: u32) -> (r: Option<usize>)
    ensures
        match r {
            Some(i) => i < 12 && baud_table()[i as int] == rate && rate_index(rate) == Some(i as int),
            None => rate_index(rate) is None,
        },
{
    let rates = baud_rates();
    let mut i: usize = 0;
    while i < rates.len()
        invariant
            rates@ == baud_table(),
            i <= 12,
            forall|j: int| 0 <= j < i ==> baud_table()[j] != rate,
        decreases rates.len() - i,
    {
        if rates[i] == rate {
            proof {
                let k = choose|k: int| 0 <= k < baud_table().len() && baud_table()[k] == rate;
                assert(baud_table()[i as int] == rate);
                lemma_rates_distinct(k, i as int);
            }
            return Some(i);
        }
        i = i + 1;
    }
    None
}

/// The common rates are distinct.
proof fn lemma_rates_distinct(i: int, j: int)
    requires
        0 <= i < 12,
        0 <= j < 12,
        baud_table()[i] == baud_table()[j],
    ensures
        i == j,
{
}

/// Whether `s` is exactly the characters of `lit`.
fn same_text(s: &str, lit: &str) -> (b: bool)
    ensures
        b == (s@ == lit@),
{
    let a = chars_of(s);
    let b = chars_of(lit);
    if a.len() != b.len() {
        return false;
    }
    let mut i: usize = 0;
    while i < a.len()
        invariant
            a@ == s@,
            b@ == lit@,
            a@.len() == b@.len(),
            i <= a@.len(),
            forall|j: int| 0 <= j < i ==> a@[j] == b@[j],
        decreases a.len() - i,
    {
        if a[i] != b[i] {
            return false;
        }
        i = i + 1;
    }
    assert(a@ =~= b@);
    true
}

/// Cycles the value of settings field `field` forward or backward. Fields past the last
/// change nothing.
pub fn cycle_value(field: usize, forward: bool, config: &mut SerialConfig, line_ending: &mut String)
    ensures
        (*final(config), final(line_ending)@) == cycled(field as int, forward, *old(config), old(line_ending)@),
{
    match field {
        0 => {
            let rates = baud_rates();
            let idx = find_rate(config.baud_rate);
            let next_idx: usize = if forward {
                match idx {
                    Some(i) => (i + 1) % 12,
                    None => 0,
                }
            } else {
                match idx {
                    Some(i) => if i == 0 {
                        11
                    } else {
                        i - 1
                    },
                    None => 11,
                }
            };
            config.baud_rate = rates[next_idx];
        },
        1 => {
            config.data_bits = match (config.data_bits, forward) {
                (DataBits::Five, true) => DataBits::Six,
                (DataBits::Six, true) => DataBits::Seven,
                (DataBits::Seven, true) => DataBits::Eight,
                (DataBits::Eight, true) => DataBits::Five,
                (DataBits::Five, false) => DataBits::Eight,
                (DataBits::Six, false) => DataBits::Five,
                (DataBits::Seven, false) => DataBits::Six,
                (DataBits::Eight, false) => DataBits::Seven,
            };
        },
        2 => {
            config.parity = match (config.parity, forward) {
                (Parity::NoParity, true) => Parity::Odd,
                (Parity::Odd, true) => Parity::Even,
                (Parity::Even, true) => Parity::NoParity,
                (Parity::NoParity, false) => Parity::Even,
                (Parity::Odd, false) => Parity::NoParity,
                (Parity::Even, false) => Parity::Odd,
            };
        },
        3 => {
            config.stop_bits = match config.stop_bits {
                StopBits::One => StopBits::Two,
                StopBits::Two => StopBits::One,
            };
        },
        4 => {
            config.flow_control = match (config.flow_control, forward) {
                (FlowControl::NoFlow, true) => FlowControl::Software,
                (FlowControl::Software, true) => FlowControl::Hardware,
                (FlowControl::Hardware, true) => FlowControl::NoFlow,
                (FlowControl::NoFlow, false) => FlowControl::Hardware,
                (FlowControl::Software, false) => FlowControl::NoFlow,
                (FlowControl::Hardware, false) => FlowControl::Software,
            };
        },
        5 => {
            let next = if same_text(line_ending.as_str(), "\r\n") {
                if forward {
                    "\n"
                } else {
                    "\r"
                }
            } else if same_text(line_ending.as_str(), "\n") {
                if forward {
                    "\r"
                } else {
                    "\r\n"
                }
            } else if same_text(line_ending.as_str(), "\r") {
                if forward {
                    "\r\n"
                } else {
                    "\n"
                }
            } else {
                "\r\n"
            };
            *line_ending = String::from_str(next);
        },
        _ => {},
    }
}

/// Changing the serial parameters (not the line ending) needs a reconnect.
pub fn settings_require_reconnect(
    original_config: &SerialConfig,
    current_config: &SerialConfig,
    _original_line_ending: &str,
    _current_line_ending: &str,
) -> (b: bool)
    ensures
        b == (*original_config != *current_config),
{
    *original_config != *current_config
}

/// Stepping a field forward and then back restores it, for every value the popup offers: a
/// common baud rate and one of the three line endings.
pub proof fn law_prev_undoes_next(field: int, c: SerialConfig, e: Seq<char>)
    requires
        rate_index(c.baud_rate) is Some,
        e == "\r\n"@ || e == "\n"@ || e == "\r"@,
    ensures
        ({
            let (c1, e1) = cycled(field, true, c, e);
            cycled(field, false, c1, e1) == (c, e)
        }),
        ({
            let (c1, e1) = cycled(field, false, c, e);
            cycled(field, true, c1, e1) == (c, e)
        }),
{
    reveal_strlit("\r\n");
    reveal_strlit("\n");
    reveal_strlit("\r");
    assert("\r\n"@.len() != "\n"@.len());
    assert("\r\n"@.len() != "\r"@.len());
    assert("\n"@[0] != "\r"@[0]);
    let i = rate_index(c.baud_rate)->0;
    assert(0 <= i < 12 && baud_table()[i] == c.baud_rate);
    let n = (i + 1) % 12;
    assert(rate_index(baud_table()[n]) == Some(n)) by {
        let k = choose|k: int| 0 <= k < baud_table().len() && baud_table()[k] == baud_table()[n];
        lemma_rates_distinct(k, n);
    }
    let p = if i == 0 { 11 } else { i - 1 };
    assert(rate_index(baud_table()[p]) == Some(p)) by {
        let k = choose|k: int| 0 <= k < baud_table().len() && baud_table()[k] == baud_table()[p];
        lemma_rates_distinct(k, p);
    }
}

/// Each common rate is found at its own position.
proof fn lemma_rate_index_of(k: int)
    requires
        0 <= k < 12,
    ensures
        rate_index(baud_table()[k]) == Some(k),
{
    let j = choose|j: int| 0 <= j < baud_table().len() && baud_table()[j] == baud_table()[k];
    lemma_rates_distinct(j, k);
}

/// Cycling a field changes that field's value and nothing else, and the new value is one the
/// popup offers: the baud rate steps to the next higher common rate (from the highest, or from
/// a rate that is not a common one, to the lowest) and back to the next lower one; data bits
/// count up from 5 to 8 and wrap; parity, the stop bits, flow control and the line ending each
/// take a different value of their own.
pub proof fn law_cycle_changes_its_field(field: int, forward: bool, c: SerialConfig, e: Seq<char>)
    requires
        0 <= field < 6,
    ensures
        ({
            let (c1, e1) = cycled(field, forward, c, e);
            &&& field == 0 ==> {
                &&& c1 == (SerialConfig { baud_rate: c1.baud_rate, ..c }) && e1 == e
                &&& c1.baud_rate != c.baud_rate
                &&& rate_index(c1.baud_rate) is Some
                &&& forward && rate_index(c.baud_rate) is Some && c.baud_rate < 921600 ==> c1.baud_rate
                    > c.baud_rate
                &&& forward && (c.baud_rate == 921600 || rate_index(c.baud_rate) is None) ==> c1.baud_rate
                    == 300
                &&& !forward && rate_index(c.baud_rate) is Some && c.baud_rate > 300 ==> c1.baud_rate
                    < c.baud_rate
            }
            &&& field == 1 ==> {
                &&& c1 == (SerialConfig { data_bits: c1.data_bits, ..c }) && e1 == e
                &&& forward ==> data_bits_number(c1.data_bits) == if data_bits_number(c.data_bits) == 8 {
                    5
                } else {
                    data_bits_number(c.data_bits) + 1
                }
                &&& !forward ==> data_bits_number(c1.data_bits) == if data_bits_number(c.data_bits) == 5 {
                    8
                } else {
                    data_bits_number(c.data_bits) - 1
                }
            }
            &&& field == 2 ==> c1 == (SerialConfig { parity: c1.parity, ..c }) && e1 == e && c1.parity
                != c.parity
            &&& field == 3 ==> c1 == (SerialConfig { stop_bits: c1.stop_bits, ..c }) && e1 == e
                && c1.stop_bits != c.stop_bits
            &&& field == 4 ==> c1 == (SerialConfig { flow_control: c1.flow_control, ..c }) && e1 == e
                && c1.flow_control != c.flow_control
            &&& field == 5 ==> c1 == c && e1 != e && (e1 == "\r\n"@ || e1 == "\n"@ || e1 == "\r"@)
        }),
{
    reveal_strlit("\r\n");
    reveal_strlit("\n");
    reveal_strlit("\r");
    assert("\r\n"@.len() != "\n"@.len());
    assert("\r\n"@.len() != "\r"@.len());
    assert("\n"@[0] != "\r"@[0]);
    lemma_rate_index_of(0);
    lemma_rate_index_of(11);
    match rate_index(c.baud_rate) {
        Some(i) => {
            assert(0 <= i < 12 && baud_table()[i] == c.baud_rate);
            lemma_rate_index_of((i + 1) % 12);
            if i > 0 {
                lemma_rate_index_of(i - 1);
            }
        },
        None => {
            assert(baud_table()[0] != c.baud_rate);
            assert(baud_table()[11] != c.baud_rate);
        },
    }
}

/// The text shown for a number of data bits.
pub fn data_bits_str(db: DataBits) -> (s: &'static str)
    ensures
        s@ == seq![crate::serial::config::data_bits_char(db)],
{
    proof {
        reveal_strlit("5");
        reveal_strlit("6");
        reveal_strlit("7");
        reveal_strlit("8");
    }
    match db {
        DataBits::Five => "5",
        DataBits::Six => "6",
        DataBits::Seven => "7",
        DataBits::Eight => "8",
    }
}

/// The text shown for a parity mode.
pub fn parity_str(p: Parity) -> (s: &'static str)
    ensures
        s@ == match p {
            Parity::NoParity => "None"@,
            Parity::Odd => "Odd"@,
            Parity::Even => "Even"@,
        },
{
    match p {
        Parity::NoParity => "None",
        Parity::Odd => "Odd",
        Parity::Even => "Even",
    }
}

/// The text shown for a number of stop bits.
pub fn stop_bits_str(sb: StopBits) -> (s: &'static str)
    ensures
        s@ == match sb {
            StopBits::One => "1"@,
            StopBits::Two => "2"@,
        },
{
    match sb {
        StopBits::One => "1",
        StopBits::Two => "2",
    }
}

/// The text shown for a flow control mode.
pub fn flow_control_str(fc: FlowControl) -> (s: &'static str)
    ensures
        s@ == match fc {
            FlowControl::NoFlow => "None"@,
            FlowControl::Software => "Software"@,
            FlowControl::Hardware => "Hardware"@,
        },
{
    match fc {
        FlowControl::NoFlow => "None",
        FlowControl::Software => "Software",
        FlowControl::Hardware => "Hardware",
    }
}

} // verus!
