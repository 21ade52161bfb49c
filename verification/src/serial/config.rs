//! Serial port configuration parameters.
use vstd::prelude::*;

use crate::text::{dec_digits, push_char, push_decimal};

verus! {

/// Number of data bits per character.
#[derive(Clone, Copy, Debug, PartialEq, Eq, Structural)]
pub enum DataBits {
    Five,
    Six,
    Seven,
    Eight,
}

/// Parity checking mode.
#[derive(Clone, Copy, Debug, PartialEq, Eq, Structural)]
pub enum Parity {
    /// No parity bit (`None` in serialport's naming).
    NoParity,
    Odd,
    Even,
}

/// Number of stop bits.
#[derive(Clone, Copy, Debug, PartialEq, Eq, Structural)]
pub enum StopBits {
    One,
    Two,
}

/// Flow control mode.
#[derive(Clone, Copy, Debug, PartialEq, Eq, Structural)]
pub enum FlowControl {
    /// No flow control (`None` in serialport's naming).
    NoFlow,
    Software,
    Hardware,
}

/// Serial port configuration parameters.
#[derive(Clone, Copy, Debug, PartialEq, Eq, Structural)]
pub struct SerialConfig {
    pub baud_rate: u32,
    pub data_bits: DataBits,
    pub parity: Parity,
    pub stop_bits: StopBits,
    pub flow_control: FlowControl,
}

/// 115200 baud, 8 data bits, no parity, one stop bit, no flow control.
pub open spec fn default_serial_config() -> SerialConfig {
    SerialConfig {
        baud_rate: 115200,
        data_bits: DataBits::Eight,
        parity: Parity::NoParity,
        stop_bits: StopBits::One,
        flow_control: FlowControl::NoFlow,
    }
}

/// Digit shown for a number of data bits.
pub open spec fn data_bits_char(d: DataBits) -> char {
    match d {
        DataBits::Five => '5',
        DataBits::Six => '6',
        DataBits::Seven => '7',
        DataBits::Eight => '8',
    }
}

/// Letter shown for a parity mode.
pub open spec fn parity_char(p: Parity) -> char {
    match p {
        Parity::NoParity => 'N',
        Parity::Odd => 'O',
        Parity::Even => 'E',
    }
}

/// Digit shown for a number of stop bits.
pub open spec fn stop_bits_char(s: StopBits) -> char {
    match s {
        StopBits::One => '1',
        StopBits::Two => '2',
    }
}

/// Short summary like `115200 8N1`.
pub open spec fn summary_text(c: SerialConfig) -> Seq<char> {
    dec_digits(c.baud_rate as nat) + seq![
        ' ',
        data_bits_char(c.data_bits),
        parity_char(c.parity),
        stop_bits_char(c.stop_bits),
    ]
}

impl Default for SerialConfig {
    fn default() -> (c: Self)
        ensures
            c == default_serial_config(),
    {
        SerialConfig {
            baud_rate: 115200,
            data_bits: DataBits::Eight,
            parity: Parity::NoParity,
            stop_bits: StopBits::One,
            flow_control: FlowControl::NoFlow,
        }
    }
}

impl SerialConfig {
    /// Format as a short summary string like "115200 8N1".
    pub fn summary(&self) -> (s: String)
        ensures
            s@ == summary_text(*self),
    {
        let mut s = String::new();
        push_decimal(&mut s, self.baud_rate as u64);
        push_char(&mut s, ' ');
        push_char(
            &mut s,
            match self.data_bits {
                DataBits::Five => '5',
                DataBits::Six => '6',
                DataBits::Seven => '7',
                DataBits::Eight => '8',
            },
        );
        push_char(
            &mut s,
            match self.parity {
                Parity::NoParity => 'N',
                Parity::Odd => 'O',
                Parity::Even => 'E',
            },
        );
        push_char(
            &mut s,
            match self.stop_bits {
                StopBits::One => '1',
                StopBits::Two => '2',
            },
        );
        assert(s@ =~= summary_text(*self));
        s
    }
}

} // verus!
