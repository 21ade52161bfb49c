//! Core logic of a serial terminal for embedded work: scrollback search,
//! command history, hex dumps, display-width arithmetic, line filters,
//! macros, configuration values and a simulated AT modem.

pub mod buffer;
pub mod config;
pub mod display;
pub mod editor;
pub mod filter;
pub mod hex;
pub mod highlight;
pub mod history;
pub mod keyed;
pub mod keys;
pub mod logging;
pub mod macros;
pub mod mouse;
pub mod paths;
pub mod patterns;
pub mod scroll;
pub mod search;
pub mod serial;
pub mod session;
pub mod settings;
pub mod sim;
pub mod text;
pub mod theme;
pub mod transport;
pub mod ui;
