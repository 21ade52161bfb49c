//! Serial-port values: configuration, detected ports and the events of a connection.

pub mod config;
pub mod connection;
pub mod detector;
