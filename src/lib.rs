//! Request/response polling engine and bit-level signal decoder for a
//! CAN-bus to vehicle-signal adapter.
//!
//! - `signal`: bit layout of a signal, loading payloads into a frame word,
//!   field extraction and encoding.
//! - `decoder`: the signal database keyed by name, and decoding by name.
//! - `schedule`: the transmit role, which decides which entry is polled
//!   when and when its next request falls due.
//! - `receive`: the receive role, which matches responses to requests and
//!   decodes them.
//! - `config`: the polling table and its settings; `hex`: the hexadecimal
//!   notation of the configuration file.
//! - `storage`: settings of the persistent state store.

pub mod config;
pub mod decoder;
pub mod hex;
pub mod receive;
pub mod schedule;
pub mod signal;
pub mod storage;
