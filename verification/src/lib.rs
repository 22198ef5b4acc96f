//! Discovery of the printers installed on a Windows host.
//!
//! The print spooler answers an enumeration request by filling a caller-supplied
//! buffer with fixed-size records followed by the wide strings the records point
//! to. This crate holds everything about that exchange that can be decided
//! without touching the operating system: which requests are made and in which
//! order, how a reply is validated, how the records and their names are read out
//! of the raw bytes, and how UTF-16 names become text.

pub mod print_service;
pub mod record;
pub mod utf16;
pub mod wide;
