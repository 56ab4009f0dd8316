//! `--host`: the same plan, run through a `dfu-remote` daemon.
pub mod crc;
pub mod error;
pub mod protocol;
pub mod session;
pub mod table;
pub mod wire;
