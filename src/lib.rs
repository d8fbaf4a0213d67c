//! Core of a headless LocalSend peer: device records, peer discovery,
//! transfer sessions and the local control commands.
pub mod keyed;
pub mod text;
pub mod outside;
pub mod device;
pub mod peers;
pub mod error;
pub mod discovery;
pub mod files;
pub mod session;
pub mod command;
