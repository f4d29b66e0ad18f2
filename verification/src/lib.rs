//! A verified core for an NFSv4.0 server: client records and leases, open and
//! byte-range locking state, export bookkeeping and quotas, filehandle
//! attributes, and the protocol decisions made on each request.

pub mod locking;
pub mod proto;
pub mod filehandle;
pub mod attrs;
pub mod handle;
pub mod pseudo;
pub mod ops;
pub mod dispatch;
pub mod readdir;
pub mod fileops;
pub mod fhstate;
pub mod open;
pub mod laws;
pub mod filemanager;
pub mod clientmanager;
pub mod export_manager;
