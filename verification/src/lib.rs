//! The decision core of a mesh node that records, stores, serves and forgets
//! signed media evidence.
//!
//! Every rule of the node that can be written from plain values to plain
//! values lives here, with a contract: how shards are framed and found again,
//! which requests are admitted, what is queued, retried or dropped, and what a
//! revocation removes. Sockets, files, clocks and channels stay outside.
pub mod actors;
pub mod aged_map;
pub mod artifacts;
pub mod bytes;
pub mod clock;
pub mod config;
pub mod crypto;
pub mod engine;
pub mod evidence;
pub mod hardware;
pub mod identity;
pub mod lists;
pub mod network;
pub mod paths;
pub mod persistence;
pub mod power;
pub mod psk;
pub mod text;
pub mod text_map;
pub mod wire;
