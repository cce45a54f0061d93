//! The vault: encrypted recordings, their keys, their policies and the room
//! they take.
pub mod crypto;
pub mod guardian;
pub mod ledger;
pub mod listing;
pub mod metadata;
pub mod recording_log;
pub mod wal;
