//! The terms on which a recording's key is handed to a custody peer.
use vstd::prelude::*;
use crate::actors::trust_actor::GrantPermissions;

verus! {

/// What is sealed: the key of one recording, for one recipient, with its permissions.
#[derive(Debug)]
pub struct GrantTerms {
    pub target: String,
    pub key: [u8; 32],
    pub recipient: String,
    pub permissions: GrantPermissions,
}

/// Draws up an export grant: the custody peer may export the recording, and may
/// not play it.
pub fn mint_export_grant(recording_id: &String, dek: [u8; 32], stronghold_did: &String) -> (terms:
    GrantTerms)
    ensures
        terms.target@ == recording_id@,
        terms.key == dek,
        terms.recipient@ == stronghold_did@,
        terms.permissions == (GrantPermissions { playback: false, export: true }),
{
    GrantTerms {
        target: recording_id.clone(),
        key: dek,
        recipient: stronghold_did.clone(),
        permissions: GrantPermissions { playback: false, export: true },
    }
}

} // verus!
