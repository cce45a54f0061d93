//! The swarm key: the secret that nodes of one private swarm share.
use vstd::prelude::*;
use crate::crypto;
use crate::persistence::vault::crypto::exactly_32;

verus! {

/// Reads the contents of a swarm key file. A key has exactly 32 bytes; anything
/// else is corrupt and is ignored.
pub fn load_swarm_key(contents: &[u8]) -> (key: Option<[u8; 32]>)
    ensures
        key is Some <==> contents@.len() == 32,
        key is Some ==> (key->0)@ == contents@,
{
    exactly_32(contents)
}

/// Makes a new swarm key. It is there unless the system has no randomness.
pub fn generate_swarm_key() -> (key: Option<[u8; 32]>) {
    crypto::random_key()
}

} // verus!
