//! The key of the vault and the shape of its encrypted files.
use vstd::prelude::*;
use crate::bytes;
use crate::crypto;
use crate::evidence::GuardianError;
use crate::persistence::vault::recording_log::AEAD_NONCE_LEN;
use crate::persistence::vault::wal;

verus! {

/// `key` is the key of the vault of an identity with this salt.
pub open spec fn is_vault_key(identity_secret: Seq<u8>, salt: Seq<u8>, key: Seq<u8>) -> bool {
    key == crypto::blake3_derived_key(
        "phalanx.vault.v1.disk-encryption"@,
        identity_secret + salt,
    )
}

/// The key of a vault is the same at every start: it rests on the identity and the salt,
/// and on all of both.
pub proof fn law_a_vault_keeps_its_key(
    identity_secret: Seq<u8>,
    salt: Seq<u8>,
    material: Seq<u8>,
    key: Seq<u8>,
    again: Seq<u8>,
)
    requires
        identity_secret.len() == 32,
        salt.len() == 32,
        material.len() == 64,
        material.take(32) == identity_secret,
        material.skip(32) == salt,
        is_vault_key(identity_secret, salt, key),
        is_vault_key(identity_secret, salt, again),
    ensures
        key == again,
        key == crypto::blake3_derived_key("phalanx.vault.v1.disk-encryption"@, material),
{
    assert(material =~= identity_secret + salt);
}

/// Derives the vault's key from the identity's secret key and the vault's salt.
pub fn derive_vault_key(identity_secret: &[u8; 32], salt: &[u8; 32]) -> (key: [u8; 32])
    ensures
        is_vault_key(identity_secret@, salt@, key@),
{
    let mut material: Vec<u8> = Vec::new();
    bytes::extend(&mut material, identity_secret.as_slice());
    bytes::extend(&mut material, salt.as_slice());
    assert(material@ =~= identity_secret@ + salt@);
    crypto::derive_key("phalanx.vault.v1.disk-encryption", material.as_slice())
}

/// Exactly thirty-two bytes as an array.
pub fn exactly_32(data: &[u8]) -> (array: Option<[u8; 32]>)
    ensures
        match array {
            Some(a) => a@ == data@,
            None => data@.len() != 32,
        },
{
    if data.len() != 32 {
        return None;
    }
    let mut array: [u8; 32] = [0u8; 32];
    let mut i: usize = 0;
    while i < 32
        invariant
            i <= 32,
            data@.len() == 32,
            forall|j: int| 0 <= j < i ==> array@[j] == data@[j],
        decreases 32 - i,
    {
        array[i] = data[i];
        i += 1;
    }
    assert(array@ =~= data@);
    Some(array)
}

/// The salt out of the contents of its file.
pub fn parse_vault_salt(data: &[u8]) -> (salt: Result<[u8; 32], String>)
    ensures
        match salt {
            Ok(s) => s@ == data@,
            Err(m) => data@.len() != 32 && m@ == "Vault salt file is not 32 bytes"@,
        },
{
    match exactly_32(data) {
        Some(salt) => Ok(salt),
        None => Err("Vault salt file is not 32 bytes".to_owned()),
    }
}

/// A fresh salt for a new vault, or nothing where the system has no randomness.
pub fn new_vault_salt() -> (salt: Option<[u8; 32]>) {
    crypto::random_key()
}

/// Parts an encrypted file into nonce and ciphertext.
pub fn open_encrypted_file(sealed: &[u8]) -> (parts: Result<(Vec<u8>, Vec<u8>), GuardianError>)
    ensures
        match parts {
            Ok((nonce, ciphertext)) => nonce@.len() == AEAD_NONCE_LEN && sealed@ == nonce@
                + ciphertext@,
            Err(e) => sealed@.len() < AEAD_NONCE_LEN && e.is_storage_failure(
                "File too small for AEAD frame"@,
            ),
        },
{
    match wal::unseal(sealed) {
        Some(parts) => Ok(parts),
        None => Err(GuardianError::StorageFailure("File too small for AEAD frame".to_owned())),
    }
}

} // verus!
